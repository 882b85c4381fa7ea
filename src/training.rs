use vstd::prelude::*;

use crate::fitness::Fitness;
use crate::selection::{
    all_valid, listed, parents_drawn, precedes, rank, select_parents, Champion, SelectionError,
};

verus! {

/// Why training gave nothing back.
#[derive(Clone, Copy, Debug, PartialEq, Eq, Structural)]
pub enum TrainingError {
    /// No individual of any generation scored above zero.
    NoChampionFound,
}

/// What closing a generation decided.
pub struct Generation {
    /// The individual with the best score; the first one among equals.
    pub best: usize,
    /// Whether that score beat every score of earlier generations.
    pub champion_improved: bool,
    /// The parent of each member of the next generation.
    pub parents: Vec<usize>,
}

/// `best` holds a top score of `s`, and no earlier index holds an equal one.
pub open spec fn first_best(s: Seq<Fitness>, best: int) -> bool {
    &&& 0 <= best < s.len()
    &&& forall|j: int| 0 <= j < s.len() ==> !(#[trigger] s[j]).beats(s[best])
    &&& forall|j: int| 0 <= j < best ==> s[best].beats(#[trigger] s[j])
}

/// The run of generations: how many are to be played, how many are closed, and
/// the best score seen.
pub struct Trainer {
    pub generations: usize,
    pub closed: usize,
    pub champion: Champion,
}

impl Trainer {
    pub fn new(generations: usize) -> (r: Trainer)
        ensures
            r.generations == generations,
            r.closed == 0,
            r.champion.best is None,
    {
        Trainer { generations, closed: 0, champion: Champion::new() }
    }

    /// Whether every generation has been played.
    pub fn finished(&self) -> (r: bool)
        ensures
            r == (self.closed >= self.generations),
    {
        self.closed >= self.generations
    }

    /// Ends a generation whose scores are `scores`: finds its best individual,
    /// offers that score to the champion, and chooses the parents of a next
    /// generation of the same size.
    pub fn close_generation(&mut self, scores: &Vec<Fitness>, rng: &mut rand::rngs::StdRng) -> (r:
        Result<Generation, SelectionError>)
        requires
            all_valid(scores@),
            old(self).closed < usize::MAX,
            old(self).champion.best matches Some(b) ==> b.valid(),
        ensures
            r is Err <==> scores.len() == 0,
            r is Err ==> *final(self) == *old(self),
            final(self).champion.best matches Some(b) ==> b.valid(),
            r matches Ok(g) ==> {
                &&& first_best(scores@, g.best as int)
                &&& g.champion_improved == match old(self).champion.best {
                    None => scores@[g.best as int].num() > 0,
                    Some(b) => scores@[g.best as int].beats(b),
                }
                &&& final(self).champion.best == if g.champion_improved {
                    Some(scores@[g.best as int])
                } else {
                    old(self).champion.best
                }
                &&& (exists|j: int| 0 <= j < scores.len() && (#[trigger] scores@[j]).num() > 0)
                    ==> final(self).champion.best is Some
                &&& parents_drawn(scores@, scores.len() as int, g.parents@)
                &&& final(self).closed == old(self).closed + 1
                &&& final(self).generations == old(self).generations
            },
    {
        let n = scores.len();
        let parents = match select_parents(scores, n, rng) {
            Ok(parents) => parents,
            Err(e) => {
                return Err(e);
            },
        };
        let order = rank(scores);
        let best = order[0];
        proof {
            let s = scores@;
            let o = order@;
            assert forall|j: int| 0 <= j < s.len() implies !(#[trigger] s[j]).beats(s[best as int])
                && (j < best ==> s[best as int].beats(s[j])) by {
                assert(listed(o, j));
                let k = choose|k: int| 0 <= k < o.len() && o[k] == j;
                if k > 0 {
                    assert(precedes(s, o[0] as int, o[k] as int));
                }
            }
        }
        proof {
            let s = scores@;
            if exists|j: int| 0 <= j < s.len() && (#[trigger] s[j]).num() > 0 {
                let j = choose|j: int| 0 <= j < s.len() && (#[trigger] s[j]).num() > 0;
                assert(!s[j].beats(s[best as int]));
                assert(s[best as int].valid());
            }
        }
        let champion_improved = self.champion.consider(scores[best]);
        self.closed = self.closed + 1;
        Ok(Generation { best, champion_improved, parents })
    }

    /// The champion's score, once some generation scored above zero.
    pub fn outcome(&self) -> (r: Result<Fitness, TrainingError>)
        ensures
            r == match self.champion.best {
                Some(b) => Ok::<Fitness, TrainingError>(b),
                None => Err(TrainingError::NoChampionFound),
            },
    {
        match self.champion.best {
            Some(b) => Ok(b),
            None => Err(TrainingError::NoChampionFound),
        }
    }
}

} // verus!
