use vstd::prelude::*;

use crate::fitness::{lemma_beats_transitive, Fitness};
use crate::random::random_below;

verus! {

/// Every score is well formed.
pub open spec fn all_valid(s: Seq<Fitness>) -> bool {
    forall|i: int| 0 <= i < s.len() ==> (#[trigger] s[i]).valid()
}

/// Index `a` comes before index `b`: higher score first, ties in index order.
pub open spec fn precedes(s: Seq<Fitness>, a: int, b: int) -> bool {
    s[a].beats(s[b]) || (!s[b].beats(s[a]) && a < b)
}

/// `j` appears somewhere in `order`.
pub open spec fn listed(order: Seq<usize>, j: int) -> bool {
    exists|k: int| 0 <= k < order.len() && order[k] == j
}

/// `order` lists each index of `s` once, best score first, ties kept in the
/// order of the indices.
pub open spec fn ranks(s: Seq<Fitness>, order: Seq<usize>) -> bool {
    &&& order.len() == s.len()
    &&& forall|k: int| 0 <= k < order.len() ==> (#[trigger] order[k]) < s.len()
    &&& forall|j: int| 0 <= j < s.len() ==> #[trigger] listed(order, j)
    &&& forall|a: int, b: int|
        0 <= a < b < order.len() ==> #[trigger] precedes(s, order[a] as int, order[b] as int)
}

/// Sum of the weights.
pub open spec fn total(w: Seq<u64>) -> int
    decreases w.len(),
{
    if w.len() == 0 {
        0
    } else {
        total(w.drop_last()) + w.last()
    }
}

/// The selection weights of `s`, taken in the order `order`.
pub open spec fn weights_in(s: Seq<Fitness>, order: Seq<usize>) -> Seq<u64> {
    Seq::new(order.len(), |k: int| s[order[k] as int].weight())
}

/// A spin of the wheel with value `draw` stops at `k`: the first position whose
/// running sum of weights reaches the draw.
pub open spec fn picks(w: Seq<u64>, draw: int, k: int) -> bool {
    &&& 0 <= k < w.len()
    &&& draw <= total(w.take(k + 1))
    &&& forall|j: int| 0 <= j < k ==> #[trigger] total(w.take(j + 1)) < draw
}

/// A spin over the ranking `order` of `s`, with a draw below the total weight,
/// stops at `parent`.
pub open spec fn spin(s: Seq<Fitness>, order: Seq<usize>, draw: int, k: int, parent: usize) -> bool {
    &&& ranks(s, order)
    &&& 0 <= draw < total(weights_in(s, order))
    &&& picks(weights_in(s, order), draw, k)
    &&& order[k] == parent
}

/// `parent` can come out of one spin of the roulette wheel over `s`.
pub open spec fn spun(s: Seq<Fitness>, parent: usize) -> bool {
    exists|order: Seq<usize>, draw: int, k: int| #[trigger] spin(s, order, draw, k, parent)
}

/// Every score is zero.
pub open spec fn scoreless(s: Seq<Fitness>) -> bool {
    forall|i: int| 0 <= i < s.len() ==> (#[trigger] s[i]).num() == 0
}

/// `parents` holds `count` indices of `s`. Unless every score is zero, each is
/// the stop of a spin of the roulette wheel and has a score above zero.
pub open spec fn parents_drawn(s: Seq<Fitness>, count: int, parents: Seq<usize>) -> bool {
    &&& parents.len() == count
    &&& forall|i: int| 0 <= i < count ==> (#[trigger] parents[i]) < s.len()
    &&& !scoreless(s) ==> forall|i: int|
        0 <= i < count ==> spun(s, #[trigger] parents[i]) && s[parents[i] as int].num() > 0
}

proof fn lemma_total_bounded(w: Seq<u64>)
    ensures
        0 <= total(w) <= w.len() * (u64::MAX as int),
    decreases w.len(),
{
    if w.len() > 0 {
        lemma_total_bounded(w.drop_last());
    }
}

proof fn lemma_total_covers(w: Seq<u64>, k: int)
    requires
        0 <= k < w.len(),
    ensures
        total(w) >= w[k],
    decreases w.len(),
{
    lemma_total_bounded(w.drop_last());
    if k < w.len() - 1 {
        lemma_total_covers(w.drop_last(), k);
    }
}

proof fn lemma_total_zero(w: Seq<u64>)
    requires
        forall|i: int| 0 <= i < w.len() ==> #[trigger] w[i] == 0,
    ensures
        total(w) == 0,
    decreases w.len(),
{
    if w.len() > 0 {
        lemma_total_zero(w.drop_last());
    }
}

proof fn lemma_valid_weight(f: Fitness)
    requires
        f.valid(),
    ensures
        f.weight() == 0 <==> f.num() == 0,
        f.num() == 0 ==> f.den() == 100,
{
    if let Fitness::Grew { len, steps } = f {
        if steps > 0 && 1_000_000 * len / (steps as int) <= u64::MAX {
            assert(1_000_000 * len / (steps as int) >= 0) by (nonlinear_arith)
                requires
                    len >= 0,
                    steps > 0,
            ;
        }
    }
}

/// A spin of the wheel never stops at a score of zero.
proof fn lemma_spin_scores(s: Seq<Fitness>, order: Seq<usize>, draw: int, k: int, parent: usize)
    requires
        all_valid(s),
        spin(s, order, draw, k, parent),
    ensures
        s[parent as int].num() > 0,
{
    let w = weights_in(s, order);
    lemma_valid_weight(s[parent as int]);
    if w[k] == 0 {
        assert(w.take(k + 1).drop_last() =~= w.take(k));
        assert(w.take(k + 1).last() == w[k]);
        assert(w.take(0).len() == 0);
        if k > 0 {
            assert(total(w.take((k - 1) + 1)) < draw);
        } else {
            assert(total(w.take(0)) == 0);
            assert(total(w.take(1)) == total(w.take(0)) + w[0]);
            assert(draw == 0);
            if forall|i: int| 0 <= i < w.len() ==> #[trigger] w[i] == 0 {
                lemma_total_zero(w);
            }
            let m = choose|m: int| 0 <= m < w.len() && #[trigger] w[m] != 0;
            let top = s[order[0] as int];
            let other = s[order[m] as int];
            lemma_valid_weight(top);
            lemma_valid_weight(other);
            assert(precedes(s, order[0] as int, order[m] as int));
        }
    }
}

proof fn lemma_u128_room(k: int)
    requires
        0 <= k <= usize::MAX,
    ensures
        (k + 1) * (u64::MAX as int) <= u128::MAX,
{
    assert((k + 1) * (u64::MAX as int) <= (u64::MAX as int + 1) * (u64::MAX as int))
        by (nonlinear_arith)
        requires
            0 <= k <= u64::MAX,
    ;
}

/// Sum of the weights.
pub fn sum_weights(w: &Vec<u64>) -> (t: u128)
    ensures
        t == total(w@),
{
    let mut t: u128 = 0;
    let mut k: usize = 0;
    while k < w.len()
        invariant
            0 <= k <= w.len(),
            t == total(w@.take(k as int)),
        decreases w.len() - k,
    {
        proof {
            assert(w@.take(k + 1).drop_last() =~= w@.take(k as int));
            lemma_total_bounded(w@.take(k + 1));
            lemma_u128_room(k as int);
        }
        t = t + w[k] as u128;
        k = k + 1;
    }
    assert(w@.take(k as int) =~= w@);
    t
}

/// The indices of `scores`, best score first; equal scores keep their order.
pub fn rank(scores: &Vec<Fitness>) -> (order: Vec<usize>)
    requires
        all_valid(scores@),
    ensures
        ranks(scores@, order@),
{
    let ghost s = scores@;
    let mut order: Vec<usize> = Vec::new();
    let mut i: usize = 0;
    while i < scores.len()
        invariant
            s == scores@,
            all_valid(s),
            0 <= i <= s.len(),
            order.len() == i,
            forall|k: int| 0 <= k < order.len() ==> (#[trigger] order@[k]) < i,
            forall|j: int| 0 <= j < i ==> #[trigger] listed(order@, j),
            forall|a: int, b: int|
                0 <= a < b < order.len() ==> #[trigger] precedes(
                    s,
                    order@[a] as int,
                    order@[b] as int,
                ),
        decreases s.len() - i,
    {
        let mut p: usize = 0;
        while p < order.len() && !scores[i].exceeds(&scores[order[p]])
            invariant
                s == scores@,
                0 <= i < s.len(),
                order.len() == i,
                forall|k: int| 0 <= k < order.len() ==> (#[trigger] order@[k]) < i,
                0 <= p <= order.len(),
                forall|q: int| 0 <= q < p ==> !s[i as int].beats(s[order@[q] as int]),
            decreases order.len() - p,
        {
            p = p + 1;
        }
        let ghost o = order@;
        order.insert(p, i);
        proof {
            let n = order@;
            assert(n == o.insert(p as int, i));
            assert forall|k: int| 0 <= k < n.len() implies (#[trigger] n[k]) < i + 1 by {
                if k > p {
                    assert(n[k] == o[k - 1]);
                }
            }
            assert forall|j: int| 0 <= j < i + 1 implies #[trigger] listed(n, j) by {
                if j == i {
                    assert(n[p as int] == j);
                } else {
                    assert(listed(o, j));
                    let k = choose|k: int| 0 <= k < o.len() && o[k] == j;
                    if k < p {
                        assert(n[k] == j);
                    } else {
                        assert(n[k + 1] == j);
                    }
                }
            }
            assert forall|a: int, b: int| 0 <= a < b < n.len() implies #[trigger] precedes(
                s,
                n[a] as int,
                n[b] as int,
            ) by {
                if b < p {
                    assert(precedes(s, o[a] as int, o[b] as int));
                } else if b == p {
                    assert(!s[i as int].beats(s[o[a] as int]));
                } else if a > p {
                    assert(precedes(s, o[a - 1] as int, o[b - 1] as int));
                } else if a < p {
                    assert(precedes(s, o[a] as int, o[b - 1] as int));
                } else {
                    let top = s[o[p as int] as int];
                    let other = s[o[b - 1] as int];
                    assert(s[i as int].beats(top));
                    if b - 1 > p {
                        assert(precedes(s, o[p as int] as int, o[b - 1] as int));
                        assert(!other.beats(top));
                        lemma_beats_transitive(s[i as int], top, other);
                    }
                }
            }
        }
        i = i + 1;
    }
    order
}

/// The position where a spin of the wheel with value `draw` stops.
pub fn roulette(weights: &Vec<u64>, draw: u128) -> (k: usize)
    requires
        draw < total(weights@),
    ensures
        picks(weights@, draw as int, k as int),
{
    let ghost w = weights@;
    let mut cumulative: u128 = 0;
    let mut k: usize = 0;
    while k < weights.len()
        invariant
            w == weights@,
            0 <= k <= w.len(),
            cumulative == total(w.take(k as int)),
            forall|j: int| 0 <= j < k ==> #[trigger] total(w.take(j + 1)) < draw,
        decreases w.len() - k,
    {
        proof {
            assert(w.take(k + 1).drop_last() =~= w.take(k as int));
            lemma_total_bounded(w.take(k + 1));
            lemma_u128_room(k as int);
        }
        cumulative = cumulative + weights[k] as u128;
        if cumulative >= draw {
            return k;
        }
        k = k + 1;
    }
    proof {
        assert(w.take(k as int) =~= w);
        if k > 0 {
            assert(total(w.take((k - 1) + 1)) < draw);
        }
    }
    0
}

/// The selection weights of `scores` in the order of the ranking `order`.
pub fn ranked_weights(scores: &Vec<Fitness>, order: &Vec<usize>) -> (w: Vec<u64>)
    requires
        ranks(scores@, order@),
    ensures
        w@ == weights_in(scores@, order@),
{
    let n = order.len();
    let mut w: Vec<u64> = Vec::new();
    let mut k: usize = 0;
    while k < n
        invariant
            n == order.len(),
            ranks(scores@, order@),
            0 <= k <= n,
            w@ == weights_in(scores@, order@).take(k as int),
        decreases n - k,
    {
        w.push(scores[order[k]].selection_weight());
        k = k + 1;
        assert(w@ =~= weights_in(scores@, order@).take(k as int));
    }
    assert(w@ =~= weights_in(scores@, order@));
    w
}

/// The parent that one spin of the wheel with value `draw` picks, given the
/// ranking `order` of `scores` and the weights in that order.
pub fn parent_for_draw(scores: &Vec<Fitness>, order: &Vec<usize>, weights: &Vec<u64>, draw: u128) -> (parent: usize)
    requires
        ranks(scores@, order@),
        weights@ == weights_in(scores@, order@),
        draw < total(weights@),
    ensures
        exists|k: int| #[trigger] spin(scores@, order@, draw as int, k, parent),
        exists|k: int| picks(weights@, draw as int, k) && parent == #[trigger] order@[k],
{
    let k = roulette(weights, draw);
    assert(spin(scores@, order@, draw as int, k as int, order@[k as int]));
    order[k]
}

/// Why parents cannot be chosen.
#[derive(Clone, Copy, Debug, PartialEq, Eq, Structural)]
pub enum SelectionError {
    /// There is nobody to choose from.
    EmptySelectionPool,
}

/// Chooses `count` parents, by index into `scores`, each on its own spin of a
/// roulette wheel over the ranked scores whose slices are the selection
/// weights; when every score is zero each parent is drawn uniformly instead.
pub fn select_parents(scores: &Vec<Fitness>, count: usize, rng: &mut rand::rngs::StdRng) -> (r:
    Result<Vec<usize>, SelectionError>)
    requires
        all_valid(scores@),
    ensures
        r is Err <==> scores.len() == 0,
        r matches Ok(parents) ==> parents_drawn(scores@, count as int, parents@),
{
    let n = scores.len();
    if n == 0 {
        return Err(SelectionError::EmptySelectionPool);
    }
    let order = rank(scores);
    let weights = ranked_weights(scores, &order);
    let sum = sum_weights(&weights);
    proof {
        if !scoreless(scores@) {
            let j = choose|j: int| 0 <= j < n && scores@[j].num() != 0;
            lemma_valid_weight(scores@[j]);
            assert(listed(order@, j));
            let k = choose|k: int| 0 <= k < order@.len() && order@[k] == j;
            lemma_total_covers(weights@, k);
        }
    }
    let mut parents: Vec<usize> = Vec::new();
    while parents.len() < count
        invariant
            n == scores.len(),
            n > 0,
            all_valid(scores@),
            ranks(scores@, order@),
            weights@ == weights_in(scores@, order@),
            sum == total(weights@),
            !scoreless(scores@) ==> sum > 0,
            parents.len() <= count,
            forall|i: int| 0 <= i < parents.len() ==> (#[trigger] parents@[i]) < n,
            !scoreless(scores@) ==> forall|i: int|
                0 <= i < parents.len() ==> spun(scores@, #[trigger] parents@[i])
                    && scores@[parents@[i] as int].num() > 0,
        decreases count - parents.len(),
    {
        if sum > 0 {
            let draw = random_below(rng, sum);
            let parent = parent_for_draw(scores, &order, &weights, draw);
            proof {
                let k = choose|k: int| #[trigger] spin(scores@, order@, draw as int, k, parent);
                lemma_spin_scores(scores@, order@, draw as int, k, parent);
            }
            parents.push(parent);
        } else {
            let parent = random_below(rng, n as u128) as usize;
            parents.push(parent);
        }
    }
    Ok(parents)
}

/// The best score met so far, if any was above zero.
pub struct Champion {
    pub best: Option<Fitness>,
}

impl Champion {
    pub fn new() -> (r: Champion)
        ensures
            r.best is None,
    {
        Champion { best: None }
    }

    /// Records `candidate` when it beats the best so far (or, before any, is
    /// above zero), and says whether it did.
    pub fn consider(&mut self, candidate: Fitness) -> (taken: bool)
        ensures
            taken == match old(self).best {
                None => candidate.num() > 0,
                Some(b) => candidate.beats(b),
            },
            final(self).best == if taken {
                Some(candidate)
            } else {
                old(self).best
            },
    {
        let taken = match &self.best {
            None => candidate.exceeds(&Fitness::Survived { steps: 0 }),
            Some(b) => candidate.exceeds(b),
        };
        if taken {
            self.best = Some(candidate);
        }
        taken
    }
}

} // verus!
