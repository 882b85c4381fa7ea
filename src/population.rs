use vstd::prelude::*;

use crate::fitness::Fitness;
use crate::game::{advanced, fitness_of, Game, GameState};
use crate::grid::{Dir, Pos, COLS, ROWS};
use crate::selection::all_valid;

verus! {

/// A game as `Game::new` leaves it: running, at step 0, with a one-cell snake
/// in the middle of the grid heading right.
pub open spec fn fresh(g: Game) -> bool {
    &&& g.wf()
    &&& g.state == GameState::Running
    &&& g.steps == 0
    &&& g.snake.body@ == seq![Pos { x: (COLS / 2) as i32, y: (ROWS / 2) as i32 }]
    &&& g.snake.direction == Dir::Right
}

/// The games of one generation, advanced together in rounds.
pub struct Population {
    pub games: Vec<Game>,
    pub rounds: usize,
}

impl Population {
    /// Every game is well formed, has ticked at most once per round, and has
    /// ticked at least once if a round was played or if it is over.
    pub open spec fn wf(&self) -> bool {
        forall|i: int|
            0 <= i < self.games.len() ==> {
                let g = #[trigger] self.games@[i];
                &&& g.wf()
                &&& g.steps <= self.rounds
                &&& (self.rounds > 0 || g.state == GameState::Over) ==> g.steps >= 1
            }
    }

    pub open spec fn some_running(&self) -> bool {
        exists|i: int|
            0 <= i < self.games.len() && (#[trigger] self.games@[i]).state == GameState::Running
    }

    /// `size` fresh games, none advanced yet.
    pub fn new(size: usize, rng: &mut rand::rngs::StdRng) -> (r: Population)
        ensures
            r.wf(),
            r.games.len() == size,
            r.rounds == 0,
            forall|i: int| 0 <= i < size ==> fresh(#[trigger] r.games@[i]),
    {
        let mut games: Vec<Game> = Vec::new();
        while games.len() < size
            invariant
                games.len() <= size,
                forall|i: int| 0 <= i < games.len() ==> fresh(#[trigger] games@[i]),
            decreases size - games.len(),
        {
            games.push(Game::new(rng));
        }
        Population { games, rounds: 0 }
    }

    /// Whether any game is still running.
    pub fn any_running(&self) -> (r: bool)
        ensures
            r == self.some_running(),
    {
        let mut i: usize = 0;
        while i < self.games.len()
            invariant
                0 <= i <= self.games.len(),
                forall|j: int| 0 <= j < i ==> (#[trigger] self.games@[j]).state != GameState::Running,
            decreases self.games.len() - i,
        {
            if self.games[i].is_running() {
                return true;
            }
            i = i + 1;
        }
        false
    }

    /// Whether another round is played: fewer than `max_steps` rounds are
    /// done and some game still runs.
    pub fn round_due(&self, max_steps: usize) -> (r: bool)
        ensures
            r == (self.rounds < max_steps && self.some_running()),
    {
        self.rounds < max_steps && self.any_running()
    }

    /// Plays one round: each running game ticks once with its own decision,
    /// and the games that are over stay as they are.
    pub fn advance_round(&mut self, decisions: &Vec<Option<Dir>>, rng: &mut rand::rngs::StdRng)
        requires
            old(self).wf(),
            old(self).rounds < usize::MAX,
            decisions.len() == old(self).games.len(),
        ensures
            final(self).wf(),
            final(self).rounds == old(self).rounds + 1,
            final(self).games.len() == old(self).games.len(),
            forall|i: int|
                0 <= i < old(self).games.len() ==> {
                    let pre = #[trigger] old(self).games@[i];
                    let post = final(self).games@[i];
                    &&& pre.state == GameState::Over ==> post == pre
                    &&& pre.state == GameState::Running ==> advanced(pre, post, decisions@[i])
                },
    {
        let ghost pre = self.games@;
        let n = self.games.len();
        let mut i: usize = 0;
        while i < n
            invariant
                n == pre.len(),
                decisions.len() == n,
                0 <= i <= n,
                self.games.len() == n,
                self.rounds == old(self).rounds,
                self.rounds < usize::MAX,
                forall|j: int|
                    0 <= j < n ==> (#[trigger] pre[j]).wf() && pre[j].steps <= self.rounds && (
                    pre[j].state == GameState::Over ==> pre[j].steps >= 1),
                forall|j: int| i <= j < n ==> #[trigger] self.games@[j] == pre[j],
                forall|j: int|
                    0 <= j < i ==> {
                        let post = #[trigger] self.games@[j];
                        &&& post.wf()
                        &&& post.steps <= self.rounds + 1
                        &&& post.steps >= 1
                        &&& pre[j].state == GameState::Over ==> post == pre[j]
                        &&& pre[j].state == GameState::Running ==> advanced(
                            pre[j],
                            post,
                            decisions@[j],
                        )
                    },
            decreases n - i,
        {
            self.games[i].update(decisions[i], rng);
            i = i + 1;
        }
        self.rounds = self.rounds + 1;
    }

    /// The score of every game, in order.
    pub fn scores(&self) -> (r: Vec<Fitness>)
        requires
            self.wf(),
        ensures
            r.len() == self.games.len(),
            all_valid(r@),
            forall|i: int| 0 <= i < r.len() ==> #[trigger] r@[i] == fitness_of(self.games@[i]),
            self.rounds > 0 ==> forall|i: int| 0 <= i < r.len() ==> (#[trigger] r@[i]).num() > 0,
    {
        let mut r: Vec<Fitness> = Vec::new();
        let mut i: usize = 0;
        while i < self.games.len()
            invariant
                0 <= i <= self.games.len(),
                r.len() == i,
                forall|j: int| 0 <= j < i ==> #[trigger] r@[j] == fitness_of(self.games@[j]),
                forall|j: int| 0 <= j < i ==> (#[trigger] r@[j]).valid(),
                self.wf(),
                self.rounds > 0 ==> forall|j: int| 0 <= j < i ==> (#[trigger] r@[j]).num() > 0,
            decreases self.games.len() - i,
        {
            r.push(self.games[i].evaluate());
            i = i + 1;
        }
        r
    }
}

} // verus!
