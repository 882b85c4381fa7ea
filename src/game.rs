use vstd::prelude::*;

use crate::fitness::Fitness;
use crate::grid::{Dir, Pos, COLS, ROWS};
use crate::senses::{cast, ray_of, senses, senses_of, Ray, Senses};
use crate::snake::{body_placed, grown, shifted, Snake};

verus! {

/// Whether a simulation still advances.
#[derive(Clone, Copy, Debug, PartialEq, Eq, Structural)]
pub enum GameState {
    Running,
    Over,
}

/// The simulated world of one individual.
pub struct Game {
    pub state: GameState,
    pub food: Pos,
    pub steps: u64,
    pub snake: Snake,
}

/// The head shares its cell with a segment other than the first two.
pub open spec fn collides(body: Seq<Pos>) -> bool {
    exists|i: int| 2 <= i < body.len() && #[trigger] body[i] == body[0]
}

/// The heading after a decision: only a turn onto the other axis is taken.
pub open spec fn turned(current: Dir, decision: Option<Dir>) -> Dir {
    match decision {
        Some(d) => if d.is_horizontal() != current.is_horizontal() {
            d
        } else {
            current
        },
        None => current,
    }
}

/// Whether the head lands on the food in the next move.
pub open spec fn eats_next(g: Game) -> bool {
    shifted(g.snake.body@, g.snake.direction)[0] == g.food
}

/// One tick of a running game, but for where new food goes: the body moves,
/// the heading turns as decided, food on the head grows the body, and the game
/// is over when the moved head meets the body or leaves the grid.
pub open spec fn advanced(pre: Game, post: Game, decision: Option<Dir>) -> bool {
    let moved = shifted(pre.snake.body@, pre.snake.direction);
    &&& post.steps == pre.steps + 1
    &&& post.snake.direction == turned(pre.snake.direction, decision)
    &&& post.snake.body@ == if eats_next(pre) {
        grown(moved)
    } else {
        moved
    }
    &&& post.state == if collides(moved) || !moved[0].inside() {
        GameState::Over
    } else {
        GameState::Running
    }
}

/// The score of a game: a hundredth of a point per step for a snake that never
/// grew, else a hundred points per segment divided by the steps taken.
pub open spec fn fitness_of(g: Game) -> Fitness {
    if g.snake.body.len() > 1 {
        Fitness::Grew { len: g.snake.body.len() as u64, steps: g.steps }
    } else {
        Fitness::Survived { steps: g.steps }
    }
}

fn collides_now(body: &Vec<Pos>) -> (r: bool)
    requires
        body.len() >= 1,
    ensures
        r == collides(body@),
{
    let head = body[0];
    let mut i: usize = 2;
    while i < body.len()
        invariant
            2 <= i,
            head == body@[0],
            forall|j: int| 2 <= j < i && j < body.len() ==> #[trigger] body@[j] != body@[0],
        decreases body.len() - i,
    {
        if body[i] == head {
            return true;
        }
        i = i + 1;
    }
    false
}

fn all_inside(cells: &Vec<Pos>) -> (r: bool)
    ensures
        r == forall|i: int| 0 <= i < cells.len() ==> (#[trigger] cells@[i]).inside(),
{
    let mut i: usize = 0;
    while i < cells.len()
        invariant
            0 <= i <= cells.len(),
            forall|j: int| 0 <= j < i ==> (#[trigger] cells@[j]).inside(),
        decreases cells.len() - i,
    {
        if !cells[i].is_inside() {
            return false;
        }
        i = i + 1;
    }
    true
}

impl Game {
    /// The body sits on the grid (the head may be one step off it once the
    /// game is over) and so does the food.
    pub open spec fn wf(&self) -> bool {
        &&& body_placed(self.snake.body@)
        &&& self.state == GameState::Running ==> self.snake.body@[0].inside()
        &&& self.food.inside()
    }

    /// A running game with a one-cell snake in the middle of the grid, heading
    /// right, and food on a random cell.
    pub fn new(rng: &mut rand::rngs::StdRng) -> (r: Game)
        ensures
            r.wf(),
            r.state == GameState::Running,
            r.steps == 0,
            r.snake.body@ == seq![Pos { x: (COLS / 2) as i32, y: (ROWS / 2) as i32 }],
            r.snake.direction == Dir::Right,
    {
        let food = Pos::random(rng);
        Game { state: GameState::Running, food, steps: 0, snake: Snake::new(COLS / 2, ROWS / 2) }
    }

    /// A running game at step 0 with the given body, heading and food, when
    /// all of those cells are on the grid.
    pub fn with_snake(body: Vec<Pos>, direction: Dir, food: Pos) -> (r: Option<Game>)
        ensures
            r.is_some() == (body.len() >= 1 && food.inside() && forall|i: int|
                0 <= i < body.len() ==> (#[trigger] body@[i]).inside()),
            r matches Some(g) ==> {
                &&& g.wf()
                &&& g.state == GameState::Running
                &&& g.steps == 0
                &&& g.snake.body@ == body@
                &&& g.snake.direction == direction
                &&& g.food == food
            },
    {
        if body.len() == 0 || !food.is_inside() || !all_inside(&body) {
            return None;
        }
        Some(Game { state: GameState::Running, food, steps: 0, snake: Snake { body, direction } })
    }

    pub fn is_running(&self) -> (r: bool)
        ensures
            r == (self.state == GameState::Running),
    {
        self.state == GameState::Running
    }

    /// One tick of a running game but for new food; says whether food was eaten.
    fn tick(&mut self, decision: Option<Dir>) -> (ate: bool)
        requires
            old(self).wf(),
            old(self).state == GameState::Running,
            old(self).steps < u64::MAX,
        ensures
            advanced(*old(self), *final(self), decision),
            final(self).food == old(self).food,
            ate == eats_next(*old(self)),
            body_placed(final(self).snake.body@),
            final(self).state == GameState::Running ==> final(self).snake.body@[0].inside(),
    {
        let ghost pre = *self;
        self.steps = self.steps + 1;
        self.snake.update();
        if collides_now(&self.snake.body) {
            self.state = GameState::Over;
        }
        if let Some(d) = decision {
            if self.snake.can_turn(d) {
                self.snake.direction = d;
            }
        }
        let ate = self.snake.eat(self.food);
        if !self.snake.head().is_inside() {
            self.state = GameState::Over;
        }
        proof {
            let moved = shifted(pre.snake.body@, pre.snake.direction);
            assert(moved[0] == self.snake.body@[0]);
            assert forall|i: int| 1 <= i < self.snake.body@.len() implies (
            #[trigger] self.snake.body@[i]).inside() by {
                if i < moved.len() {
                    assert(moved[i] == pre.snake.body@[i - 1]);
                } else {
                    assert(self.snake.body@[i] == moved.last());
                }
            }
        }
        ate
    }

    /// Advances a running game by one tick; a game that is over stays as it is.
    /// The decision, if any, is the heading wanted next. `fresh_food` is where
    /// the food goes when the head eats it.
    pub fn update_with_food(&mut self, decision: Option<Dir>, fresh_food: Pos)
        requires
            old(self).wf(),
            old(self).steps < u64::MAX,
            fresh_food.inside(),
        ensures
            final(self).wf(),
            old(self).state == GameState::Over ==> *final(self) == *old(self),
            old(self).state == GameState::Running ==> {
                &&& advanced(*old(self), *final(self), decision)
                &&& final(self).food == if eats_next(*old(self)) {
                    fresh_food
                } else {
                    old(self).food
                }
            },
            old(self).state == GameState::Running && old(self).snake.body.len() <= 2 ==> (
            final(self).state == GameState::Over <==> !final(self).snake.body@[0].inside()),
            old(self).state == GameState::Running && eats_next(*old(self)) ==> {
                let moved = shifted(old(self).snake.body@, old(self).snake.direction);
                let n = old(self).snake.body.len() as int;
                &&& final(self).snake.body.len() == n + 1
                &&& forall|i: int| 0 <= i < n ==> final(self).snake.body@[i] == #[trigger] moved[i]
                &&& final(self).snake.body@[n] == moved[n - 1]
            },
            final(self).food != old(self).food ==> old(self).state == GameState::Running
                && eats_next(*old(self)),
            decision matches Some(d) && d.is_horizontal()
                == old(self).snake.direction.is_horizontal() ==> final(self).snake.direction
                == old(self).snake.direction,
    {
        if self.state == GameState::Over {
            return;
        }
        let ghost pre = *self;
        let ate = self.tick(decision);
        proof {
            tick_properties(pre, *self, decision);
        }
        if ate {
            self.food = fresh_food;
        }
    }

    /// Advances a running game by one tick, placing new food on a random cell
    /// when the head eats it; a game that is over stays as it is.
    pub fn update(&mut self, decision: Option<Dir>, rng: &mut rand::rngs::StdRng)
        requires
            old(self).wf(),
            old(self).steps < u64::MAX,
        ensures
            final(self).wf(),
            final(self).food.inside(),
            old(self).state == GameState::Over ==> *final(self) == *old(self),
            old(self).state == GameState::Running ==> {
                &&& advanced(*old(self), *final(self), decision)
                &&& !eats_next(*old(self)) ==> final(self).food == old(self).food
            },
            old(self).state == GameState::Running && old(self).snake.body.len() <= 2 ==> (
            final(self).state == GameState::Over <==> !final(self).snake.body@[0].inside()),
            old(self).state == GameState::Running && eats_next(*old(self)) ==> {
                let moved = shifted(old(self).snake.body@, old(self).snake.direction);
                let n = old(self).snake.body.len() as int;
                &&& final(self).snake.body.len() == n + 1
                &&& forall|i: int| 0 <= i < n ==> final(self).snake.body@[i] == #[trigger] moved[i]
                &&& final(self).snake.body@[n] == moved[n - 1]
            },
            final(self).food != old(self).food ==> old(self).state == GameState::Running
                && eats_next(*old(self)),
            decision matches Some(d) && d.is_horizontal()
                == old(self).snake.direction.is_horizontal() ==> final(self).snake.direction
                == old(self).snake.direction,
    {
        if self.state == GameState::Over {
            return;
        }
        let ghost pre = *self;
        let ate = self.tick(decision);
        proof {
            tick_properties(pre, *self, decision);
        }
        if ate {
            self.food = Pos::random(rng);
        }
    }

    /// The score earned so far.
    pub fn evaluate(&self) -> (r: Fitness)
        ensures
            r == fitness_of(*self),
            r.valid(),
            self.snake.body.len() <= 1 ==> r.num() == self.steps && r.den() == 100,
            self.snake.body.len() > 1 ==> r.num() == 100 * self.snake.body.len() && r.den()
                == self.steps,
    {
        let len = self.snake.len();
        if len > 1 {
            Fitness::Grew { len: len as u64, steps: self.steps }
        } else {
            Fitness::Survived { steps: self.steps }
        }
    }

    /// Casts a ray from the head along `direction`.
    pub fn look_in_direction(&self, direction: Dir) -> (r: Ray)
        requires
            body_placed(self.snake.body@),
        ensures
            ray_of(self.snake.body@, direction, r),
    {
        cast(&self.snake.body, direction)
    }

    /// What the agent perceives now.
    pub fn sense(&self) -> (r: Senses)
        requires
            body_placed(self.snake.body@),
            self.food.inside(),
        ensures
            senses_of(self.snake.body@, self.snake.direction, self.food, r),
    {
        senses(&self.snake.body, self.snake.direction, self.food)
    }

    /// What the agent perceives in the next tick, once the body has moved and
    /// before it turns: the input from which that tick's decision is made.
    pub fn upcoming_senses(&self) -> (r: Senses)
        requires
            self.wf(),
            self.state == GameState::Running,
        ensures
            senses_of(
                shifted(self.snake.body@, self.snake.direction),
                self.snake.direction,
                self.food,
                r,
            ),
    {
        let body = &self.snake.body;
        let mut moved: Vec<Pos> = Vec::new();
        moved.push(body[0].moved(self.snake.direction));
        let mut i: usize = 0;
        while i + 1 < body.len()
            invariant
                body_placed(body@),
                body@[0].inside(),
                body@ == self.snake.body@,
                0 <= i < body.len(),
                moved@ == shifted(body@, self.snake.direction).take(i + 1),
            decreases body.len() - i,
        {
            moved.push(body[i]);
            i = i + 1;
        }
        assert(moved@ =~= shifted(body@, self.snake.direction));
        senses(&moved, self.snake.direction, self.food)
    }
}

proof fn tick_properties(pre: Game, post: Game, decision: Option<Dir>)
    requires
        pre.wf(),
        pre.state == GameState::Running,
        advanced(pre, post, decision),
    ensures
        pre.snake.body.len() <= 2 ==> (post.state == GameState::Over
            <==> !post.snake.body@[0].inside()),
        eats_next(pre) ==> post.snake.body.len() == pre.snake.body.len() + 1,
        decision matches Some(d) && d.is_horizontal() == pre.snake.direction.is_horizontal()
            ==> post.snake.direction == pre.snake.direction,
{
    if pre.snake.body.len() <= 2 {
        lemma_short_snake_only_hits_walls(pre, post, decision);
    }
    if eats_next(pre) {
        lemma_eating_grows_by_one(pre, post, decision);
    }
}

/// A body of one or two segments never meets itself, whatever the heading.
pub proof fn lemma_short_body_never_collides(body: Seq<Pos>, d: Dir)
    requires
        1 <= body.len() <= 2,
    ensures
        !collides(shifted(body, d)),
{
}

/// A running snake of one or two segments ends a tick over exactly when its
/// head leaves the grid, never by meeting its own body.
pub proof fn lemma_short_snake_only_hits_walls(pre: Game, post: Game, decision: Option<Dir>)
    requires
        pre.wf(),
        pre.state == GameState::Running,
        pre.snake.body.len() <= 2,
        advanced(pre, post, decision),
    ensures
        post.state == GameState::Over <==> !shifted(pre.snake.body@, pre.snake.direction)[0].inside(),
        post.snake.body@[0] == shifted(pre.snake.body@, pre.snake.direction)[0],
{
    lemma_short_body_never_collides(pre.snake.body@, pre.snake.direction);
}

/// Eating adds exactly one segment, and every segment of the moved body stays
/// where the move put it.
pub proof fn lemma_eating_grows_by_one(pre: Game, post: Game, decision: Option<Dir>)
    requires
        pre.wf(),
        advanced(pre, post, decision),
        eats_next(pre),
    ensures
        post.snake.body.len() == pre.snake.body.len() + 1,
        forall|i: int|
            0 <= i < pre.snake.body.len() ==> post.snake.body@[i] == #[trigger] shifted(
                pre.snake.body@,
                pre.snake.direction,
            )[i],
{
}

/// A decision to reverse along the current axis leaves the heading as it was.
pub proof fn lemma_reversal_keeps_heading(pre: Game, post: Game, d: Dir)
    requires
        advanced(pre, post, Some(d)),
        d.is_horizontal() == pre.snake.direction.is_horizontal(),
    ensures
        post.snake.direction == pre.snake.direction,
{
}

} // verus!
