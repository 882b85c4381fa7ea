use vstd::prelude::*;

use crate::grid::{on_grid, Dir, Pos, COLS, ROWS};
use crate::snake::body_placed;

verus! {

/// The point `k` steps from `head` along `d`.
pub open spec fn ray_point(head: Pos, d: Dir, k: int) -> (int, int) {
    (head.x + k * d.dx(), head.y + k * d.dy())
}

/// Some segment of the body sits on the point.
pub open spec fn occupied(body: Seq<Pos>, x: int, y: int) -> bool {
    exists|i: int| 0 <= i < body.len() && body[i].x == x && #[trigger] body[i].y == y
}

/// A ray from the head stops at the first point off the grid or on the body.
pub open spec fn blocked(body: Seq<Pos>, d: Dir, k: int) -> bool {
    let p = ray_point(body[0], d, k);
    !on_grid(p.0, p.1) || occupied(body, p.0, p.1)
}

/// Cells walked from the head until a ray along `d` stops, and what stopped it.
#[derive(Clone, Copy, Debug, PartialEq, Eq, Structural)]
pub struct Ray {
    pub distance: u32,
    pub body_hit: bool,
}

/// `r` is the ray cast from the head of `body` along `d`.
pub open spec fn ray_of(body: Seq<Pos>, d: Dir, r: Ray) -> bool {
    let end = ray_point(body[0], d, r.distance as int);
    &&& r.distance >= 1
    &&& blocked(body, d, r.distance as int)
    &&& forall|k: int| 1 <= k < r.distance ==> !#[trigger] blocked(body, d, k)
    &&& r.body_hit == on_grid(end.0, end.1)
}

/// What the agent perceives, in whole cells.
#[derive(Clone, Copy, Debug, PartialEq, Eq, Structural)]
pub struct Senses {
    pub head: Pos,
    pub heading_x: i32,
    pub heading_y: i32,
    pub food_dx: i32,
    pub food_dy: i32,
    pub up: Ray,
    pub down: Ray,
    pub left: Ray,
    pub right: Ray,
}

/// `s` is what the snake with this body and heading perceives of the food and
/// of its surroundings.
pub open spec fn senses_of(body: Seq<Pos>, d: Dir, food: Pos, s: Senses) -> bool {
    &&& s.head == body[0]
    &&& s.heading_x == d.dx()
    &&& s.heading_y == d.dy()
    &&& s.food_dx == food.x - body[0].x
    &&& s.food_dy == food.y - body[0].y
    &&& ray_of(body, Dir::Up, s.up)
    &&& ray_of(body, Dir::Down, s.down)
    &&& ray_of(body, Dir::Left, s.left)
    &&& ray_of(body, Dir::Right, s.right)
}

/// Cells left before a walk along `d` from `p` leaves the grid.
spec fn room(p: Pos, d: Dir) -> int {
    match d {
        Dir::Up => p.y + 1,
        Dir::Down => ROWS - p.y,
        Dir::Left => p.x + 1,
        Dir::Right => COLS - p.x,
    }
}

fn occupies(body: &Vec<Pos>, p: Pos) -> (r: bool)
    ensures
        r == occupied(body@, p.x as int, p.y as int),
{
    let mut i: usize = 0;
    while i < body.len()
        invariant
            0 <= i <= body.len(),
            forall|j: int| 0 <= j < i ==> !(body@[j].x == p.x && #[trigger] body@[j].y == p.y),
        decreases body.len() - i,
    {
        if body[i] == p {
            return true;
        }
        i = i + 1;
    }
    false
}

/// Casts a ray from the head of `body` along `d`.
pub(crate) fn cast(body: &Vec<Pos>, d: Dir) -> (r: Ray)
    requires
        body_placed(body@),
    ensures
        ray_of(body@, d, r),
{
    let head = body[0];
    let mut pos = head;
    let mut distance: u32 = 0;
    loop
        invariant
            body_placed(body@),
            head == body@[0],
            pos.x == ray_point(head, d, distance as int).0,
            pos.y == ray_point(head, d, distance as int).1,
            distance == 0 || pos.inside(),
            pos.near(),
            distance + room(pos, d) == room(head, d),
            0 <= room(pos, d) <= COLS + 1,
            forall|k: int| 1 <= k <= distance ==> !#[trigger] blocked(body@, d, k),
        decreases room(pos, d),
    {
        pos = pos.moved(d);
        distance = distance + 1;
        proof {
            let k = distance as int;
            assert(k * d.dx() == (k - 1) * d.dx() + d.dx()) by (nonlinear_arith);
            assert(k * d.dy() == (k - 1) * d.dy() + d.dy()) by (nonlinear_arith);
        }
        if !pos.is_inside() {
            return Ray { distance, body_hit: false };
        }
        if occupies(body, pos) {
            return Ray { distance, body_hit: true };
        }
    }
}

/// What the snake with this body and heading perceives.
pub(crate) fn senses(body: &Vec<Pos>, d: Dir, food: Pos) -> (r: Senses)
    requires
        body_placed(body@),
        food.inside(),
    ensures
        senses_of(body@, d, food, r),
{
    let head = body[0];
    Senses {
        head,
        heading_x: d.hval(),
        heading_y: d.vval(),
        food_dx: food.x - head.x,
        food_dy: food.y - head.y,
        up: cast(body, Dir::Up),
        down: cast(body, Dir::Down),
        left: cast(body, Dir::Left),
        right: cast(body, Dir::Right),
    }
}

} // verus!
