use vstd::prelude::*;

use crate::random::random_below;

verus! {

/// Number of grid columns.
pub const COLS: i32 = 20;

/// Number of grid rows.
pub const ROWS: i32 = 20;

/// A cell of the grid, or one just outside it.
#[derive(Clone, Copy, Debug, PartialEq, Eq, Structural)]
pub struct Pos {
    pub x: i32,
    pub y: i32,
}

/// One of the four headings, each a unit step along one axis.
#[derive(Clone, Copy, Debug, PartialEq, Eq, Structural)]
pub enum Dir {
    Up,
    Down,
    Left,
    Right,
}

/// Whether the integer point lies on the grid.
pub open spec fn on_grid(x: int, y: int) -> bool {
    0 <= x < COLS && 0 <= y < ROWS
}

/// Whether the integer point lies on the grid or on the ring of cells around it.
pub open spec fn near_grid(x: int, y: int) -> bool {
    -1 <= x <= COLS && -1 <= y <= ROWS
}

impl Dir {
    /// Horizontal component of the step.
    pub open spec fn dx(self) -> int {
        match self {
            Dir::Left => -1,
            Dir::Right => 1,
            _ => 0,
        }
    }

    /// Vertical component of the step (rows grow downwards).
    pub open spec fn dy(self) -> int {
        match self {
            Dir::Up => -1,
            Dir::Down => 1,
            _ => 0,
        }
    }

    pub open spec fn is_horizontal(self) -> bool {
        self == Dir::Left || self == Dir::Right
    }

    pub fn horizontal(&self) -> (r: bool)
        ensures
            r == self.is_horizontal(),
    {
        match self {
            Dir::Left | Dir::Right => true,
            _ => false,
        }
    }

    /// The heading that a network output index stands for: up, down, left, right.
    pub fn from_index(i: usize) -> (r: Option<Dir>)
        ensures
            r == match i {
                0 => Some(Dir::Up),
                1 => Some(Dir::Down),
                2 => Some(Dir::Left),
                3 => Some(Dir::Right),
                _ => None::<Dir>,
            },
    {
        match i {
            0 => Some(Dir::Up),
            1 => Some(Dir::Down),
            2 => Some(Dir::Left),
            3 => Some(Dir::Right),
            _ => None,
        }
    }

    /// Signed horizontal speed.
    pub fn hval(&self) -> (r: i32)
        ensures
            r == self.dx(),
    {
        match self {
            Dir::Left => -1,
            Dir::Right => 1,
            _ => 0,
        }
    }

    /// Signed vertical speed.
    pub fn vval(&self) -> (r: i32)
        ensures
            r == self.dy(),
    {
        match self {
            Dir::Up => -1,
            Dir::Down => 1,
            _ => 0,
        }
    }
}

impl Pos {
    pub fn new(x: i32, y: i32) -> (r: Pos)
        ensures
            r == (Pos { x, y }),
    {
        Pos { x, y }
    }

    pub open spec fn inside(self) -> bool {
        on_grid(self.x as int, self.y as int)
    }

    pub open spec fn near(self) -> bool {
        near_grid(self.x as int, self.y as int)
    }

    /// The cell one step away in the given heading.
    pub open spec fn step(self, d: Dir) -> Pos {
        Pos { x: (self.x + d.dx()) as i32, y: (self.y + d.dy()) as i32 }
    }

    pub fn is_inside(&self) -> (r: bool)
        ensures
            r == self.inside(),
    {
        0 <= self.x && self.x < COLS && 0 <= self.y && self.y < ROWS
    }

    /// The cell one step away in the given heading.
    pub fn moved(&self, d: Dir) -> (r: Pos)
        requires
            i32::MIN < self.x < i32::MAX,
            i32::MIN < self.y < i32::MAX,
        ensures
            r == self.step(d),
            r.x == self.x + d.dx(),
            r.y == self.y + d.dy(),
    {
        Pos { x: self.x + d.hval(), y: self.y + d.vval() }
    }

    /// A cell drawn uniformly from the grid.
    pub fn random(rng: &mut rand::rngs::StdRng) -> (r: Pos)
        ensures
            r.inside(),
    {
        let x = random_below(rng, COLS as u128);
        let y = random_below(rng, ROWS as u128);
        Pos { x: x as i32, y: y as i32 }
    }
}

} // verus!
