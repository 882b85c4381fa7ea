use vstd::prelude::*;

use crate::grid::{Dir, Pos};

verus! {

/// The body after one move: the head steps along the heading and every other
/// segment takes the place that the one before it held.
pub open spec fn shifted(body: Seq<Pos>, d: Dir) -> Seq<Pos>
    recommends
        body.len() > 0,
{
    seq![body[0].step(d)] + body.take(body.len() - 1)
}

/// The body with its tail segment doubled.
pub open spec fn grown(body: Seq<Pos>) -> Seq<Pos> {
    body.push(body.last())
}

/// A body whose head is on the grid or next to it, and whose other segments
/// are on the grid.
pub open spec fn body_placed(body: Seq<Pos>) -> bool {
    &&& body.len() >= 1
    &&& body[0].near()
    &&& forall|i: int| 1 <= i < body.len() ==> (#[trigger] body[i]).inside()
}

/// The agent: its cells, head first, and its heading.
pub struct Snake {
    pub body: Vec<Pos>,
    pub direction: Dir,
}

impl Snake {
    /// A snake of one segment at the given cell, heading right.
    pub fn new(x: i32, y: i32) -> (r: Snake)
        ensures
            r.body@ == seq![Pos { x, y }],
            r.direction == Dir::Right,
    {
        Snake { body: vec![Pos::new(x, y)], direction: Dir::Right }
    }

    pub fn head(&self) -> (r: Pos)
        requires
            self.body.len() > 0,
        ensures
            r == self.body@[0],
    {
        self.body[0]
    }

    pub fn len(&self) -> (r: usize)
        ensures
            r == self.body.len(),
    {
        self.body.len()
    }

    /// A turn is allowed only onto the other axis.
    pub fn can_turn(&self, new_direction: Dir) -> (r: bool)
        ensures
            r == (self.direction.is_horizontal() != new_direction.is_horizontal()),
    {
        self.direction.horizontal() != new_direction.horizontal()
    }

    /// Adds a segment on top of the tail.
    pub fn grow(&mut self)
        requires
            old(self).body.len() > 0,
        ensures
            final(self).body@ == grown(old(self).body@),
            final(self).direction == old(self).direction,
    {
        let last = self.body[self.body.len() - 1];
        self.body.push(last);
    }

    /// Moves the snake one cell along its heading.
    pub fn update(&mut self)
        requires
            old(self).body.len() > 0,
            old(self).body@[0].near(),
        ensures
            final(self).body@ == shifted(old(self).body@, old(self).direction),
            final(self).direction == old(self).direction,
    {
        let ghost pre = self.body@;
        let mut i: usize = self.body.len() - 1;
        while i > 0
            invariant
                self.body.len() == pre.len(),
                self.direction == old(self).direction,
                pre == old(self).body@,
                0 <= i < pre.len(),
                forall|j: int| 0 <= j <= i ==> self.body@[j] == pre[j],
                forall|j: int| i < j < pre.len() ==> self.body@[j] == pre[j - 1],
            decreases i,
        {
            let prev = self.body[i - 1];
            self.body[i] = prev;
            i = i - 1;
        }
        let head = self.body[0].moved(self.direction);
        self.body[0] = head;
        assert(self.body@ =~= shifted(pre, self.direction));
    }

    /// Grows when the head is on the food; says whether it was.
    pub fn eat(&mut self, food: Pos) -> (r: bool)
        requires
            old(self).body.len() > 0,
        ensures
            r == (old(self).body@[0] == food),
            final(self).body@ == if r { grown(old(self).body@) } else { old(self).body@ },
            final(self).direction == old(self).direction,
    {
        if self.head() == food {
            self.grow();
            return true;
        }
        false
    }
}

} // verus!
