//! The snake itself: an ordered body of cells (front cell is the head),
//! a current heading, and the most recently dropped tail cell, kept so
//! that an eat event can restore it and grow the snake by one.

use vstd::prelude::*;

use crate::block::Block;

verus! {

/// A heading on the grid.
#[derive(Copy, Clone, PartialEq, Eq, Structural, Debug)]
pub enum Direction {
    Up,
    Down,
    Left,
    Right,
}

impl Direction {
    /// The heading that points the opposite way.
    pub open spec fn opposite_spec(self) -> Direction {
        match self {
            Direction::Up => Direction::Down,
            Direction::Down => Direction::Up,
            Direction::Left => Direction::Right,
            Direction::Right => Direction::Left,
        }
    }

    pub fn opposite(&self) -> (r: Direction)
        ensures
            r == self.opposite_spec(),
    {
        match *self {
            Direction::Up => Direction::Down,
            Direction::Down => Direction::Up,
            Direction::Left => Direction::Right,
            Direction::Right => Direction::Left,
        }
    }
}

/// The cell one step away from `(x, y)` in direction `d`, on unbounded
/// integer coordinates, so that a step off the left or top edge is a
/// visible negative coordinate rather than a wrapped unsigned value.
pub open spec fn step(x: int, y: int, d: Direction) -> (int, int) {
    match d {
        Direction::Up => (x, y - 1),
        Direction::Down => (x, y + 1),
        Direction::Left => (x - 1, y),
        Direction::Right => (x + 1, y),
    }
}

/// True when `(x, y)` matches a body cell other than the tail (the last
/// cell). The tail is excluded because it is vacated on the same tick
/// the head advances, so moving onto it is not a self-collision.
pub open spec fn hits_body_except_tail(body: Seq<Block>, x: int, y: int) -> bool {
    exists|i: int|
        0 <= i < body.len() - 1 && (#[trigger] body[i]).x as int == x && body[i].y as int == y
}

/// True when `(x, y)` matches any body cell, the tail included. This is
/// the rule for placing food, which must never lie under the snake; for
/// movement collisions see `hits_body_except_tail`.
pub open spec fn hits_body(body: Seq<Block>, x: int, y: int) -> bool {
    exists|i: int|
        0 <= i < body.len() && (#[trigger] body[i]).x as int == x && body[i].y as int == y
}

/// The three cells every snake starts from: a horizontal line with the
/// head at the right end.
pub open spec fn initial_body() -> Seq<Block> {
    seq![Block { x: 3, y: 3 }, Block { x: 2, y: 3 }, Block { x: 1, y: 3 }]
}

pub struct Snake {
    pub direction: Direction,
    pub body: Vec<Block>,
    pub tail: Option<Block>,
}

impl Snake {
    /// The body is never empty.
    pub open spec fn wf(self) -> bool {
        self.body@.len() >= 1
    }

    /// The front cell of the body.
    pub open spec fn head(self) -> Block {
        self.body@[0]
    }

    /// The direction a move would take: the override if one is given,
    /// the current heading otherwise.
    pub open spec fn effective_direction(self, direction: Option<Direction>) -> Direction {
        match direction {
            Some(d) => d,
            None => self.direction,
        }
    }

    /// Whether stepping the head in the effective direction stays within
    /// `u32` coordinates, so the stepped cell is representable.
    pub open spec fn step_in_range(self, direction: Option<Direction>) -> bool {
        let (nx, ny) = step(
            self.head().x as int,
            self.head().y as int,
            self.effective_direction(direction),
        );
        0 <= nx <= u32::MAX && 0 <= ny <= u32::MAX
    }

    /// The cell the head would move to.
    pub open spec fn next_head_spec(self, direction: Option<Direction>) -> Block {
        let (nx, ny) = step(
            self.head().x as int,
            self.head().y as int,
            self.effective_direction(direction),
        );
        Block { x: nx as u32, y: ny as u32 }
    }

    pub fn new() -> (s: Snake)
        ensures
            s.wf(),
            s.body@ == initial_body(),
            s.direction == Direction::Right,
            s.tail is None,
    {
        let mut body: Vec<Block> = Vec::new();
        body.push(Block { x: 3, y: 3 });
        body.push(Block { x: 2, y: 3 });
        body.push(Block { x: 1, y: 3 });
        proof {
            assert(body@ =~= initial_body());
        }
        Snake { direction: Direction::Right, body, tail: None }
    }

    pub fn direction(&self) -> (d: Direction)
        ensures
            d == self.direction,
    {
        self.direction
    }

    /// The head cell's coordinates.
    pub fn position(&self) -> (p: (u32, u32))
        requires
            self.wf(),
        ensures
            p.0 == self.head().x,
            p.1 == self.head().y,
    {
        let head_block = &self.body[0];
        (head_block.x, head_block.y)
    }

    /// Where the head would move, given either the override or the
    /// current heading. Steps that would leave `u32` coordinates are
    /// ruled out by the precondition; the caller treats them as border
    /// collisions before ever computing the cell.
    pub fn next_head(&self, direction: Option<Direction>) -> (r: (u32, u32))
        requires
            self.wf(),
            self.step_in_range(direction),
        ensures
            (Block { x: r.0, y: r.1 }) == self.next_head_spec(direction),
    {
        let (current_x, current_y) = self.position();

        let moving_direction = match direction {
            Some(d) => d,
            None => self.direction,
        };

        match moving_direction {
            Direction::Up => (current_x, current_y - 1),
            Direction::Down => (current_x, current_y + 1),
            Direction::Left => (current_x - 1, current_y),
            Direction::Right => (current_x + 1, current_y),
        }
    }

    /// Constant-length translation: adopt the override (if any) as the
    /// new heading, push the stepped cell as the new head, pop the tail
    /// cell and remember it for a possible eat event.
    pub fn move_forward(&mut self, direction: Option<Direction>)
        requires
            old(self).wf(),
            old(self).step_in_range(direction),
        ensures
            final(self).wf(),
            final(self).direction == old(self).effective_direction(direction),
            final(self).body@ == seq![old(self).next_head_spec(direction)]
                + old(self).body@.drop_last(),
            final(self).body@.len() == old(self).body@.len(),
            final(self).tail == Some(old(self).body@.last()),
    {
        if direction.is_some() {
            self.direction = direction.unwrap();
        }

        let (next_x, next_y) = self.next_head(Some(self.direction));
        let new_block = Block { x: next_x, y: next_y };
        self.body.insert(0, new_block);
        let removed_block = self.body.pop().unwrap();
        self.tail = Some(removed_block);
        proof {
            assert(self.body@ =~= seq![old(self).next_head_spec(direction)]
                + old(self).body@.drop_last());
        }
    }

    /// Growth by one: re-append the most recently popped tail cell.
    pub fn restore_tail(&mut self)
        requires
            old(self).tail is Some,
        ensures
            final(self).body@ == old(self).body@.push(old(self).tail->Some_0),
            final(self).direction == old(self).direction,
            final(self).tail == old(self).tail,
    {
        let tail_block = self.tail.unwrap();
        self.body.push(tail_block);
    }

    /// Whether `(x, y)` collides with the body, excluding the tail cell,
    /// which is about to be vacated.
    pub fn overlaps_tail(&self, x: u32, y: u32) -> (r: bool)
        ensures
            r == hits_body_except_tail(self.body@, x as int, y as int),
    {
        if self.body.len() == 0 {
            return false;
        }
        let last: usize = self.body.len() - 1;
        let mut i: usize = 0;
        while i < last
            invariant
                i <= last,
                last == self.body@.len() - 1,
                self.body@.len() >= 1,
                forall|j: int|
                    0 <= j < i ==> !((#[trigger] self.body@[j]).x == x && self.body@[j].y == y),
            decreases last - i,
        {
            let b = self.body[i];
            if b.x == x && b.y == y {
                return true;
            }
            i = i + 1;
        }
        false
    }

    /// Whether `(x, y)` lies on any body cell, the tail included.
    pub fn overlaps_body(&self, x: u32, y: u32) -> (r: bool)
        ensures
            r == hits_body(self.body@, x as int, y as int),
    {
        let mut i: usize = 0;
        while i < self.body.len()
            invariant
                i <= self.body@.len(),
                forall|j: int|
                    0 <= j < i ==> !((#[trigger] self.body@[j]).x == x && self.body@[j].y == y),
            decreases self.body@.len() - i,
        {
            let b = self.body[i];
            if b.x == x && b.y == y {
                return true;
            }
            i = i + 1;
        }
        false
    }
}

/// Moving onto the cell the tail is about to vacate is not a
/// self-collision: for a snake whose body cells are pairwise distinct,
/// the tail-exclusive overlap check never fires on the tail's own cell.
pub proof fn lemma_tail_cell_is_not_a_collision(s: Snake)
    requires
        s.wf(),
        forall|i: int, j: int|
            #![trigger s.body@[i], s.body@[j]]
            0 <= i < j < s.body@.len() ==> s.body@[i] != s.body@[j],
    ensures
        !hits_body_except_tail(s.body@, s.body@.last().x as int, s.body@.last().y as int),
{
    assert forall|i: int| 0 <= i < s.body@.len() - 1 implies !((#[trigger] s.body@[i]).x as int
        == s.body@.last().x as int && s.body@[i].y as int == s.body@.last().y as int) by {
        if s.body@[i].x == s.body@.last().x && s.body@[i].y == s.body@.last().y {
            assert(s.body@[i] == s.body@[s.body@.len() - 1]);
        }
    }
}

} // verus!
