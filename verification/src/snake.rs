//! A snake: its segments from head to tail, and where it is heading.
use vstd::prelude::*;
use crate::geometry::{DIRECTION, Field};
use crate::render::RenderOp;

verus! {

/// A snake. `body[0]` is the head, the last element the tail.
#[derive(Clone, Debug, PartialEq, Eq)]
pub struct Snake {
    pub body: Vec<Field>,
    pub direction: DIRECTION,
    pub color: i16,
}

impl Snake {
    /// During play a snake never has fewer than two segments.
    pub open spec fn wf(&self) -> bool {
        self.body@.len() >= 2
    }

    /// The head cell.
    pub open spec fn head(&self) -> Field
        recommends
            self.body@.len() > 0,
    {
        self.body@[0]
    }

    /// The column offset of the second segment of a fresh snake: one to the
    /// left when it faces right, one to the right for every other facing.
    pub open spec fn seed_offset(direction: DIRECTION) -> int {
        if direction == DIRECTION::Right {
            -1
        } else {
            1
        }
    }

    /// Whether the head occurs again further down the body.
    pub open spec fn bites_itself(&self) -> bool {
        exists|i: int| 1 <= i < self.body@.len() && #[trigger] self.body@[i] == self.body@[0]
    }

    /// The body after one move: the old body with the head's neighbour in the
    /// direction of travel put in front.
    pub open spec fn moved_body(&self) -> Seq<Field>
        recommends
            self.body@.len() > 0,
    {
        seq![self.head().stepped(self.direction)] + self.body@
    }

    /// A snake of two segments: the head at `(head_y, head_x)` and one
    /// segment beside it in the same row, at column `head_x +
    /// seed_offset(direction)`.
    pub fn new(head_y: i32, head_x: i32, direction: DIRECTION, color: i16) -> (snake: Snake)
        requires
            i32::MIN <= head_x + Self::seed_offset(direction) <= i32::MAX,
        ensures
            snake.body@ == seq![
                Field { y: head_y, x: head_x },
                Field { y: head_y, x: (head_x + Self::seed_offset(direction)) as i32 },
            ],
            snake.direction == direction,
            snake.color == color,
            snake.wf(),
    {
        let mut body: Vec<Field> = Vec::new();
        body.push(Field { y: head_y, x: head_x });
        if direction == DIRECTION::Right {
            body.push(Field { y: head_y, x: head_x - 1 });
        } else {
            body.push(Field { y: head_y, x: head_x + 1 });
        }
        assert(body@ =~= seq![
            Field { y: head_y, x: head_x },
            Field { y: head_y, x: (head_x + Self::seed_offset(direction)) as i32 },
        ]);
        Snake { body, direction, color }
    }

    /// Whether the head occurs again further down the body.
    pub fn hits_itself(&self) -> (hit: bool)
        requires
            self.body@.len() > 0,
        ensures
            hit == self.bites_itself(),
    {
        let head = self.body[0];
        let mut i: usize = 1;
        while i < self.body.len()
            invariant
                1 <= i <= self.body.len(),
                head == self.body@[0],
                forall|k: int| 1 <= k < i ==> self.body@[k] != head,
            decreases self.body.len() - i,
        {
            if self.body[i] == head {
                return true;
            }
            i += 1;
        }
        false
    }

    /// Takes `direction` unless it is the half turn of the current one.
    pub fn change_direction(&mut self, direction: &DIRECTION)
        ensures
            *final(self) == (Snake {
                direction: old(self).direction.turned(*direction),
                ..*old(self)
            }),
    {
        if self.direction.opposite() != *direction {
            self.direction = *direction;
        }
    }

    /// The head as `(row, column)`.
    pub fn get_head(&self) -> (head: (i32, i32))
        requires
            self.body@.len() > 0,
        ensures
            head == (self.head().y, self.head().x),
    {
        (self.body[0].y, self.body[0].x)
    }

    /// Whether the snake has a head and the cell in front of it is a cell of
    /// the grid, so that it can move.
    pub fn can_move(&self) -> (ok: bool)
        ensures
            ok == (self.body@.len() > 0 && self.head().can_step(self.direction)),
    {
        if self.body.len() == 0 {
            return false;
        }
        let head = self.body[0];
        match self.direction {
            DIRECTION::Down => head.y < i32::MAX,
            DIRECTION::Up => head.y > i32::MIN,
            DIRECTION::Left => head.x > i32::MIN,
            DIRECTION::Right => head.x < i32::MAX,
        }
    }

    /// Grows the snake by one segment at the front, one step from the old
    /// head in the direction of travel, and returns the drawing of that new
    /// head.
    pub fn move_snake(&mut self) -> (drawn: RenderOp)
        requires
            old(self).body@.len() > 0,
            old(self).head().can_step(old(self).direction),
        ensures
            final(self).body@ == old(self).moved_body(),
            final(self).direction == old(self).direction,
            final(self).color == old(self).color,
            final(self).wf(),
            drawn == RenderOp::Block(old(self).head().stepped(old(self).direction), old(self).color),
    {
        let head = self.body[0];
        let new_head = match self.direction {
            DIRECTION::Down => Field { y: head.y + 1, x: head.x },
            DIRECTION::Up => Field { y: head.y - 1, x: head.x },
            DIRECTION::Left => Field { y: head.y, x: head.x - 1 },
            DIRECTION::Right => Field { y: head.y, x: head.x + 1 },
        };
        self.body.insert(0, new_head);
        assert(self.body@ =~= old(self).moved_body());
        RenderOp::Block(new_head, self.color)
    }
}

/// One move puts the head exactly one unit step further in the direction of
/// travel, leaves every old segment in place behind it, and so lengthens the
/// body by one.
pub proof fn lemma_move_advances_head(s: Snake)
    requires
        s.body@.len() > 0,
        s.head().can_step(s.direction),
    ensures
        s.moved_body().len() == s.body@.len() + 1,
        s.moved_body()[0].y == s.head().y + s.direction.delta().0,
        s.moved_body()[0].x == s.head().x + s.direction.delta().1,
        s.moved_body().subrange(1, s.moved_body().len() as int) == s.body@,
{
    assert(s.moved_body().subrange(1, s.moved_body().len() as int) =~= s.body@);
}

} // verus!
