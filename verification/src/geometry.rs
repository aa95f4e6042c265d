//! Grid coordinates and the four directions of travel.
use vstd::prelude::*;

verus! {

/// A cell of the grid: row `y`, column `x`. Two cells are equal when both
/// coordinates are.
#[derive(Clone, Copy, Debug, PartialEq, Eq, Hash, Structural)]
pub struct Field {
    pub y: i32,
    pub x: i32,
}

/// A direction of travel.
#[derive(Clone, Copy, Debug, PartialEq, Eq, Hash, Structural)]
pub enum DIRECTION {
    Down,
    Up,
    Right,
    Left,
}

impl DIRECTION {
    /// The half turn of a direction: the one a snake heading this way may
    /// not turn into.
    pub open spec fn spec_opposite(self) -> DIRECTION {
        match self {
            DIRECTION::Down => DIRECTION::Up,
            DIRECTION::Up => DIRECTION::Down,
            DIRECTION::Right => DIRECTION::Left,
            DIRECTION::Left => DIRECTION::Right,
        }
    }

    /// The unit step `(rows, columns)` of a direction.
    pub open spec fn delta(self) -> (int, int) {
        match self {
            DIRECTION::Down => (1, 0),
            DIRECTION::Up => (-1, 0),
            DIRECTION::Left => (0, -1),
            DIRECTION::Right => (0, 1),
        }
    }

    /// The direction a snake keeps when it heads `self` and `requested` is
    /// asked of it: a half turn is ignored, anything else is taken.
    pub open spec fn turned(self, requested: DIRECTION) -> DIRECTION {
        if requested == self.spec_opposite() {
            self
        } else {
            requested
        }
    }

    #[verifier::when_used_as_spec(spec_opposite)]
    pub fn opposite(self) -> (r: DIRECTION)
        ensures
            r == self.spec_opposite(),
    {
        match self {
            DIRECTION::Down => DIRECTION::Up,
            DIRECTION::Up => DIRECTION::Down,
            DIRECTION::Right => DIRECTION::Left,
            DIRECTION::Left => DIRECTION::Right,
        }
    }
}

impl Field {
    /// The cell one step from `self` in direction `d`, as unbounded integers.
    pub open spec fn step(self, d: DIRECTION) -> (int, int) {
        (self.y + d.delta().0, self.x + d.delta().1)
    }

    /// Whether the step from `self` in direction `d` stays within `i32`.
    pub open spec fn can_step(self, d: DIRECTION) -> bool {
        &&& i32::MIN <= self.step(d).0 <= i32::MAX
        &&& i32::MIN <= self.step(d).1 <= i32::MAX
    }

    /// The neighbour of `self` in direction `d`.
    pub open spec fn stepped(self, d: DIRECTION) -> Field {
        Field { y: self.step(d).0 as i32, x: self.step(d).1 as i32 }
    }

    /// Whether `self` occurs in `cells`.
    pub fn is_in(&self, cells: &Vec<Field>) -> (found: bool)
        ensures
            found == cells@.contains(*self),
    {
        let mut i: usize = 0;
        while i < cells.len()
            invariant
                i <= cells.len(),
                forall|k: int| 0 <= k < i ==> cells@[k] != *self,
            decreases cells.len() - i,
        {
            if cells[i] == *self {
                return true;
            }
            i += 1;
        }
        false
    }
}

/// The half turn is an involution without fixed points.
pub proof fn lemma_opposite_involutive(d: DIRECTION)
    ensures
        d.spec_opposite().spec_opposite() == d,
        d.spec_opposite() != d,
{
}

} // verus!
