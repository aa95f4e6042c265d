//! What the arena asks of whoever draws it.
use vstd::prelude::*;
use crate::geometry::Field;

verus! {

/// The colour tag of the first snake.
pub const COLOR_PAIR_SNK1: i16 = 4;

/// The colour tag of the second snake.
pub const COLOR_PAIR_SNK2: i16 = 5;

/// One change on the display surface, in absolute screen coordinates.
#[derive(Clone, Copy, Debug, PartialEq, Eq, Structural)]
pub enum RenderOp {
    /// Blank the cell.
    Clear(Field),
    /// Draw a snake segment with the given colour tag.
    Block(Field, i16),
    /// Draw the food.
    Food(Field),
}

} // verus!
