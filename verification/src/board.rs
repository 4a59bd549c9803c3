//! The chequered board that the pieces are drawn on.

use vstd::prelude::*;

verus! {

/// The board as it is drawn: eight rows of eight squares.
#[derive(Clone, Copy, Debug, Default)]
pub struct Board {}

/// A square is light where its row and column add up to an even number, so
/// that the colours alternate along every row and every column.
pub open spec fn light_square(row: u8, col: u8) -> bool {
    (row + col) % 2 == 0
}

impl Board {
    /// Whether the square in this row and column is painted in the light colour.
    pub fn is_light(&self, row: u8, col: u8) -> (light: bool)
        requires
            row < 8,
            col < 8,
        ensures
            light == light_square(row, col),
    {
        (row + col) % 2 == 0
    }
}

/// Neighbours in a row or in a column differ in colour.
pub proof fn law_colours_alternate(row: u8, col: u8)
    requires
        row < 7,
        col < 7,
    ensures
        light_square(row, col) != light_square((row + 1) as u8, col),
        light_square(row, col) != light_square(row, (col + 1) as u8),
{
}

} // verus!
