//! What one square of the grid holds.

use vstd::prelude::*;

verus! {

/// The colours a piece can have. How a colour is shown is the renderer's
/// business; the engine only carries the tag from a piece to the cells it
/// occupies.
#[derive(Clone, Copy, Debug, PartialEq, Eq, Structural)]
pub enum Color {
    Yellow,
    Cyan,
    Gray,
    Blue,
    Green,
    Red,
    White,
}

/// An occupied square. `is_active` tells a square of the piece that is still
/// falling from one that has come to rest for good.
#[derive(Clone, Copy, Debug, PartialEq, Eq, Structural)]
pub struct Playcell {
    pub is_active: bool,
    pub color: Color,
}

impl Playcell {
    /// A cell of the given kind and colour.
    pub fn new(is_active: bool, color: Color) -> (cell: Playcell)
        ensures
            cell == (Playcell { is_active, color }),
    {
        Playcell { is_active, color }
    }
}

} // verus!
