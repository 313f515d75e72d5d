//! World and screen coordinates.

use vstd::prelude::*;

verus! {

/// An unsigned two-dimensional coordinate, origin at the top left.
/// The same type serves world positions (bounded by the world extent)
/// and screen positions (bounded by the terminal size).
#[derive(Clone, Copy, PartialEq, Eq, Structural, Debug)]
pub struct Position {
    pub x: u16,
    pub y: u16,
}

} // verus!
