//! Direction flags for entity motion.

use vstd::prelude::*;

verus! {

/// Four independent movement flags. Flags may combine (for example `up` and
/// `left` together move diagonally); opposite flags simply apply in turn.
#[derive(Clone, Copy, PartialEq, Eq, Structural, Debug)]
pub struct Direction {
    pub up: bool,
    pub down: bool,
    pub left: bool,
    pub right: bool,
}

impl Direction {
    /// A direction with no flag set: the entity stands still.
    pub fn none() -> (r: Direction)
        ensures
            r == (Direction { up: false, down: false, left: false, right: false }),
    {
        Direction { up: false, down: false, left: false, right: false }
    }
}

} // verus!
