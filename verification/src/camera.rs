//! The camera projector: world positions to screen positions, and culling.

use vstd::prelude::*;

use crate::position::Position;

verus! {

/// Where an entity at world position `other` lands on a `width` by `height`
/// screen whose center shows the focal entity at world position `focal`: the
/// screen center plus the world offset `other - focal`, the offset taken in
/// signed arithmetic wide enough for any pair of positions, and nothing when
/// the result falls outside `[0, width) x [0, height)` — culling, which is
/// ordinary control flow, never a fault.
pub open spec fn project_spec(focal: Position, other: Position, width: u16, height: u16) -> Option<
    Position,
> {
    let sx = width as int / 2 + other.x - focal.x;
    let sy = height as int / 2 + other.y - focal.y;
    if 0 <= sx < width && 0 <= sy < height {
        Some(Position { x: sx as u16, y: sy as u16 })
    } else {
        None
    }
}

/// Projects one entity's world position relative to the focal entity,
/// exactly as [`project_spec`] names it.
pub fn project(focal: Position, other: Position, width: u16, height: u16) -> (r: Option<Position>)
    ensures
        r == project_spec(focal, other, width, height),
{
    let sx: i32 = (width / 2) as i32 + other.x as i32 - focal.x as i32;
    let sy: i32 = (height / 2) as i32 + other.y as i32 - focal.y as i32;
    if 0 <= sx && sx < width as i32 && 0 <= sy && sy < height as i32 {
        Some(Position { x: sx as u16, y: sy as u16 })
    } else {
        None
    }
}

/// Self-projection law: on a terminal with at least one cell, the focal
/// entity projected onto itself always lands exactly at the terminal's
/// center, whatever its world position.
pub proof fn lemma_self_projection(p: Position, width: u16, height: u16)
    requires
        width >= 1,
        height >= 1,
    ensures
        project_spec(p, p, width, height) == Some(
            Position { x: (width / 2) as u16, y: (height / 2) as u16 },
        ),
{
}

} // verus!
