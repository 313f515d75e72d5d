//! Terminal sprite rendering and animation-state engine.
//!
//! Sprites are rectangular character grids with optional per-pixel colors and
//! optional named animations. Entities place a sprite at a world position and
//! move by direction flags and a speed. A render pass projects every entity
//! relative to a focal entity, culls what falls off the terminal, and composes
//! an ordered list of draw operations that a driver writes to the terminal in
//! one flush.

pub mod animation;
pub mod camera;
pub mod compose;
pub mod direction;
pub mod entity;
pub mod errors;
pub mod frame;
pub mod json;
pub mod position;
pub mod render;
pub mod sprite;
