//! Error types for sprite loading and rendering.

use vstd::prelude::*;

verus! {

/// Failure while turning sprite source text into a [`crate::sprite::Sprite`].
/// Loading is fatal on failure: the caller aborts rather than retries.
#[derive(Clone, Copy, PartialEq, Eq, Structural, Debug)]
pub enum LoadError {
    /// The source could not be read at all. The library never reads files,
    /// so this variant is for the driver that does: it maps its read failure
    /// here and aborts, the same way the other variants are fatal.
    Unreadable,
    /// The source text is not valid JSON.
    Malformed,
    /// The JSON parses but does not have the expected sprite shape
    /// (missing field, pixel cell not a single character, color above 255).
    BadStructure,
    /// A color grid is present but its shape differs from its pixel grid.
    ShapeMismatch,
    /// An animation declares no frames at all.
    EmptyAnimation,
}

/// Failure while composing draw operations for a sprite.
/// Both variants are contract violations between an entity and its sprite,
/// fatal at the point of draw; culling an off-screen entity is not an error.
#[derive(Clone, Copy, PartialEq, Eq, Structural, Debug)]
pub enum RenderError {
    /// The entity names an animation its sprite does not declare.
    MissingAnimation,
    /// The selected animation has zero frames, so no frame can be chosen.
    EmptyAnimation,
}

} // verus!
