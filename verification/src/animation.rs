//! Animations and the per-entity animation cursor.

use vstd::arithmetic::div_mod::{
    lemma_add_mod_noop_right, lemma_mod_bound, lemma_small_mod,
};
use vstd::prelude::*;

use crate::errors::RenderError;
use crate::frame::Frame;

verus! {

/// A named, ordered sequence of frames, played in a loop. The name is meant
/// to be unique within a sprite; a lookup takes the first match.
#[derive(Clone, PartialEq, Debug)]
pub struct Animation {
    pub name: String,
    pub frames: Vec<Frame>,
}

/// The mathematical value of an animation: its name and frame values.
pub struct AnimationView {
    pub name: Seq<char>,
    pub frames: Seq<crate::frame::FrameView>,
}

/// The frame values of a frame list, in order.
pub open spec fn frames_view(s: Seq<Frame>) -> Seq<crate::frame::FrameView> {
    s.map_values(|f: Frame| f@)
}

impl View for Animation {
    type V = AnimationView;

    open spec fn view(&self) -> AnimationView {
        AnimationView { name: self.name@, frames: frames_view(self.frames@) }
    }
}

impl Animation {
    /// An animation is well formed when it has at least one frame and every
    /// frame's color grid, if present, matches its pixel grid.
    pub open spec fn wf(self) -> bool {
        &&& self.frames@.len() >= 1
        &&& forall|i: int| 0 <= i < self.frames@.len() ==> (#[trigger] self.frames@[i]).wf()
    }
}

/// The frame index shown when a cursor standing at `c` selects a frame of an
/// animation with `n` frames: the pre-advance value, reduced into range.
pub open spec fn cursor_shown(c: nat, n: nat) -> nat
    recommends
        n >= 1,
{
    c % n
}

/// The cursor value after one selection: one step forward, wrapping to 0
/// after the last index — `(current + 1) mod n`, with the wrap exactly at
/// the frame count.
pub open spec fn cursor_next(c: nat, n: nat) -> nat
    recommends
        n >= 1,
{
    (cursor_shown(c, n) + 1) % n
}

/// The cursor value reached after `k` selections starting from a fresh
/// cursor at 0.
pub open spec fn cursor_after(k: nat, n: nat) -> nat
    recommends
        n >= 1,
    decreases k,
{
    if k == 0 {
        0
    } else {
        cursor_next(cursor_after((k - 1) as nat, n), n)
    }
}

/// Cursor cycle law: for an animation with `n >= 1` frames, after `k`
/// selections from a fresh cursor the cursor stands at `k % n`, so the
/// selection numbered `k` (counting from 0) shows frame `k % n`.
pub proof fn lemma_cursor_cycle(k: nat, n: nat)
    requires
        n >= 1,
    ensures
        cursor_after(k, n) == k % n,
        cursor_shown(cursor_after(k, n), n) == k % n,
    decreases k,
{
    if k == 0 {
        lemma_small_mod(0, n);
    } else {
        lemma_cursor_cycle((k - 1) as nat, n);
        let m = (k - 1) as nat % n;
        lemma_mod_bound((k - 1) as int, n as int);
        lemma_small_mod(m, n);
        lemma_add_mod_noop_right(1, (k - 1) as int, n as int);
        assert(cursor_after(k, n) == (m + 1) % n);
        assert((1 + (k - 1) as int % n as int) % n as int == (1 + (k - 1) as int) % n as int);
    }
    lemma_mod_bound(k as int, n as int);
    lemma_small_mod(k % n, n);
}

/// Selects the frame index for this tick and advances the cursor.
///
/// Returns the pre-advance index reduced into range, so a fresh cursor shows
/// frame 0 on the first call, and moves the cursor one step forward, wrapping
/// to 0 after the last index. An animation with no frames has no frame to
/// select: that is reported as a consistency error, never as a division or
/// index by zero, and the cursor is left untouched.
pub fn resolve_frame_number(cursor: &mut usize, frame_count: usize) -> (r: Result<
    usize,
    RenderError,
>)
    ensures
        frame_count == 0 ==> {
            &&& r == Err::<usize, RenderError>(RenderError::EmptyAnimation)
            &&& *final(cursor) == *old(cursor)
        },
        frame_count > 0 ==> {
            &&& r is Ok
            &&& r->Ok_0 as nat == cursor_shown(*old(cursor) as nat, frame_count as nat)
            &&& *final(cursor) as nat == cursor_next(*old(cursor) as nat, frame_count as nat)
        },
{
    if frame_count == 0 {
        return Err(RenderError::EmptyAnimation);
    }
    let shown = *cursor % frame_count;
    *cursor = (shown + 1) % frame_count;
    Ok(shown)
}

} // verus!
