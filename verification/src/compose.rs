//! The frame compositor: turns a frame placed at a screen origin into an
//! ordered list of draw operations.
//!
//! Nothing here touches the terminal. A pass composes every entity into one
//! in-memory operation list; the driver then writes the list out and flushes
//! once, so a whole tick becomes visible as one atomic update.

use vstd::prelude::*;

use crate::animation::{cursor_next, cursor_shown, resolve_frame_number, Animation};
use crate::errors::RenderError;
use crate::frame::frame_wf;
use crate::sprite::{find_animation, lookup_animation, Sprite};

verus! {

/// One drawing instruction for a character terminal. A render pass yields a
/// sequence of these; the driver performs them in order and flushes once.
#[derive(Clone, Copy, PartialEq, Eq, Structural, Debug)]
pub enum DrawOp {
    /// Clear the whole screen.
    ClearAll,
    /// Move the output cursor to an absolute (column, row).
    MoveTo(u16, u16),
    /// Set the foreground color to a palette index.
    SetColor(u8),
    /// Write one character at the output cursor, moving it one cell right.
    Print(char),
    /// Reset the foreground color to the terminal default.
    ResetColor,
}

/// The color for one cell: entry `i` of the row's color sequence, if colors
/// are present at all.
pub open spec fn color_at(colors: Option<Seq<u8>>, i: int) -> Option<u8> {
    match colors {
        Some(cr) => Some(cr[i]),
        None => None,
    }
}

/// The color row for grid row `i`, if a color grid is present.
pub open spec fn color_row(colors: Option<Seq<Seq<u8>>>, i: int) -> Option<Seq<u8>> {
    match colors {
        Some(g) => Some(g[i]),
        None => None,
    }
}

/// The operations for one cell: set its color first when one is given, then
/// move to the cell and write its character.
pub open spec fn cell_ops(ch: char, color: Option<u8>, x: int, y: int) -> Seq<DrawOp> {
    let put = seq![DrawOp::MoveTo(x as u16, y as u16), DrawOp::Print(ch)];
    match color {
        Some(c) => seq![DrawOp::SetColor(c)] + put,
        None => put,
    }
}

/// The operations for one row, cells left to right, the cell at column `i`
/// drawn at `x + i`.
pub open spec fn row_ops(row: Seq<char>, colors: Option<Seq<u8>>, x: int, y: int) -> Seq<DrawOp>
    decreases row.len(),
{
    if row.len() <= 0 {
        Seq::empty()
    } else {
        let i = row.len() - 1;
        row_ops(row.drop_last(), colors, x, y) + cell_ops(row[i], color_at(colors, i), x + i, y)
    }
}

/// The operations for a whole grid, rows top to bottom, the row numbered `i`
/// drawn at `y + i`: row-major order.
pub open spec fn grid_ops(
    pixels: Seq<Seq<char>>,
    colors: Option<Seq<Seq<u8>>>,
    x: int,
    y: int,
) -> Seq<DrawOp>
    decreases pixels.len(),
{
    if pixels.len() <= 0 {
        Seq::empty()
    } else {
        let i = pixels.len() - 1;
        grid_ops(pixels.drop_last(), colors, x, y) + row_ops(
            pixels[i],
            color_row(colors, i),
            x,
            y + i,
        )
    }
}

/// The operations for one frame: the grid in row-major order, then a color
/// reset so the frame leaves the terminal's foreground color at its default.
pub open spec fn frame_ops(
    pixels: Seq<Seq<char>>,
    colors: Option<Seq<Seq<u8>>>,
    x: int,
    y: int,
) -> Seq<DrawOp> {
    grid_ops(pixels, colors, x, y) + seq![DrawOp::ResetColor]
}

/// Every cell of a grid placed at `(x, y)` has a screen coordinate that a
/// `u16` can hold.
pub open spec fn grid_fits(pixels: Seq<Seq<char>>, x: int, y: int) -> bool {
    &&& 0 <= x
    &&& 0 <= y
    &&& y + pixels.len() <= 0x10000
    &&& forall|i: int| 0 <= i < pixels.len() ==> x + #[trigger] pixels[i].len() <= 0x10000
}

/// Reads the color of cell `(r, c)` out of an optional color grid.
fn cell_color(colors: &Option<Vec<Vec<u8>>>, r: usize, c: usize) -> (res: Option<u8>)
    requires
        match colors.deep_view() {
            Some(g) => r < g.len() && c < g[r as int].len(),
            None => true,
        },
    ensures
        res == color_at(color_row(colors.deep_view(), r as int), c as int),
{
    broadcast use crate::frame::lemma_color_row_deep_view;

    match colors {
        Some(g) => Some(g[r][c]),
        None => None,
    }
}

/// Appends the operations for one cell standing at screen position
/// `(sx, sy)`.
fn push_cell(out: &mut Vec<DrawOp>, ch: char, co: Option<u8>, sx: u16, sy: u16)
    ensures
        final(out)@ == old(out)@ + cell_ops(ch, co, sx as int, sy as int),
{
    let ghost prev = out@;
    match co {
        Some(cv) => {
            out.push(DrawOp::SetColor(cv));
            out.push(DrawOp::MoveTo(sx, sy));
            out.push(DrawOp::Print(ch));
            proof {
                assert(out@ =~= prev + seq![
                    DrawOp::SetColor(cv),
                    DrawOp::MoveTo(sx, sy),
                    DrawOp::Print(ch),
                ]);
            }
        },
        None => {
            out.push(DrawOp::MoveTo(sx, sy));
            out.push(DrawOp::Print(ch));
            proof {
                assert(out@ =~= prev + seq![DrawOp::MoveTo(sx, sy), DrawOp::Print(ch)]);
            }
        },
    }
}

/// Appends to `out` the draw operations for one frame whose top-left cell
/// stands at absolute screen position `(original_x, original_y)`: for each
/// cell `(row, col)`, its color when colors are present, then a move to
/// `(original_x + col, original_y + row)` and its character, rows top to
/// bottom and cells left to right, and one color reset after the grid.
pub fn print_frame(
    pixels: &Vec<Vec<char>>,
    original_x: u16,
    original_y: u16,
    colors: &Option<Vec<Vec<u8>>>,
    out: &mut Vec<DrawOp>,
)
    requires
        frame_wf(pixels.deep_view(), colors.deep_view()),
        grid_fits(pixels.deep_view(), original_x as int, original_y as int),
    ensures
        final(out)@ == old(out)@ + frame_ops(
            pixels.deep_view(),
            colors.deep_view(),
            original_x as int,
            original_y as int,
        ),
{
    broadcast use crate::frame::lemma_char_row_deep_view, crate::frame::lemma_color_row_deep_view;

    let ghost px: Seq<Seq<char>> = pixels.deep_view();
    let ghost cx: Option<Seq<Seq<u8>>> = colors.deep_view();
    let ghost x0: int = original_x as int;
    let ghost y0: int = original_y as int;
    let mut r: usize = 0;
    while r < pixels.len()
        invariant
            0 <= r <= pixels@.len(),
            px == pixels.deep_view(),
            cx == colors.deep_view(),
            x0 == original_x as int,
            y0 == original_y as int,
            frame_wf(px, cx),
            grid_fits(px, x0, y0),
            out@ == old(out)@ + grid_ops(px.subrange(0, r as int), cx, x0, y0),
        decreases pixels@.len() - r,
    {
        let row: &Vec<char> = &pixels[r];
        let mut c: usize = 0;
        while c < row.len()
            invariant
                0 <= r < pixels@.len(),
                0 <= c <= row@.len(),
                row@ == pixels@[r as int]@,
                px == pixels.deep_view(),
                cx == colors.deep_view(),
                x0 == original_x as int,
                y0 == original_y as int,
                frame_wf(px, cx),
                grid_fits(px, x0, y0),
                out@ == old(out)@ + grid_ops(px.subrange(0, r as int), cx, x0, y0) + row_ops(
                    px[r as int].subrange(0, c as int),
                    color_row(cx, r as int),
                    x0,
                    y0 + r,
                ),
            decreases row@.len() - c,
        {
            proof {
                assert(px[r as int] == row@);
                assert(x0 + px[r as int].len() <= 0x10000);
                assert((c as u16) as int == c as int);
                assert((r as u16) as int == r as int);
            }
            let co = cell_color(colors, r, c);
            let ghost prev = out@;
            let sx = original_x + (c as u16);
            let sy = original_y + (r as u16);
            push_cell(out, row[c], co, sx, sy);
            proof {
                let rowv = px[r as int];
                assert(sx as int == x0 + c);
                assert(sy as int == y0 + r);
                assert(out@ =~= prev + cell_ops(rowv[c as int],
                    color_at(color_row(cx, r as int), c as int), x0 + c, y0 + r));
                assert(rowv.subrange(0, c + 1).drop_last() =~= rowv.subrange(0, c as int));
                assert(rowv.subrange(0, c + 1).last() == rowv[c as int]);
                assert(row_ops(rowv.subrange(0, c + 1), color_row(cx, r as int), x0, y0 + r)
                    == row_ops(rowv.subrange(0, c as int), color_row(cx, r as int), x0, y0 + r)
                        + cell_ops(rowv[c as int], color_at(color_row(cx, r as int), c as int),
                            x0 + c, y0 + r));
                assert(out@ =~= old(out)@ + grid_ops(px.subrange(0, r as int), cx, x0, y0)
                    + row_ops(rowv.subrange(0, c + 1), color_row(cx, r as int), x0, y0 + r));
            }
            c += 1;
        }
        proof {
            assert(px[r as int].subrange(0, px[r as int].len() as int) =~= px[r as int]);
            assert(px.subrange(0, r + 1).drop_last() =~= px.subrange(0, r as int));
            assert(px.subrange(0, r + 1).last() == px[r as int]);
            assert(out@ =~= old(out)@ + grid_ops(px.subrange(0, r + 1), cx, x0, y0));
        }
        r += 1;
    }
    out.push(DrawOp::ResetColor);
    proof {
        assert(px.subrange(0, px.len() as int) =~= px);
        assert(out@ =~= old(out)@ + frame_ops(px, cx, x0, y0));
    }
}

/// Why drawing a sprite under this animation choice must be refused, if it
/// must: the entity asks for an animation the sprite does not declare, or the
/// declared animation has no frame to show. No name asked for is never an
/// error, and neither is anything about position: culling is not an error.
pub open spec fn sprite_render_err(s: Sprite, animation_name: Option<String>) -> Option<
    RenderError,
> {
    match animation_name {
        None => None,
        Some(name) => match s.animations {
            None => Some(RenderError::MissingAnimation),
            Some(anims) => match find_animation(anims@, name@) {
                None => Some(RenderError::MissingAnimation),
                Some(a) => if a.frames@.len() == 0 {
                    Some(RenderError::EmptyAnimation)
                } else {
                    None
                },
            },
        },
    }
}

/// The operations one sprite contributes when drawn at `(x, y)`: its static
/// frame when no animation is asked for, else the frame its cursor selects
/// from the named animation.
pub open spec fn sprite_ops(
    s: Sprite,
    cursor: nat,
    animation_name: Option<String>,
    x: int,
    y: int,
) -> Seq<DrawOp>
    recommends
        sprite_render_err(s, animation_name) is None,
{
    match animation_name {
        None => frame_ops(s.pixels.deep_view(), s.colors.deep_view(), x, y),
        Some(name) => {
            let a = find_animation(s.animations->Some_0@, name@)->Some_0;
            let f = a.frames@[cursor_shown(cursor, a.frames@.len()) as int];
            frame_ops(f.pixels.deep_view(), f.colors.deep_view(), x, y)
        },
    }
}

/// Where the cursor stands after one draw of this sprite: advanced by one
/// selection when an animation was played, untouched otherwise.
pub open spec fn cursor_after_draw(s: Sprite, cursor: nat, animation_name: Option<String>) -> nat
    recommends
        sprite_render_err(s, animation_name) is None,
{
    match animation_name {
        None => cursor,
        Some(name) => {
            let a = find_animation(s.animations->Some_0@, name@)->Some_0;
            cursor_next(cursor, a.frames@.len())
        },
    }
}

/// Every frame the sprite can show fits on screen when drawn at `(x, y)`.
pub open spec fn sprite_fits(s: Sprite, x: int, y: int) -> bool {
    &&& grid_fits(s.pixels.deep_view(), x, y)
    &&& match s.animations {
        Some(anims) => forall|i: int, k: int|
            0 <= i < anims@.len() && 0 <= k < anims@[i].frames@.len()
                ==> grid_fits((#[trigger] anims@[i].frames@[k]).pixels.deep_view(), x, y),
        None => true,
    }
}

/// What a name lookup finds is one of the list's own animations, under the
/// name looked for.
proof fn lemma_find_animation_found(anims: Seq<Animation>, name: Seq<char>)
    ensures
        find_animation(anims, name) matches Some(a) ==> exists|i: int|
            0 <= i < anims.len() && anims[i] == a && a.name@ == name,
    decreases anims.len(),
{
    if anims.len() > 0 && anims[0].name@ != name {
        lemma_find_animation_found(anims.drop_first(), name);
        if find_animation(anims, name) is Some {
            let a = find_animation(anims, name)->Some_0;
            let i = choose|i: int|
                0 <= i < anims.drop_first().len() && anims.drop_first()[i] == a && a.name@
                    == name;
            assert(anims[i + 1] == a);
        }
    }
}

/// Appends the operations for one sprite playing the named animation: the
/// cursor selects the frame shown this tick and advances by one step.
pub fn print_animated(
    sprite: &Sprite,
    cursor: &mut usize,
    x: u16,
    y: u16,
    animation_name: &String,
    out: &mut Vec<DrawOp>,
) -> (r: Result<(), RenderError>)
    requires
        sprite.wf(),
        sprite_fits(*sprite, x as int, y as int),
    ensures
        match sprite_render_err(*sprite, Some(*animation_name)) {
            Some(e) => {
                &&& r == Err::<(), RenderError>(e)
                &&& *final(cursor) == *old(cursor)
                &&& final(out)@ == old(out)@
            },
            None => {
                &&& r is Ok
                &&& final(out)@ == old(out)@ + sprite_ops(
                    *sprite,
                    *old(cursor) as nat,
                    Some(*animation_name),
                    x as int,
                    y as int,
                )
                &&& *final(cursor) as nat == cursor_after_draw(
                    *sprite,
                    *old(cursor) as nat,
                    Some(*animation_name),
                )
            },
        },
{
    match &sprite.animations {
        None => Err(RenderError::MissingAnimation),
        Some(anims) => match lookup_animation(anims, animation_name) {
            None => Err(RenderError::MissingAnimation),
            Some(a) => {
                proof {
                    lemma_find_animation_found(anims@, animation_name@);
                }
                match resolve_frame_number(cursor, a.frames.len()) {
                    Err(e) => Err(e),
                    Ok(idx) => {
                        let f = &a.frames[idx];
                        print_frame(&f.pixels, x, y, &f.colors, out);
                        Ok(())
                    },
                }
            },
        },
    }
}

/// Appends the operations for one sprite drawn at `(x, y)`: the static frame
/// when the entity plays no animation, else the animated path above.
pub fn print_sprite(
    sprite: &Sprite,
    cursor: &mut usize,
    x: u16,
    y: u16,
    animation_name: &Option<String>,
    out: &mut Vec<DrawOp>,
) -> (r: Result<(), RenderError>)
    requires
        sprite.wf(),
        sprite_fits(*sprite, x as int, y as int),
    ensures
        match sprite_render_err(*sprite, *animation_name) {
            Some(e) => {
                &&& r == Err::<(), RenderError>(e)
                &&& *final(cursor) == *old(cursor)
                &&& final(out)@ == old(out)@
            },
            None => {
                &&& r is Ok
                &&& final(out)@ == old(out)@ + sprite_ops(
                    *sprite,
                    *old(cursor) as nat,
                    *animation_name,
                    x as int,
                    y as int,
                )
                &&& *final(cursor) as nat == cursor_after_draw(
                    *sprite,
                    *old(cursor) as nat,
                    *animation_name,
                )
            },
        },
{
    match animation_name {
        None => {
            print_frame(&sprite.pixels, x, y, &sprite.colors, out);
            Ok(())
        },
        Some(name) => print_animated(sprite, cursor, x, y, name, out),
    }
}

/// Decides whether a sprite can be drawn under this animation choice, the
/// way [`sprite_render_err`] names it, without touching any cursor.
pub fn check_render(sprite: &Sprite, animation_name: &Option<String>) -> (r: Option<RenderError>)
    ensures
        r == sprite_render_err(*sprite, *animation_name),
{
    match animation_name {
        None => None,
        Some(name) => match &sprite.animations {
            None => Some(RenderError::MissingAnimation),
            Some(anims) => match lookup_animation(anims, name) {
                None => Some(RenderError::MissingAnimation),
                Some(a) => if a.frames.len() == 0 {
                    Some(RenderError::EmptyAnimation)
                } else {
                    None
                },
            },
        },
    }
}

/// Decides whether one grid fits at `(x, y)`, the way [`grid_fits`] states
/// it.
fn grid_fits_ok(pixels: &Vec<Vec<char>>, x: u16, y: u16) -> (r: bool)
    ensures
        r == grid_fits(pixels.deep_view(), x as int, y as int),
{
    broadcast use crate::frame::lemma_char_row_deep_view;

    if pixels.len() as u64 > 0x10000u64 - (y as u64) {
        return false;
    }
    let mut i: usize = 0;
    while i < pixels.len()
        invariant
            0 <= i <= pixels@.len(),
            (y as u64) + (pixels@.len() as u64) <= 0x10000,
            forall|j: int| 0 <= j < i
                ==> x + (#[trigger] pixels.deep_view()[j]).len() <= 0x10000,
        decreases pixels@.len() - i,
    {
        if pixels[i].len() as u64 > 0x10000u64 - (x as u64) {
            assert(x + pixels.deep_view()[i as int].len() > 0x10000);
            return false;
        }
        i += 1;
    }
    true
}

/// Decides whether every frame of a sprite fits on screen when drawn at
/// `(x, y)`, the way [`sprite_fits`] states it: a driver tests this before
/// asking for a render pass on a terminal size it read itself.
pub fn check_sprite_fits(s: &Sprite, x: u16, y: u16) -> (r: bool)
    ensures
        r == sprite_fits(*s, x as int, y as int),
{
    if !grid_fits_ok(&s.pixels, x, y) {
        return false;
    }
    match &s.animations {
        None => true,
        Some(anims) => {
            let mut i: usize = 0;
            while i < anims.len()
                invariant
                    0 <= i <= anims@.len(),
                    s.animations == Some(*anims),
                    grid_fits(s.pixels.deep_view(), x as int, y as int),
                    forall|j: int, k: int|
                        0 <= j < i && 0 <= k < anims@[j].frames@.len() ==> grid_fits(
                            (#[trigger] anims@[j].frames@[k]).pixels.deep_view(),
                            x as int,
                            y as int,
                        ),
                decreases anims@.len() - i,
            {
                let a = &anims[i];
                let mut k: usize = 0;
                while k < a.frames.len()
                    invariant
                        0 <= k <= a.frames@.len(),
                        0 <= i < anims@.len(),
                        s.animations == Some(*anims),
                        grid_fits(s.pixels.deep_view(), x as int, y as int),
                        *a == anims@[i as int],
                        forall|j: int, m: int|
                            0 <= j < i && 0 <= m < anims@[j].frames@.len() ==> grid_fits(
                                (#[trigger] anims@[j].frames@[m]).pixels.deep_view(),
                                x as int,
                                y as int,
                            ),
                        forall|m: int| 0 <= m < k ==> grid_fits(
                            (#[trigger] a.frames@[m]).pixels.deep_view(),
                            x as int,
                            y as int,
                        ),
                    decreases a.frames@.len() - k,
                {
                    if !grid_fits_ok(&a.frames[k].pixels, x, y) {
                        return false;
                    }
                    k += 1;
                }
                i += 1;
            }
            true
        },
    }
}

} // verus!
