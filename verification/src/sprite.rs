//! Sprites: named visual assets, validated once when they are built.

use vstd::prelude::*;

use vstd::string::StrSliceExecFns;

use crate::animation::{frames_view, Animation, AnimationView};
use crate::errors::LoadError;
use crate::frame::{frame_shape_ok, frame_wf, Frame, FrameView};
use crate::json::{
    arr_of, field_of, json_as_array, json_as_string, json_as_u64, json_get, json_is_null,
    json_parse, null_of, parse_of, str_of, u64_of,
};

verus! {

/// A named visual asset: a static pixel grid with optional colors, and
/// optionally a list of named animations. Sprite data is immutable once
/// built and may be shared by value between entities; the animation cursor
/// is per-entity state and lives on the entity, never in the sprite, so two
/// entities showing the same sprite can never disturb each other's playback.
#[derive(Clone, PartialEq, Debug)]
pub struct Sprite {
    pub name: String,
    pub pixels: Vec<Vec<char>>,
    pub animations: Option<Vec<Animation>>,
    pub colors: Option<Vec<Vec<u8>>>,
}

/// The mathematical value of a sprite: name, grids and animation values.
pub struct SpriteView {
    pub name: Seq<char>,
    pub pixels: Seq<Seq<char>>,
    pub animations: Option<Seq<AnimationView>>,
    pub colors: Option<Seq<Seq<u8>>>,
}

/// The animation values of an animation list, in order.
pub open spec fn anims_view(s: Seq<Animation>) -> Seq<AnimationView> {
    s.map_values(|a: Animation| a@)
}

impl View for Sprite {
    type V = SpriteView;

    open spec fn view(&self) -> SpriteView {
        SpriteView {
            name: self.name@,
            pixels: self.pixels.deep_view(),
            animations: match self.animations {
                Some(anims) => Some(anims_view(anims@)),
                None => None,
            },
            colors: self.colors.deep_view(),
        }
    }
}

/// The first animation in the list carrying this name, if any. Names are
/// meant to be unique within a sprite, so "the first" is simply "the one".
pub open spec fn find_animation(anims: Seq<Animation>, name: Seq<char>) -> Option<Animation>
    decreases anims.len(),
{
    if anims.len() == 0 {
        None
    } else if anims[0].name@ == name {
        Some(anims[0])
    } else {
        find_animation(anims.drop_first(), name)
    }
}

/// A prefix without a match does not change what a name lookup finds.
proof fn lemma_find_animation_skip(anims: Seq<Animation>, name: Seq<char>, i: int)
    requires
        0 <= i <= anims.len(),
        forall|j: int| 0 <= j < i ==> (#[trigger] anims[j]).name@ != name,
    ensures
        find_animation(anims, name) == find_animation(anims.skip(i), name),
    decreases i,
{
    if i > 0 {
        lemma_find_animation_skip(anims.drop_first(), name, i - 1);
        assert(anims.skip(i) =~= anims.drop_first().skip(i - 1));
    } else {
        assert(anims.skip(0) =~= anims);
    }
}

/// Finds the animation carrying `name`, the way [`find_animation`] names it.
pub fn lookup_animation<'a>(anims: &'a Vec<Animation>, name: &String) -> (r: Option<
    &'a Animation,
>)
    ensures
        match r {
            Some(a) => find_animation(anims@, name@) == Some(*a),
            None => find_animation(anims@, name@) is None,
        },
{
    let mut i: usize = 0;
    while i < anims.len()
        invariant
            0 <= i <= anims@.len(),
            forall|j: int| 0 <= j < i ==> (#[trigger] anims@[j]).name@ != name@,
        decreases anims@.len() - i,
    {
        if anims[i].name == *name {
            proof {
                lemma_find_animation_skip(anims@, name@, i as int);
                assert(anims@.skip(i as int)[0] == anims@[i as int]);
            }
            return Some(&anims[i]);
        }
        i += 1;
    }
    proof {
        lemma_find_animation_skip(anims@, name@, anims@.len() as int);
        assert(anims@.skip(anims@.len() as int) =~= Seq::<Animation>::empty());
    }
    None
}

/// The defect of one animation, if it has one: no frames at all, else the
/// first frame whose color grid does not match its pixel grid.
pub open spec fn animation_check(a: Animation) -> Option<LoadError> {
    if a.frames@.len() == 0 {
        Some(LoadError::EmptyAnimation)
    } else if exists|i: int| 0 <= i < a.frames@.len() && !(#[trigger] a.frames@[i]).wf() {
        Some(LoadError::ShapeMismatch)
    } else {
        None
    }
}

/// The defect of the first defective animation in the list, if any.
pub open spec fn animations_check(anims: Seq<Animation>) -> Option<LoadError>
    decreases anims.len(),
{
    if anims.len() == 0 {
        None
    } else if animation_check(anims[0]) is Some {
        animation_check(anims[0])
    } else {
        animations_check(anims.drop_first())
    }
}

/// The defect a sprite would be rejected for: a static color grid that does
/// not match the static pixel grid, else the first defective animation.
pub open spec fn sprite_check(s: Sprite) -> Option<LoadError> {
    if !frame_wf(s.pixels.deep_view(), s.colors.deep_view()) {
        Some(LoadError::ShapeMismatch)
    } else {
        match s.animations {
            Some(anims) => animations_check(anims@),
            None => None,
        }
    }
}

/// A prefix of sound animations does not change which defect is found.
proof fn lemma_animations_check_skip(anims: Seq<Animation>, i: int)
    requires
        0 <= i <= anims.len(),
        forall|j: int| 0 <= j < i ==> animation_check(#[trigger] anims[j]) is None,
    ensures
        animations_check(anims) == animations_check(anims.skip(i)),
    decreases i,
{
    if i > 0 {
        lemma_animations_check_skip(anims.drop_first(), i - 1);
        assert(anims.skip(i) =~= anims.drop_first().skip(i - 1));
    } else {
        assert(anims.skip(0) =~= anims);
    }
}

impl Sprite {
    /// A sprite is well formed when its static grids match in shape and every
    /// animation is well formed. Every sprite this module hands out is.
    pub open spec fn wf(self) -> bool {
        &&& frame_wf(self.pixels.deep_view(), self.colors.deep_view())
        &&& match self.animations {
            Some(anims) => forall|i: int|
                0 <= i < anims@.len() ==> (#[trigger] anims@[i]).wf(),
            None => true,
        }
    }

    /// Builds a sprite from its parts, validating every grid shape once so
    /// that drawing never has to: the fields are taken exactly as given, and
    /// the result is rejected — with the first defect found, checking the
    /// static grid first and then each animation in order, frames in order —
    /// rather than ever desynchronizing colors from pixels later.
    pub fn new(
        name: String,
        pixels: Vec<Vec<char>>,
        animations: Option<Vec<Animation>>,
        colors: Option<Vec<Vec<u8>>>,
    ) -> (r: Result<Sprite, LoadError>)
        ensures
            match sprite_check(
                Sprite {
                    name: name,
                    pixels: pixels,
                    animations: animations,
                    colors: colors,
                },
            ) {
                None => r matches Ok(s) && s == (Sprite {
                    name: name,
                    pixels: pixels,
                    animations: animations,
                    colors: colors,
                }) && s.wf(),
                Some(e) => r == Err::<Sprite, LoadError>(e),
            },
    {
        let ghost target = Sprite {
            name: name,
            pixels: pixels,
            animations: animations,
            colors: colors,
        };
        if !frame_shape_ok(&pixels, &colors) {
            return Err(LoadError::ShapeMismatch);
        }
        if let Some(anims) = &animations {
            let mut i: usize = 0;
            while i < anims.len()
                invariant
                    0 <= i <= anims@.len(),
                    animations == Some(*anims),
                    frame_wf(pixels.deep_view(), colors.deep_view()),
                    forall|j: int| 0 <= j < i ==> animation_check(#[trigger] anims@[j]) is None,
                decreases anims@.len() - i,
            {
                let a: &Animation = &anims[i];
                if a.frames.len() == 0 {
                    proof {
                        lemma_animations_check_skip(anims@, i as int);
                        assert(anims@.skip(i as int)[0] == anims@[i as int]);
                    }
                    return Err(LoadError::EmptyAnimation);
                }
                let mut k: usize = 0;
                while k < a.frames.len()
                    invariant
                        0 <= k <= a.frames@.len(),
                        0 <= i < anims@.len(),
                        animations == Some(*anims),
                        frame_wf(pixels.deep_view(), colors.deep_view()),
                        *a == anims@[i as int],
                        a.frames@.len() > 0,
                        forall|j: int| 0 <= j < i
                            ==> animation_check(#[trigger] anims@[j]) is None,
                        forall|j: int| 0 <= j < k ==> (#[trigger] a.frames@[j]).wf(),
                    decreases a.frames@.len() - k,
                {
                    let f: &crate::frame::Frame = &a.frames[k];
                    if !frame_shape_ok(&f.pixels, &f.colors) {
                        proof {
                            lemma_animations_check_skip(anims@, i as int);
                            assert(anims@.skip(i as int)[0] == anims@[i as int]);
                            assert(!a.frames@[k as int].wf());
                        }
                        return Err(LoadError::ShapeMismatch);
                    }
                    k += 1;
                }
                proof {
                    assert(animation_check(anims@[i as int]) is None);
                }
                i += 1;
            }
            proof {
                lemma_animations_check_skip(anims@, anims@.len() as int);
                assert(anims@.skip(anims@.len() as int) =~= Seq::<Animation>::empty());
            }
        }
        let s = Sprite { name, pixels, animations, colors };
        proof {
            assert(s == target);
            assert(sprite_check(s) is None);
            assert(s.wf());
        }
        Ok(s)
    }
}

/// What one pixel cell of a JSON tree means: a string of exactly one
/// character, else a structure defect.
pub open spec fn spec_parse_char_cell(v: serde_json::Value) -> Result<char, LoadError> {
    match str_of(v) {
        None => Err(LoadError::BadStructure),
        Some(s) => if s.len() == 1 {
            Ok(s[0])
        } else {
            Err(LoadError::BadStructure)
        },
    }
}

/// What a row of pixel cells means, cells in order, the first defect
/// winning.
pub open spec fn spec_parse_char_row(cells: Seq<serde_json::Value>) -> Result<Seq<char>, LoadError>
    decreases cells.len(),
{
    if cells.len() == 0 {
        Ok(Seq::empty())
    } else {
        match spec_parse_char_cell(cells[0]) {
            Err(e) => Err(e),
            Ok(c) => match spec_parse_char_row(cells.drop_first()) {
                Err(e) => Err(e),
                Ok(rest) => Ok(seq![c] + rest),
            },
        }
    }
}

/// What a list of pixel rows means: each row an array of cells.
pub open spec fn spec_parse_char_rows(rows: Seq<serde_json::Value>) -> Result<
    Seq<Seq<char>>,
    LoadError,
>
    decreases rows.len(),
{
    if rows.len() == 0 {
        Ok(Seq::empty())
    } else {
        match arr_of(rows[0]) {
            None => Err(LoadError::BadStructure),
            Some(cells) => match spec_parse_char_row(cells) {
                Err(e) => Err(e),
                Ok(row) => match spec_parse_char_rows(rows.drop_first()) {
                    Err(e) => Err(e),
                    Ok(rest) => Ok(seq![row] + rest),
                },
            },
        }
    }
}

/// What a pixel grid means: an array of arrays of one-character strings.
pub open spec fn spec_parse_char_grid(v: serde_json::Value) -> Result<Seq<Seq<char>>, LoadError> {
    match arr_of(v) {
        None => Err(LoadError::BadStructure),
        Some(rows) => spec_parse_char_rows(rows),
    }
}

/// What one color cell means: a number inside the 0–255 palette.
pub open spec fn spec_parse_color_cell(v: serde_json::Value) -> Result<u8, LoadError> {
    match u64_of(v) {
        None => Err(LoadError::BadStructure),
        Some(n) => if n <= 255 {
            Ok(n as u8)
        } else {
            Err(LoadError::BadStructure)
        },
    }
}

/// What a row of color cells means, cells in order.
pub open spec fn spec_parse_color_row(cells: Seq<serde_json::Value>) -> Result<Seq<u8>, LoadError>
    decreases cells.len(),
{
    if cells.len() == 0 {
        Ok(Seq::empty())
    } else {
        match spec_parse_color_cell(cells[0]) {
            Err(e) => Err(e),
            Ok(c) => match spec_parse_color_row(cells.drop_first()) {
                Err(e) => Err(e),
                Ok(rest) => Ok(seq![c] + rest),
            },
        }
    }
}

/// What a list of color rows means: each row an array of cells.
pub open spec fn spec_parse_color_rows(rows: Seq<serde_json::Value>) -> Result<
    Seq<Seq<u8>>,
    LoadError,
>
    decreases rows.len(),
{
    if rows.len() == 0 {
        Ok(Seq::empty())
    } else {
        match arr_of(rows[0]) {
            None => Err(LoadError::BadStructure),
            Some(cells) => match spec_parse_color_row(cells) {
                Err(e) => Err(e),
                Ok(row) => match spec_parse_color_rows(rows.drop_first()) {
                    Err(e) => Err(e),
                    Ok(rest) => Ok(seq![row] + rest),
                },
            },
        }
    }
}

/// What a color grid means: an array of arrays of palette indices.
pub open spec fn spec_parse_color_grid(v: serde_json::Value) -> Result<Seq<Seq<u8>>, LoadError> {
    match arr_of(v) {
        None => Err(LoadError::BadStructure),
        Some(rows) => spec_parse_color_rows(rows),
    }
}

/// What an optional color field means: absent and JSON null are both "no
/// colors".
pub open spec fn spec_parse_opt_colors(v: serde_json::Value, key: Seq<char>) -> Result<
    Option<Seq<Seq<u8>>>,
    LoadError,
> {
    match field_of(v, key) {
        None => Ok(None),
        Some(cv) => if null_of(cv) {
            Ok(None)
        } else {
            match spec_parse_color_grid(cv) {
                Err(e) => Err(e),
                Ok(g) => Ok(Some(g)),
            }
        },
    }
}

/// What one animation frame means: a pixel grid and optional colors.
pub open spec fn spec_parse_frame(v: serde_json::Value) -> Result<FrameView, LoadError> {
    match field_of(v, "pixels"@) {
        None => Err(LoadError::BadStructure),
        Some(pv) => match spec_parse_char_grid(pv) {
            Err(e) => Err(e),
            Ok(pixels) => match spec_parse_opt_colors(v, "colors"@) {
                Err(e) => Err(e),
                Ok(colors) => Ok(FrameView { pixels, colors }),
            },
        },
    }
}

/// What a list of animation frames means, frames in order.
pub open spec fn spec_parse_frames(entries: Seq<serde_json::Value>) -> Result<
    Seq<FrameView>,
    LoadError,
>
    decreases entries.len(),
{
    if entries.len() == 0 {
        Ok(Seq::empty())
    } else {
        match spec_parse_frame(entries[0]) {
            Err(e) => Err(e),
            Ok(f) => match spec_parse_frames(entries.drop_first()) {
                Err(e) => Err(e),
                Ok(rest) => Ok(seq![f] + rest),
            },
        }
    }
}

/// What one animation means: a name and an array of frames.
pub open spec fn spec_parse_animation(v: serde_json::Value) -> Result<AnimationView, LoadError> {
    match field_of(v, "name"@) {
        None => Err(LoadError::BadStructure),
        Some(nv) => match str_of(nv) {
            None => Err(LoadError::BadStructure),
            Some(name) => match field_of(v, "frames"@) {
                None => Err(LoadError::BadStructure),
                Some(fv) => match arr_of(fv) {
                    None => Err(LoadError::BadStructure),
                    Some(entries) => match spec_parse_frames(entries) {
                        Err(e) => Err(e),
                        Ok(frames) => Ok(AnimationView { name, frames }),
                    },
                },
            },
        },
    }
}

/// What a list of animations means, animations in order.
pub open spec fn spec_parse_animations(entries: Seq<serde_json::Value>) -> Result<
    Seq<AnimationView>,
    LoadError,
>
    decreases entries.len(),
{
    if entries.len() == 0 {
        Ok(Seq::empty())
    } else {
        match spec_parse_animation(entries[0]) {
            Err(e) => Err(e),
            Ok(a) => match spec_parse_animations(entries.drop_first()) {
                Err(e) => Err(e),
                Ok(rest) => Ok(seq![a] + rest),
            },
        }
    }
}

/// What an optional animations field means: absent and JSON null are both
/// "no animations".
pub open spec fn spec_parse_opt_animations(v: serde_json::Value) -> Result<
    Option<Seq<AnimationView>>,
    LoadError,
> {
    match field_of(v, "animations"@) {
        None => Ok(None),
        Some(av) => if null_of(av) {
            Ok(None)
        } else {
            match arr_of(av) {
                None => Err(LoadError::BadStructure),
                Some(entries) => match spec_parse_animations(entries) {
                    Err(e) => Err(e),
                    Ok(anims) => Ok(Some(anims)),
                },
            }
        },
    }
}

/// [`frame_wf`] over a frame value.
pub open spec fn frame_wf_v(f: FrameView) -> bool {
    frame_wf(f.pixels, f.colors)
}

/// [`animation_check`] over an animation value.
pub open spec fn animation_check_v(a: AnimationView) -> Option<LoadError> {
    if a.frames.len() == 0 {
        Some(LoadError::EmptyAnimation)
    } else if exists|i: int| 0 <= i < a.frames.len() && !frame_wf_v(#[trigger] a.frames[i]) {
        Some(LoadError::ShapeMismatch)
    } else {
        None
    }
}

/// [`animations_check`] over animation values.
pub open spec fn animations_check_v(s: Seq<AnimationView>) -> Option<LoadError>
    decreases s.len(),
{
    if s.len() == 0 {
        None
    } else if animation_check_v(s[0]) is Some {
        animation_check_v(s[0])
    } else {
        animations_check_v(s.drop_first())
    }
}

/// [`sprite_check`] over a sprite value.
pub open spec fn sprite_check_v(sv: SpriteView) -> Option<LoadError> {
    if !frame_wf(sv.pixels, sv.colors) {
        Some(LoadError::ShapeMismatch)
    } else {
        match sv.animations {
            Some(a) => animations_check_v(a),
            None => None,
        }
    }
}

/// The defect found in an animation is the defect found in its value.
proof fn lemma_animation_check_view(a: Animation)
    ensures
        animation_check(a) == animation_check_v(a@),
{
    if exists|i: int| 0 <= i < a.frames@.len() && !(#[trigger] a.frames@[i]).wf() {
        let i = choose|i: int| 0 <= i < a.frames@.len() && !(#[trigger] a.frames@[i]).wf();
        assert(a@.frames[i] == a.frames@[i]@);
        assert(!frame_wf_v(a@.frames[i]));
    }
    if exists|i: int| 0 <= i < a@.frames.len() && !frame_wf_v(#[trigger] a@.frames[i]) {
        let i = choose|i: int| 0 <= i < a@.frames.len() && !frame_wf_v(#[trigger] a@.frames[i]);
        assert(a@.frames[i] == a.frames@[i]@);
        assert(!a.frames@[i].wf());
    }
}

/// The defect found in an animation list is the defect found in its values.
proof fn lemma_animations_check_view(s: Seq<Animation>)
    ensures
        animations_check(s) == animations_check_v(anims_view(s)),
    decreases s.len(),
{
    if s.len() > 0 {
        lemma_animation_check_view(s[0]);
        lemma_animations_check_view(s.drop_first());
        assert(anims_view(s)[0] == s[0]@);
        assert(anims_view(s).drop_first() =~= anims_view(s.drop_first()));
    }
}

/// The defect found in a sprite is the defect found in its value.
proof fn lemma_sprite_check_view(s: Sprite)
    ensures
        sprite_check(s) == sprite_check_v(s@),
{
    match s.animations {
        Some(anims) => {
            lemma_animations_check_view(anims@);
            assert(s@.animations == Some(anims_view(anims@)));
        },
        None => {},
    }
}

/// The meaning of a whole sprite source: parse the text, read `name`,
/// `pixels`, `colors` and `animations` in that order — the first defect
/// winning — then hold the result to the shape checks, static grid first.
/// [`load_sprite`] returns exactly this.
pub open spec fn spec_load_sprite(text: Seq<char>) -> Result<SpriteView, LoadError> {
    match parse_of(text) {
        None => Err(LoadError::Malformed),
        Some(v) => match field_of(v, "name"@) {
            None => Err(LoadError::BadStructure),
            Some(nv) => match str_of(nv) {
                None => Err(LoadError::BadStructure),
                Some(name) => match field_of(v, "pixels"@) {
                    None => Err(LoadError::BadStructure),
                    Some(pv) => match spec_parse_char_grid(pv) {
                        Err(e) => Err(e),
                        Ok(pixels) => match spec_parse_opt_colors(v, "colors"@) {
                            Err(e) => Err(e),
                            Ok(colors) => match spec_parse_opt_animations(v) {
                                Err(e) => Err(e),
                                Ok(animations) => {
                                    let sv = SpriteView { name, pixels, animations, colors };
                                    match sprite_check_v(sv) {
                                        Some(e) => Err(e),
                                        None => Ok(sv),
                                    }
                                },
                            },
                        },
                    },
                },
            },
        },
    }
}

/// One pixel cell out of a JSON tree, exactly as [`spec_parse_char_cell`]
/// names it.
fn parse_char_cell(v: &serde_json::Value) -> (r: Result<char, LoadError>)
    ensures
        r == spec_parse_char_cell(*v),
{
    match json_as_string(v) {
        None => Err(LoadError::BadStructure),
        Some(s) => {
            if s.as_str().unicode_len() == 1 {
                Ok(s.as_str().get_char(0))
            } else {
                Err(LoadError::BadStructure)
            }
        },
    }
}

/// A pixel grid out of a JSON tree, exactly as [`spec_parse_char_grid`]
/// names it.
fn parse_char_grid(v: &serde_json::Value) -> (r: Result<Vec<Vec<char>>, LoadError>)
    ensures
        match spec_parse_char_grid(*v) {
            Ok(g) => r matches Ok(rg) && rg.deep_view() == g,
            Err(e) => r == Err::<Vec<Vec<char>>, LoadError>(e),
        },
{
    broadcast use crate::frame::lemma_char_row_deep_view;

    let rows = match json_as_array(v) {
        None => {
            return Err(LoadError::BadStructure);
        },
        Some(rows) => rows,
    };
    let mut grid: Vec<Vec<char>> = Vec::new();
    proof {
        assert(rows@.skip(0) =~= rows@);
        if spec_parse_char_rows(rows@) is Ok {
            let rest = spec_parse_char_rows(rows@)->Ok_0;
            assert(grid.deep_view() + rest =~= rest);
        }
    }
    let mut i: usize = 0;
    while i < rows.len()
        invariant
            0 <= i <= rows@.len(),
            arr_of(*v) == Some(rows@),
            spec_parse_char_rows(rows@) == (match spec_parse_char_rows(rows@.skip(i as int)) {
                Ok(rest) => Ok::<Seq<Seq<char>>, LoadError>(grid.deep_view() + rest),
                Err(e) => Err::<Seq<Seq<char>>, LoadError>(e),
            }),
        decreases rows@.len() - i,
    {
        proof {
            assert(rows@.skip(i as int)[0] == rows@[i as int]);
            assert(rows@.skip(i as int).drop_first() =~= rows@.skip(i as int + 1));
        }
        let cells = match json_as_array(&rows[i]) {
            None => {
                return Err(LoadError::BadStructure);
            },
            Some(cells) => cells,
        };
        let mut row: Vec<char> = Vec::new();
        proof {
            assert(cells@.skip(0) =~= cells@);
            if spec_parse_char_row(cells@) is Ok {
                let rest = spec_parse_char_row(cells@)->Ok_0;
                assert(row@ + rest =~= rest);
            }
        }
        let mut k: usize = 0;
        while k < cells.len()
            invariant
                0 <= k <= cells@.len(),
                0 <= i < rows@.len(),
                arr_of(*v) == Some(rows@),
                arr_of(rows@[i as int]) == Some(cells@),
                spec_parse_char_rows(rows@) == (match spec_parse_char_rows(
                    rows@.skip(i as int),
                ) {
                    Ok(rest) => Ok::<Seq<Seq<char>>, LoadError>(grid.deep_view() + rest),
                    Err(e) => Err::<Seq<Seq<char>>, LoadError>(e),
                }),
                spec_parse_char_row(cells@) == (match spec_parse_char_row(
                    cells@.skip(k as int),
                ) {
                    Ok(rest) => Ok::<Seq<char>, LoadError>(row@ + rest),
                    Err(e) => Err::<Seq<char>, LoadError>(e),
                }),
            decreases cells@.len() - k,
        {
            proof {
                assert(cells@.skip(k as int)[0] == cells@[k as int]);
                assert(cells@.skip(k as int).drop_first() =~= cells@.skip(k as int + 1));
            }
            match parse_char_cell(&cells[k]) {
                Ok(c) => {
                    let ghost prevrow = row@;
                    row.push(c);
                    proof {
                        if spec_parse_char_row(cells@.skip(k as int + 1)) is Ok {
                            let rest = spec_parse_char_row(cells@.skip(k as int + 1))->Ok_0;
                            assert(prevrow + (seq![c] + rest) =~= row@ + rest);
                        }
                    }
                },
                Err(e) => {
                    proof {
                        assert(rows@.skip(i as int)[0] == rows@[i as int]);
                    }
                    return Err(e);
                },
            }
            k += 1;
        }
        proof {
            assert(cells@.skip(cells@.len() as int) =~= Seq::<serde_json::Value>::empty());
            assert(row@ + Seq::<char>::empty() =~= row@);
            assert(spec_parse_char_row(cells@) == Ok::<Seq<char>, LoadError>(row@));
        }
        let ghost rowv = row@;
        let ghost prevgrid = grid.deep_view();
        let ghost prevvec = grid@;
        grid.push(row);
        proof {
            assert(grid@.len() == prevvec.len() + 1);
            assert forall|j: int| 0 <= j < grid@.len() implies grid.deep_view()[j]
                == prevgrid.push(rowv)[j] by {
                if j < prevvec.len() {
                    assert(grid@[j] == prevvec[j]);
                    assert(prevgrid[j] == prevvec[j].deep_view());
                } else {
                    assert(grid@[j]@ == rowv);
                }
            }
            assert(grid.deep_view() =~= prevgrid.push(rowv));
            if spec_parse_char_rows(rows@.skip(i as int + 1)) is Ok {
                let rest = spec_parse_char_rows(rows@.skip(i as int + 1))->Ok_0;
                assert(prevgrid + (seq![rowv] + rest) =~= grid.deep_view() + rest);
            }
        }
        i += 1;
    }
    proof {
        assert(rows@.skip(rows@.len() as int) =~= Seq::<serde_json::Value>::empty());
        assert(grid.deep_view() + Seq::<Seq<char>>::empty() =~= grid.deep_view());
    }
    Ok(grid)
}

/// A color grid out of a JSON tree, exactly as [`spec_parse_color_grid`]
/// names it.
fn parse_color_grid(v: &serde_json::Value) -> (r: Result<Vec<Vec<u8>>, LoadError>)
    ensures
        match spec_parse_color_grid(*v) {
            Ok(g) => r matches Ok(rg) && rg.deep_view() == g,
            Err(e) => r == Err::<Vec<Vec<u8>>, LoadError>(e),
        },
{
    broadcast use crate::frame::lemma_color_row_deep_view;

    let rows = match json_as_array(v) {
        None => {
            return Err(LoadError::BadStructure);
        },
        Some(rows) => rows,
    };
    let mut grid: Vec<Vec<u8>> = Vec::new();
    proof {
        assert(rows@.skip(0) =~= rows@);
        if spec_parse_color_rows(rows@) is Ok {
            let rest = spec_parse_color_rows(rows@)->Ok_0;
            assert(grid.deep_view() + rest =~= rest);
        }
    }
    let mut i: usize = 0;
    while i < rows.len()
        invariant
            0 <= i <= rows@.len(),
            arr_of(*v) == Some(rows@),
            spec_parse_color_rows(rows@) == (match spec_parse_color_rows(
                rows@.skip(i as int),
            ) {
                Ok(rest) => Ok::<Seq<Seq<u8>>, LoadError>(grid.deep_view() + rest),
                Err(e) => Err::<Seq<Seq<u8>>, LoadError>(e),
            }),
        decreases rows@.len() - i,
    {
        proof {
            assert(rows@.skip(i as int)[0] == rows@[i as int]);
            assert(rows@.skip(i as int).drop_first() =~= rows@.skip(i as int + 1));
        }
        let cells = match json_as_array(&rows[i]) {
            None => {
                return Err(LoadError::BadStructure);
            },
            Some(cells) => cells,
        };
        let mut row: Vec<u8> = Vec::new();
        proof {
            assert(cells@.skip(0) =~= cells@);
            if spec_parse_color_row(cells@) is Ok {
                let rest = spec_parse_color_row(cells@)->Ok_0;
                assert(row@ + rest =~= rest);
            }
        }
        let mut k: usize = 0;
        while k < cells.len()
            invariant
                0 <= k <= cells@.len(),
                0 <= i < rows@.len(),
                arr_of(*v) == Some(rows@),
                arr_of(rows@[i as int]) == Some(cells@),
                spec_parse_color_rows(rows@) == (match spec_parse_color_rows(
                    rows@.skip(i as int),
                ) {
                    Ok(rest) => Ok::<Seq<Seq<u8>>, LoadError>(grid.deep_view() + rest),
                    Err(e) => Err::<Seq<Seq<u8>>, LoadError>(e),
                }),
                spec_parse_color_row(cells@) == (match spec_parse_color_row(
                    cells@.skip(k as int),
                ) {
                    Ok(rest) => Ok::<Seq<u8>, LoadError>(row@ + rest),
                    Err(e) => Err::<Seq<u8>, LoadError>(e),
                }),
            decreases cells@.len() - k,
        {
            proof {
                assert(cells@.skip(k as int)[0] == cells@[k as int]);
                assert(cells@.skip(k as int).drop_first() =~= cells@.skip(k as int + 1));
            }
            match json_as_u64(&cells[k]) {
                Some(n) => {
                    if n <= 255 {
                        let ghost prevrow = row@;
                        row.push(n as u8);
                        proof {
                            if spec_parse_color_row(cells@.skip(k as int + 1)) is Ok {
                                let rest = spec_parse_color_row(
                                    cells@.skip(k as int + 1),
                                )->Ok_0;
                                assert(prevrow + (seq![(n as u8)] + rest) =~= row@ + rest);
                            }
                        }
                    } else {
                        return Err(LoadError::BadStructure);
                    }
                },
                None => {
                    return Err(LoadError::BadStructure);
                },
            }
            k += 1;
        }
        proof {
            assert(cells@.skip(cells@.len() as int) =~= Seq::<serde_json::Value>::empty());
            assert(row@ + Seq::<u8>::empty() =~= row@);
            assert(spec_parse_color_row(cells@) == Ok::<Seq<u8>, LoadError>(row@));
        }
        let ghost rowv = row@;
        let ghost prevgrid = grid.deep_view();
        let ghost prevvec = grid@;
        grid.push(row);
        proof {
            assert(grid@.len() == prevvec.len() + 1);
            assert forall|j: int| 0 <= j < grid@.len() implies grid.deep_view()[j]
                == prevgrid.push(rowv)[j] by {
                if j < prevvec.len() {
                    assert(grid@[j] == prevvec[j]);
                    assert(prevgrid[j] == prevvec[j].deep_view());
                } else {
                    assert(grid@[j]@ == rowv);
                }
            }
            assert(grid.deep_view() =~= prevgrid.push(rowv));
            if spec_parse_color_rows(rows@.skip(i as int + 1)) is Ok {
                let rest = spec_parse_color_rows(rows@.skip(i as int + 1))->Ok_0;
                assert(prevgrid + (seq![rowv] + rest) =~= grid.deep_view() + rest);
            }
        }
        i += 1;
    }
    proof {
        assert(rows@.skip(rows@.len() as int) =~= Seq::<serde_json::Value>::empty());
        assert(grid.deep_view() + Seq::<Seq<u8>>::empty() =~= grid.deep_view());
    }
    Ok(grid)
}

/// An optional color grid out of a JSON tree, exactly as
/// [`spec_parse_opt_colors`] names it.
fn parse_opt_colors(v: &serde_json::Value, key: &str) -> (r: Result<
    Option<Vec<Vec<u8>>>,
    LoadError,
>)
    ensures
        match spec_parse_opt_colors(*v, key@) {
            Ok(og) => r matches Ok(rg) && rg.deep_view() == og,
            Err(e) => r == Err::<Option<Vec<Vec<u8>>>, LoadError>(e),
        },
{
    match json_get(v, key) {
        None => Ok(None),
        Some(cv) => {
            if json_is_null(cv) {
                Ok(None)
            } else {
                match parse_color_grid(cv) {
                    Ok(g) => Ok(Some(g)),
                    Err(e) => Err(e),
                }
            }
        },
    }
}

/// One animation frame out of a JSON tree, exactly as [`spec_parse_frame`]
/// names it.
fn parse_frame(v: &serde_json::Value) -> (r: Result<Frame, LoadError>)
    ensures
        match spec_parse_frame(*v) {
            Ok(fv) => r matches Ok(f) && f@ == fv,
            Err(e) => r == Err::<Frame, LoadError>(e),
        },
{
    let pixels = match json_get(v, "pixels") {
        None => {
            return Err(LoadError::BadStructure);
        },
        Some(pv) => match parse_char_grid(pv) {
            Ok(g) => g,
            Err(e) => {
                return Err(e);
            },
        },
    };
    let colors = match parse_opt_colors(v, "colors") {
        Ok(c) => c,
        Err(e) => {
            return Err(e);
        },
    };
    Ok(Frame { pixels, colors })
}

/// One animation out of a JSON tree, exactly as [`spec_parse_animation`]
/// names it.
fn parse_animation(v: &serde_json::Value) -> (r: Result<Animation, LoadError>)
    ensures
        match spec_parse_animation(*v) {
            Ok(av) => r matches Ok(a) && a@ == av,
            Err(e) => r == Err::<Animation, LoadError>(e),
        },
{
    let name = match json_get(v, "name") {
        None => {
            return Err(LoadError::BadStructure);
        },
        Some(nv) => match json_as_string(nv) {
            None => {
                return Err(LoadError::BadStructure);
            },
            Some(s) => s,
        },
    };
    let frames_value = match json_get(v, "frames") {
        None => {
            return Err(LoadError::BadStructure);
        },
        Some(fv) => fv,
    };
    let entries = match json_as_array(frames_value) {
        None => {
            return Err(LoadError::BadStructure);
        },
        Some(entries) => entries,
    };
    let mut frames: Vec<Frame> = Vec::new();
    proof {
        assert(entries@.skip(0) =~= entries@);
        if spec_parse_frames(entries@) is Ok {
            let rest = spec_parse_frames(entries@)->Ok_0;
            assert(frames_view(frames@) =~= Seq::<FrameView>::empty());
            assert(frames_view(frames@) + rest =~= rest);
        }
    }
    let mut i: usize = 0;
    while i < entries.len()
        invariant
            0 <= i <= entries@.len(),
            field_of(*v, "name"@) matches Some(nv) && str_of(nv) == Some(name@),
            field_of(*v, "frames"@) matches Some(fv) && arr_of(fv) == Some(entries@),
            spec_parse_frames(entries@) == (match spec_parse_frames(entries@.skip(i as int)) {
                Ok(rest) => Ok::<Seq<FrameView>, LoadError>(frames_view(frames@) + rest),
                Err(e) => Err::<Seq<FrameView>, LoadError>(e),
            }),
        decreases entries@.len() - i,
    {
        proof {
            assert(entries@.skip(i as int)[0] == entries@[i as int]);
            assert(entries@.skip(i as int).drop_first() =~= entries@.skip(i as int + 1));
        }
        match parse_frame(&entries[i]) {
            Ok(f) => {
                let ghost prev = frames_view(frames@);
                let ghost fv = f@;
                frames.push(f);
                proof {
                    assert(frames_view(frames@) =~= prev.push(fv));
                    if spec_parse_frames(entries@.skip(i as int + 1)) is Ok {
                        let rest = spec_parse_frames(entries@.skip(i as int + 1))->Ok_0;
                        assert(prev + (seq![fv] + rest) =~= frames_view(frames@) + rest);
                    }
                }
            },
            Err(e) => {
                return Err(e);
            },
        }
        i += 1;
    }
    proof {
        assert(entries@.skip(entries@.len() as int) =~= Seq::<serde_json::Value>::empty());
        assert(frames_view(frames@) + Seq::<FrameView>::empty() =~= frames_view(frames@));
    }
    Ok(Animation { name, frames })
}

/// An optional animations list out of a JSON tree, exactly as
/// [`spec_parse_opt_animations`] names it.
fn parse_opt_animations(v: &serde_json::Value) -> (r: Result<
    Option<Vec<Animation>>,
    LoadError,
>)
    ensures
        match spec_parse_opt_animations(*v) {
            Ok(None) => r == Ok::<Option<Vec<Animation>>, LoadError>(None),
            Ok(Some(avs)) => r matches Ok(ra) && ra matches Some(anims) && anims_view(anims@)
                == avs,
            Err(e) => r == Err::<Option<Vec<Animation>>, LoadError>(e),
        },
{
    let av = match json_get(v, "animations") {
        None => {
            return Ok(None);
        },
        Some(av) => av,
    };
    if json_is_null(av) {
        return Ok(None);
    }
    let entries = match json_as_array(av) {
        None => {
            return Err(LoadError::BadStructure);
        },
        Some(entries) => entries,
    };
    let mut anims: Vec<Animation> = Vec::new();
    proof {
        assert(entries@.skip(0) =~= entries@);
        if spec_parse_animations(entries@) is Ok {
            let rest = spec_parse_animations(entries@)->Ok_0;
            assert(anims_view(anims@) =~= Seq::<AnimationView>::empty());
            assert(anims_view(anims@) + rest =~= rest);
        }
    }
    let mut i: usize = 0;
    while i < entries.len()
        invariant
            0 <= i <= entries@.len(),
            field_of(*v, "animations"@) matches Some(av2) && !null_of(av2) && arr_of(av2)
                == Some(entries@),
            spec_parse_animations(entries@) == (match spec_parse_animations(
                entries@.skip(i as int),
            ) {
                Ok(rest) => Ok::<Seq<AnimationView>, LoadError>(anims_view(anims@) + rest),
                Err(e) => Err::<Seq<AnimationView>, LoadError>(e),
            }),
        decreases entries@.len() - i,
    {
        proof {
            assert(entries@.skip(i as int)[0] == entries@[i as int]);
            assert(entries@.skip(i as int).drop_first() =~= entries@.skip(i as int + 1));
        }
        match parse_animation(&entries[i]) {
            Ok(a) => {
                let ghost prev = anims_view(anims@);
                let ghost av2 = a@;
                anims.push(a);
                proof {
                    assert(anims_view(anims@) =~= prev.push(av2));
                    if spec_parse_animations(entries@.skip(i as int + 1)) is Ok {
                        let rest = spec_parse_animations(entries@.skip(i as int + 1))->Ok_0;
                        assert(prev + (seq![av2] + rest) =~= anims_view(anims@) + rest);
                    }
                }
            },
            Err(e) => {
                return Err(e);
            },
        }
        i += 1;
    }
    proof {
        assert(entries@.skip(entries@.len() as int) =~= Seq::<serde_json::Value>::empty());
        assert(anims_view(anims@) + Seq::<AnimationView>::empty() =~= anims_view(anims@));
    }
    Ok(Some(anims))
}

/// Loads a sprite from its JSON source text.
///
/// The text must hold one object with a `name` string, a `pixels` grid of
/// one-character strings, an optional (or null) `colors` grid of palette
/// indices, and an optional (or null) `animations` array of named frame
/// lists. Reading the file is the driver's business; this function takes the
/// text and returns exactly what [`spec_load_sprite`] names for it: text
/// that does not parse is refused as malformed, a source of the wrong shape
/// is refused for its first defect, and a source that loads yields a
/// well-formed sprite whose name and grids are the source's own, character
/// for character — every grid shape validated here, once, through
/// [`Sprite::new`], never silently desynchronized later. Loading is not
/// retried. The animation cursor is per-entity state: a fresh entity starts
/// at frame 0.
pub fn load_sprite(source: &str) -> (r: Result<Sprite, LoadError>)
    ensures
        match spec_load_sprite(source@) {
            Ok(sv) => r matches Ok(s) && s@ == sv && s.wf(),
            Err(e) => r == Err::<Sprite, LoadError>(e),
        },
{
    let v = match json_parse(source) {
        None => {
            return Err(LoadError::Malformed);
        },
        Some(v) => v,
    };
    let name = match json_get(&v, "name") {
        None => {
            return Err(LoadError::BadStructure);
        },
        Some(nv) => match json_as_string(nv) {
            None => {
                return Err(LoadError::BadStructure);
            },
            Some(s) => s,
        },
    };
    let pixels = match json_get(&v, "pixels") {
        None => {
            return Err(LoadError::BadStructure);
        },
        Some(pv) => match parse_char_grid(pv) {
            Ok(g) => g,
            Err(e) => {
                return Err(e);
            },
        },
    };
    let colors = match parse_opt_colors(&v, "colors") {
        Ok(c) => c,
        Err(e) => {
            return Err(e);
        },
    };
    let animations = match parse_opt_animations(&v) {
        Ok(a) => a,
        Err(e) => {
            return Err(e);
        },
    };
    let ghost target = Sprite {
        name: name,
        pixels: pixels,
        animations: animations,
        colors: colors,
    };
    proof {
        lemma_sprite_check_view(target);
    }
    Sprite::new(name, pixels, animations, colors)
}

/// Decides whether a sprite is well formed, the way [`Sprite::wf`] states
/// it: a driver that obtained sprite data from anywhere but [`load_sprite`]
/// or [`Sprite::new`] can test it before asking for a render pass.
pub fn check_sprite(s: &Sprite) -> (r: bool)
    ensures
        r == s.wf(),
{
    if !frame_shape_ok(&s.pixels, &s.colors) {
        return false;
    }
    match &s.animations {
        None => true,
        Some(anims) => {
            let mut i: usize = 0;
            while i < anims.len()
                invariant
                    0 <= i <= anims@.len(),
                    s.animations == Some(*anims),
                    frame_wf(s.pixels.deep_view(), s.colors.deep_view()),
                    forall|j: int| 0 <= j < i ==> (#[trigger] anims@[j]).wf(),
                decreases anims@.len() - i,
            {
                let a: &Animation = &anims[i];
                if a.frames.len() == 0 {
                    proof {
                        let anims2 = s.animations->Some_0;
                        assert(anims2 == *anims);
                        assert(!anims2@[i as int].wf());
                        assert(!s.wf());
                    }
                    return false;
                }
                let mut k: usize = 0;
                while k < a.frames.len()
                    invariant
                        0 <= k <= a.frames@.len(),
                        0 <= i < anims@.len(),
                        s.animations == Some(*anims),
                        frame_wf(s.pixels.deep_view(), s.colors.deep_view()),
                        *a == anims@[i as int],
                        a.frames@.len() > 0,
                        forall|j: int| 0 <= j < k ==> (#[trigger] a.frames@[j]).wf(),
                    decreases a.frames@.len() - k,
                {
                    let f: &crate::frame::Frame = &a.frames[k];
                    if !frame_shape_ok(&f.pixels, &f.colors) {
                        proof {
                            let anims2 = s.animations->Some_0;
                            assert(anims2 == *anims);
                            assert(!a.frames@[k as int].wf());
                            assert(!anims2@[i as int].wf());
                            assert(!s.wf());
                        }
                        return false;
                    }
                    k += 1;
                }
                i += 1;
            }
            true
        },
    }
}

} // verus!

