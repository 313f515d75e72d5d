//! A frame: one pixel grid with an optional parallel color grid.

use vstd::prelude::*;

verus! {

/// One drawable grid, either a sprite's static picture or one step of an
/// animation. `pixels[row][col]` is the character drawn at that cell; when
/// `colors` is present, `colors[row][col]` is the terminal palette index
/// (0–255) set for that cell.
#[derive(Clone, PartialEq, Debug)]
pub struct Frame {
    pub pixels: Vec<Vec<char>>,
    pub colors: Option<Vec<Vec<u8>>>,
}

/// A row of characters seen one level deep is just its sequence of characters.
pub broadcast proof fn lemma_char_row_deep_view(v: Vec<char>)
    ensures
        #[trigger] v.deep_view() == v@,
{
    assert(v.deep_view() =~= v@);
}

/// A row of color indices seen one level deep is just its sequence of bytes.
pub broadcast proof fn lemma_color_row_deep_view(v: Vec<u8>)
    ensures
        #[trigger] v.deep_view() == v@,
{
    assert(v.deep_view() =~= v@);
}

/// The color grid has exactly the shape of the pixel grid: the same number
/// of rows, and row for row the same length. A shorter color grid would let
/// color assignment drift away from the cell it belongs to, so loading
/// rejects any mismatch.
pub open spec fn grids_same_shape(pixels: Seq<Seq<char>>, colors: Seq<Seq<u8>>) -> bool {
    &&& colors.len() == pixels.len()
    &&& forall|i: int| 0 <= i < pixels.len() ==> #[trigger] colors[i].len() == pixels[i].len()
}

/// A pixel grid together with an optional color grid is well formed when the
/// color grid, if present, has the pixel grid's shape.
pub open spec fn frame_wf(pixels: Seq<Seq<char>>, colors: Option<Seq<Seq<u8>>>) -> bool {
    match colors {
        Some(c) => grids_same_shape(pixels, c),
        None => true,
    }
}

/// The mathematical value of a frame: its grids as plain sequences.
pub struct FrameView {
    pub pixels: Seq<Seq<char>>,
    pub colors: Option<Seq<Seq<u8>>>,
}

impl View for Frame {
    type V = FrameView;

    open spec fn view(&self) -> FrameView {
        FrameView { pixels: self.pixels.deep_view(), colors: self.colors.deep_view() }
    }
}

impl Frame {
    pub open spec fn wf(self) -> bool {
        frame_wf(self.pixels.deep_view(), self.colors.deep_view())
    }
}

/// Decides whether an optional color grid matches a pixel grid cell for cell.
pub fn frame_shape_ok(pixels: &Vec<Vec<char>>, colors: &Option<Vec<Vec<u8>>>) -> (r: bool)
    ensures
        r == frame_wf(pixels.deep_view(), colors.deep_view()),
{
    broadcast use lemma_char_row_deep_view, lemma_color_row_deep_view;

    match colors {
        None => true,
        Some(cols) => {
            if cols.len() != pixels.len() {
                return false;
            }
            let mut i: usize = 0;
            while i < pixels.len()
                invariant
                    0 <= i <= pixels@.len(),
                    cols@.len() == pixels@.len(),
                    colors.deep_view() == Some(cols.deep_view()),
                    forall|j: int| 0 <= j < i
                        ==> #[trigger] cols.deep_view()[j].len() == pixels.deep_view()[j].len(),
                decreases pixels@.len() - i,
            {
                if cols[i].len() != pixels[i].len() {
                    assert(cols.deep_view()[i as int].len() != pixels.deep_view()[i as int].len());
                    return false;
                }
                i += 1;
            }
            true
        },
    }
}

} // verus!
