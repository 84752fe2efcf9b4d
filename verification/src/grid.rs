//! The drawing of a pallet: one filled square per color, eight to a row.

use vstd::prelude::*;
use crate::color::RGBColor;

verus! {

/// Side of the square drawn for one color.
pub const SQUARE_WIDTH: u32 = 100;

/// Squares per row of the drawing.
pub const SQUARES_PER_ROW: u32 = 8;

/// The longest pallet whose drawing still has a height within `u32`.
pub const MAX_PALLET_LEN: usize = 343_597_376;

/// A filled, unstroked rectangle whose top left corner is at (`x`, `y`).
#[derive(Clone, Copy, PartialEq, Eq, Structural)]
pub struct Rect {
    pub x: u32,
    pub y: u32,
    pub width: u32,
    pub height: u32,
    pub fill: RGBColor,
}

/// A rectangle over the integers.
pub struct RectView {
    pub x: int,
    pub y: int,
    pub width: int,
    pub height: int,
    pub fill: RGBColor,
}

impl View for Rect {
    type V = RectView;

    open spec fn view(&self) -> RectView {
        RectView {
            x: self.x as int,
            y: self.y as int,
            width: self.width as int,
            height: self.height as int,
            fill: self.fill,
        }
    }
}

/// A drawing: its extent and its rectangles, from bottom to top.
pub struct Canvas {
    pub width: u32,
    pub height: u32,
    pub rects: Vec<Rect>,
}

/// A drawing over the integers.
pub struct CanvasView {
    pub width: int,
    pub height: int,
    pub rects: Seq<RectView>,
}

impl View for Canvas {
    type V = CanvasView;

    open spec fn view(&self) -> CanvasView {
        CanvasView {
            width: self.width as int,
            height: self.height as int,
            rects: Seq::new(self.rects@.len(), |i: int| self.rects@[i]@),
        }
    }
}

/// Rows needed for `len` squares: `len / 8`, rounded up.
pub open spec fn row_count(len: nat) -> nat {
    (len + SQUARES_PER_ROW - 1) as nat / SQUARES_PER_ROW as nat
}

/// The square of the color at index `i`: column `i mod 8`, row `i div 8`.
pub open spec fn grid_square(i: int, fill: RGBColor) -> RectView {
    RectView {
        x: (i % SQUARES_PER_ROW as int) * SQUARE_WIDTH,
        y: (i / SQUARES_PER_ROW as int) * SQUARE_WIDTH,
        width: SQUARE_WIDTH as int,
        height: SQUARE_WIDTH as int,
        fill,
    }
}

/// The drawing of a pallet: eight squares wide, as many rows high as the
/// colors need, the square of each color at the place of its index.
pub open spec fn grid_canvas(pallet: Seq<RGBColor>) -> CanvasView {
    CanvasView {
        width: SQUARES_PER_ROW * SQUARE_WIDTH,
        height: row_count(pallet.len()) * SQUARE_WIDTH,
        rects: Seq::new(pallet.len(), |i: int| grid_square(i, pallet[i])),
    }
}

/// Lays the pallet out as a grid of squares. The height of the canvas has to
/// fit in `u32`, which it does for up to `MAX_PALLET_LEN` colors.
pub fn draw_pallet(pallet: &[RGBColor]) -> (canvas: Canvas)
    requires
        pallet@.len() <= MAX_PALLET_LEN,
    ensures
        canvas@ == grid_canvas(pallet@),
{
    let len = pallet.len();
    let per_row: usize = SQUARES_PER_ROW as usize;
    let rows: usize = if len % per_row == 0 {
        len / per_row
    } else {
        len / per_row + 1
    };
    let width: u32 = SQUARES_PER_ROW * SQUARE_WIDTH;
    let height: u32 = rows as u32 * SQUARE_WIDTH;
    let mut rects: Vec<Rect> = Vec::new();
    for i in 0..len
        invariant
            len == pallet@.len(),
            len <= MAX_PALLET_LEN,
            per_row == SQUARES_PER_ROW,
            rects@.len() == i,
            forall|j: int| 0 <= j < i ==> (#[trigger] rects@[j])@ == grid_square(j, pallet@[j]),
    {
        let x: u32 = (i % per_row) as u32 * SQUARE_WIDTH;
        let y: u32 = (i / per_row) as u32 * SQUARE_WIDTH;
        rects.push(Rect { x, y, width: SQUARE_WIDTH, height: SQUARE_WIDTH, fill: pallet[i] });
    }
    let canvas = Canvas { width, height, rects };
    proof {
        assert(canvas@.rects =~= grid_canvas(pallet@).rects);
    }
    canvas
}

/// Lays the pallet out as `draw_pallet` does, or gives `None` where the
/// pallet is too long for the height of its drawing to fit in `u32`.
pub fn try_draw_pallet(pallet: &[RGBColor]) -> (canvas: Option<Canvas>)
    ensures
        match canvas {
            Some(drawn) => pallet@.len() <= MAX_PALLET_LEN && drawn@ == grid_canvas(pallet@),
            None => pallet@.len() > MAX_PALLET_LEN,
        },
{
    if pallet.len() <= MAX_PALLET_LEN {
        Some(draw_pallet(pallet))
    } else {
        None
    }
}

/// The row count is `len / 8` rounded up: the rows hold all the squares, and
/// the last row is not empty.
pub proof fn lemma_row_count_is_ceiling(len: nat)
    ensures
        row_count(len) * SQUARES_PER_ROW >= len,
        len > 0 ==> (row_count(len) - 1) * SQUARES_PER_ROW < len,
        len == 0 ==> row_count(len) == 0,
{
}

/// Every square of the drawing lies within the canvas.
pub proof fn lemma_squares_fit(pallet: Seq<RGBColor>, i: int)
    requires
        0 <= i < pallet.len(),
    ensures
        ({
            let canvas = grid_canvas(pallet);
            let square = canvas.rects[i];
            &&& 0 <= square.x
            &&& square.x + square.width <= canvas.width
            &&& 0 <= square.y
            &&& square.y + square.height <= canvas.height
        }),
{
}

/// No two squares of the drawing overlap.
pub proof fn lemma_squares_disjoint(pallet: Seq<RGBColor>, i: int, j: int)
    requires
        0 <= i < pallet.len(),
        0 <= j < pallet.len(),
        i != j,
    ensures
        ({
            let a = grid_canvas(pallet).rects[i];
            let b = grid_canvas(pallet).rects[j];
            ||| a.x + a.width <= b.x
            ||| b.x + b.width <= a.x
            ||| a.y + a.height <= b.y
            ||| b.y + b.height <= a.y
        }),
{
}

} // verus!
