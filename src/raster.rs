//! A character frame and scan conversion of line segments into it.
use vstd::prelude::*;
use vstd::arithmetic::div_mod::{lemma_fundamental_div_mod, lemma_div_pos_is_pos};
use crate::fixed::{FIX, ceil_fix, floor_div, div_floor, ceil_of_fix};
use crate::projection::{ScreenPoint, SCREEN_WIDTH, SCREEN_HEIGHT};

verus! {

/// Glyph of an empty cell: a space.
pub const BLANK: u8 = 32;
/// Glyph of a cell on a steep line: a vertical bar.
pub const VERTICAL: u8 = 124;
/// Glyph of a cell on a shallow line: a hyphen.
pub const HORIZONTAL: u8 = 45;

/// A grid of `SCREEN_HEIGHT` rows of `SCREEN_WIDTH` characters, stored row
/// by row.
#[derive(Debug)]
pub struct Frame {
    cells: Vec<u8>,
}

/// Whether `(row, col)` is a cell of a frame.
pub open spec fn in_frame(row: int, col: int) -> bool {
    0 <= row < SCREEN_HEIGHT && 0 <= col < SCREEN_WIDTH
}

impl Frame {
    /// The frame holds exactly one glyph per cell.
    pub closed spec fn wf(&self) -> bool {
        self.cells@.len() == SCREEN_WIDTH * SCREEN_HEIGHT
    }

    /// The glyph at `(row, col)`.
    pub closed spec fn cell(&self, row: int, col: int) -> u8 {
        self.cells@[row * SCREEN_WIDTH + col]
    }

    /// A frame whose every cell is blank.
    pub fn new() -> (f: Frame)
        ensures
            f.wf(),
            forall|r: int, c: int| in_frame(r, c) ==> #[trigger] f.cell(r, c) == BLANK,
    {
        let mut cells: Vec<u8> = Vec::new();
        let mut i: usize = 0;
        while i < SCREEN_WIDTH * SCREEN_HEIGHT
            invariant
                i <= SCREEN_WIDTH * SCREEN_HEIGHT,
                cells@.len() == i,
                forall|j: int| 0 <= j < i ==> cells@[j] == BLANK,
            decreases SCREEN_WIDTH * SCREEN_HEIGHT - i,
        {
            cells.push(BLANK);
            i = i + 1;
        }
        Frame { cells }
    }

    /// The glyph at `(row, col)`.
    pub fn get(&self, row: usize, col: usize) -> (g: u8)
        requires
            self.wf(),
            in_frame(row as int, col as int),
        ensures
            g == self.cell(row as int, col as int),
    {
        self.cells[row * SCREEN_WIDTH + col]
    }

    /// The glyphs of one row, left to right.
    pub fn row(&self, row: usize) -> (out: Vec<u8>)
        requires
            self.wf(),
            row < SCREEN_HEIGHT,
        ensures
            out@.len() == SCREEN_WIDTH,
            forall|c: int| 0 <= c < SCREEN_WIDTH ==> out@[c] == self.cell(row as int, c),
    {
        let mut out: Vec<u8> = Vec::new();
        let mut c: usize = 0;
        while c < SCREEN_WIDTH
            invariant
                self.wf(),
                row < SCREEN_HEIGHT,
                c <= SCREEN_WIDTH,
                out@.len() == c,
                forall|k: int| 0 <= k < c ==> out@[k] == self.cell(row as int, k),
            decreases SCREEN_WIDTH - c,
        {
            out.push(self.cells[row * SCREEN_WIDTH + c]);
            c = c + 1;
        }
        out
    }

    fn set(&mut self, row: usize, col: usize, g: u8)
        requires
            old(self).wf(),
            in_frame(row as int, col as int),
        ensures
            final(self).wf(),
            forall|r: int, c: int| in_frame(r, c) ==> #[trigger] final(self).cell(r, c)
                == if r == row && c == col { g } else { old(self).cell(r, c) },
    {
        self.cells.set(row * SCREEN_WIDTH + col, g);
    }
}

/// The segment rises or falls by more than it runs.
pub open spec fn is_steep(a: ScreenPoint, b: ScreenPoint) -> bool {
    vstd::math::abs(b.y - a.y) > vstd::math::abs(b.x - a.x)
}

/// The glyph that the segment is drawn with.
pub open spec fn line_glyph(a: ScreenPoint, b: ScreenPoint) -> u8 {
    if is_steep(a, b) { VERTICAL } else { HORIZONTAL }
}

/// First row of a steep segment: the ceiling of its lower `y`.
pub open spec fn first_row(a: ScreenPoint, b: ScreenPoint) -> int {
    ceil_fix(vstd::math::min(a.y as int, b.y as int))
}

/// Row past the last one of a steep segment: the ceiling of its upper `y`.
pub open spec fn end_row(a: ScreenPoint, b: ScreenPoint) -> int {
    ceil_fix(vstd::math::max(a.y as int, b.y as int))
}

/// First column of a shallow segment: the ceiling of its leftmost `x`.
pub open spec fn first_col(a: ScreenPoint, b: ScreenPoint) -> int {
    ceil_fix(vstd::math::min(a.x as int, b.x as int))
}

/// Column past the last one of a shallow segment.
pub open spec fn end_col(a: ScreenPoint, b: ScreenPoint) -> int {
    ceil_fix(vstd::math::max(a.x as int, b.x as int))
}

/// Column that a steep segment crosses on `row`: `x0 + (row - y0) * dx / dy`,
/// rounded down.
pub open spec fn col_at(a: ScreenPoint, b: ScreenPoint, row: int) -> int {
    let (dx, dy) = (b.x - a.x, b.y - a.y);
    floor_div(a.x * dy + (row * FIX - a.y) * dx, FIX * dy)
}

/// Row that a shallow segment crosses on `col`: `y0 + (col - x0) * dy / dx`,
/// rounded down.
pub open spec fn row_at(a: ScreenPoint, b: ScreenPoint, col: int) -> int {
    let (dx, dy) = (b.x - a.x, b.y - a.y);
    floor_div(a.y * dx + (col * FIX - a.x) * dy, FIX * dx)
}

/// Whether drawing the segment from `a` to `b` marks `(row, col)`. A steep
/// segment marks one cell on each row of `[first_row, end_row)`, a shallow
/// one a cell on each column of `[first_col, end_col)`.
pub open spec fn on_line(a: ScreenPoint, b: ScreenPoint, row: int, col: int) -> bool {
    if is_steep(a, b) {
        first_row(a, b) <= row < end_row(a, b) && col == col_at(a, b, row)
    } else {
        first_col(a, b) <= col < end_col(a, b) && row == row_at(a, b, col)
    }
}

/// Every cell that the segment marks lies inside the frame.
pub open spec fn line_in_frame(a: ScreenPoint, b: ScreenPoint) -> bool {
    if is_steep(a, b) {
        forall|r: int| first_row(a, b) <= r < end_row(a, b) ==> in_frame(r, #[trigger] col_at(a, b, r))
    } else {
        forall|c: int| first_col(a, b) <= c < end_col(a, b) ==> in_frame(#[trigger] row_at(a, b, c), c)
    }
}

/// Draws the segment from `start` to `end` into the frame: each cell on the
/// line gets the segment's glyph, every other cell keeps its own.
pub fn draw_line(frame: &mut Frame, start: ScreenPoint, end: ScreenPoint)
    requires
        old(frame).wf(),
        start.bounded(),
        end.bounded(),
        line_in_frame(start, end),
    ensures
        final(frame).wf(),
        forall|r: int, c: int| in_frame(r, c) ==> #[trigger] final(frame).cell(r, c)
            == if on_line(start, end, r, c) { line_glyph(start, end) } else { old(frame).cell(r, c) },
{
    let (x0, y0) = (start.x, start.y);
    let (x1, y1) = (end.x, end.y);
    let (dx, dy) = (x1 - x0, y1 - y0);
    let adx = if dx < 0 { -dx } else { dx };
    let ady = if dy < 0 { -dy } else { dy };
    if ady > adx {
        let ymin = if y0 < y1 { y0 } else { y1 };
        let ymax = if y0 < y1 { y1 } else { y0 };
        let iymin = ceil_of_fix(ymin);
        let iymax = ceil_of_fix(ymax);
        let mut iy = iymin;
        while iy < iymax
            invariant
                frame.wf(),
                start.bounded(),
                end.bounded(),
                line_in_frame(start, end),
                is_steep(start, end),
                x0 == start.x && y0 == start.y && dx == end.x - start.x && dy == end.y - start.y,
                iymin == first_row(start, end),
                iymax == end_row(start, end),
                iymin <= iy <= iymax,
                forall|r: int, c: int| in_frame(r, c) ==> #[trigger] frame.cell(r, c)
                    == if on_line(start, end, r, c) && r < iy { VERTICAL } else { old(frame).cell(r, c) },
            decreases iymax - iy,
        {
            assert(in_frame(iy as int, col_at(start, end, iy as int)));
            let t = iy * FIX - y0;
            assert(-0x400_0000_0000_0000 <= t * dx <= 0x400_0000_0000_0000) by (nonlinear_arith)
                requires -0x2000_0000 <= t <= 0x2000_0000, -0x2000_0000 <= dx <= 0x2000_0000;
            assert(-0x200_0000_0000_0000 <= x0 * dy <= 0x200_0000_0000_0000) by (nonlinear_arith)
                requires -0x1000_0000 <= x0 <= 0x1000_0000, -0x2000_0000 <= dy <= 0x2000_0000;
            let ix = div_floor(x0 * dy + t * dx, FIX * dy);
            frame.set(iy as usize, ix as usize, VERTICAL);
            iy = iy + 1;
        }
    } else {
        let xmin = if x0 < x1 { x0 } else { x1 };
        let xmax = if x0 < x1 { x1 } else { x0 };
        let ixmin = ceil_of_fix(xmin);
        let ixmax = ceil_of_fix(xmax);
        let mut ix = ixmin;
        while ix < ixmax
            invariant
                frame.wf(),
                start.bounded(),
                end.bounded(),
                line_in_frame(start, end),
                !is_steep(start, end),
                x0 == start.x && y0 == start.y && dx == end.x - start.x && dy == end.y - start.y,
                xmin == vstd::math::min(x0 as int, x1 as int),
                xmax == vstd::math::max(x0 as int, x1 as int),
                ixmin == first_col(start, end),
                ixmax == end_col(start, end),
                ixmin <= ix <= ixmax,
                forall|r: int, c: int| in_frame(r, c) ==> #[trigger] frame.cell(r, c)
                    == if on_line(start, end, r, c) && c < ix { HORIZONTAL } else { old(frame).cell(r, c) },
            decreases ixmax - ix,
        {
            assert(in_frame(row_at(start, end, ix as int), ix as int));
            assert(dx != 0);
            let t = ix * FIX - x0;
            assert(-0x400_0000_0000_0000 <= t * dy <= 0x400_0000_0000_0000) by (nonlinear_arith)
                requires -0x2000_0000 <= t <= 0x2000_0000, -0x2000_0000 <= dy <= 0x2000_0000;
            assert(-0x200_0000_0000_0000 <= y0 * dx <= 0x200_0000_0000_0000) by (nonlinear_arith)
                requires -0x1000_0000 <= y0 <= 0x1000_0000, -0x2000_0000 <= dx <= 0x2000_0000;
            let iy = div_floor(y0 * dx + t * dy, FIX * dx);
            frame.set(iy as usize, ix as usize, HORIZONTAL);
            ix = ix + 1;
        }
    }
}

/// Width of the frame in fixed point.
pub const SCREEN_WIDTH_FIX: i64 = 5242880;
/// Height of the frame in fixed point.
pub const SCREEN_HEIGHT_FIX: i64 = 2621440;

/// The point lies in the frame's area: `0 <= x < SCREEN_WIDTH` and
/// `0 <= y < SCREEN_HEIGHT`, in fixed point.
pub open spec fn point_in_frame(p: ScreenPoint) -> bool {
    0 <= p.x < SCREEN_WIDTH_FIX && 0 <= p.y < SCREEN_HEIGHT_FIX
}

/// A segment from a point to itself marks no cell, so drawing it leaves the
/// frame unchanged.
pub proof fn lemma_zero_length_line(a: ScreenPoint)
    ensures
        line_in_frame(a, a),
        forall|r: int, c: int| !#[trigger] on_line(a, a, r, c),
{
}

proof fn lemma_ceil_fix(a: int)
    ensures
        (ceil_fix(a) - 1) * FIX < a <= ceil_fix(a) * FIX,
{
    lemma_fundamental_div_mod(-a, FIX as int);
}

proof fn lemma_interpolation_in_range(c0: int, c1: int, e: int, s: int, w: int)
    requires
        0 <= c0 < w * FIX,
        0 <= c1 < w * FIX,
        0 <= s <= e,
        e > 0,
    ensures
        0 <= (c0 * (e - s) + c1 * s) / (FIX * e) < w,
{
    let n = c0 * (e - s) + c1 * s;
    let d = FIX * e;
    assert(0 <= n < w * d) by (nonlinear_arith)
        requires 0 <= c0 < w * FIX, 0 <= c1 < w * FIX, 0 <= s <= e, e > 0, n == c0 * (e - s) + c1 * s, d == FIX * e;
    lemma_div_pos_is_pos(n, d);
    lemma_fundamental_div_mod(n, d);
    let (q, r) = (n / d, n % d);
    assert(q < w) by (nonlinear_arith)
        requires n == d * q + r, 0 <= r, n < w * d, d > 0;
}

/// A segment along axis `a` from `a0` to `a1`, crossing axis `c` from `c0` to
/// `c1`: on every whole step `k` of `[ceil(min a), ceil(max a))` it lies in
/// `[0, wa)`, and its crossing coordinate, rounded down, in `[0, wc)`.
proof fn lemma_steps_in_range(a0: int, a1: int, c0: int, c1: int, k: int, wa: int, wc: int)
    requires
        0 <= a0 < wa * FIX,
        0 <= a1 < wa * FIX,
        0 <= c0 < wc * FIX,
        0 <= c1 < wc * FIX,
        ceil_fix(vstd::math::min(a0, a1)) <= k < ceil_fix(vstd::math::max(a0, a1)),
    ensures
        a0 != a1,
        0 <= k < wa,
        0 <= floor_div(c0 * (a1 - a0) + (k * FIX - a0) * (c1 - c0), FIX * (a1 - a0)) < wc,
{
    let lo = vstd::math::min(a0, a1);
    let hi = vstd::math::max(a0, a1);
    lemma_ceil_fix(lo);
    lemma_ceil_fix(hi);
    assert(lo <= k * FIX < hi) by (nonlinear_arith)
        requires (ceil_fix(lo) - 1) * FIX < lo <= ceil_fix(lo) * FIX,
            (ceil_fix(hi) - 1) * FIX < hi <= ceil_fix(hi) * FIX,
            ceil_fix(lo) <= k < ceil_fix(hi);
    assert(0 <= k < wa) by (nonlinear_arith)
        requires 0 <= lo, hi < wa * FIX, lo <= k * FIX < hi;
    let t = k * FIX - a0;
    if a0 < a1 {
        let e = a1 - a0;
        assert(c0 * e + t * (c1 - c0) == c0 * (e - t) + c1 * t) by (nonlinear_arith);
        lemma_interpolation_in_range(c0, c1, e, t, wc);
    } else {
        let e = a0 - a1;
        assert(-(c0 * (a1 - a0) + t * (c1 - c0)) == c0 * (e + t) + c1 * (-t)) by (nonlinear_arith)
            requires e == a0 - a1;
        assert(-(FIX * (a1 - a0)) == FIX * e) by (nonlinear_arith)
            requires e == a0 - a1;
        assert(c0 * (e + t) == c0 * (e - (-t)));
        lemma_interpolation_in_range(c0, c1, e, -t, wc);
    }
}

/// A segment between two points of the frame's area marks only cells of the
/// frame.
pub proof fn lemma_segment_in_frame(a: ScreenPoint, b: ScreenPoint)
    requires
        point_in_frame(a),
        point_in_frame(b),
    ensures
        line_in_frame(a, b),
{
    let (w, h) = (SCREEN_WIDTH as int, SCREEN_HEIGHT as int);
    assert(SCREEN_WIDTH_FIX == w * FIX && SCREEN_HEIGHT_FIX == h * FIX);
    if is_steep(a, b) {
        assert forall|r: int| first_row(a, b) <= r < end_row(a, b) implies in_frame(r, #[trigger] col_at(a, b, r)) by {
            lemma_steps_in_range(a.y as int, b.y as int, a.x as int, b.x as int, r, h, w);
        }
    } else {
        assert forall|c: int| first_col(a, b) <= c < end_col(a, b) implies in_frame(#[trigger] row_at(a, b, c), c) by {
            lemma_steps_in_range(a.x as int, b.x as int, a.y as int, b.y as int, c, w, h);
        }
    }
}

} // verus!
