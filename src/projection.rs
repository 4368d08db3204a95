//! Perspective projection of camera-space points onto the character grid.
use vstd::prelude::*;
use vstd::arithmetic::div_mod::{lemma_fundamental_div_mod, lemma_div_is_ordered_by_denominator, lemma_div_pos_is_pos};
use vstd::math::abs;
use crate::fixed::{FIX, floor_div, div_floor};
use crate::linalg::{Vector, within_limit};

verus! {

/// Number of character columns in a frame.
pub const SCREEN_WIDTH: usize = 80;
/// Number of character rows in a frame.
pub const SCREEN_HEIGHT: usize = 40;
/// Horizontal viewport scale, in columns: half the frame's width.
pub const SCALE_X: i64 = 40;
/// Vertical viewport scale, in rows: half the frame's height.
pub const SCALE_Y: i64 = 20;
/// Column of the viewport's centre.
pub const OFFSET_X: i64 = 40;
/// Row of the viewport's centre.
pub const OFFSET_Y: i64 = 20;

/// A point on the character grid in fixed point: `x` counts columns, `y` rows.
#[derive(Clone, Copy, Debug, PartialEq, Eq)]
pub struct ScreenPoint {
    pub x: i64,
    pub y: i64,
}

/// Screen coordinate of a camera-space coordinate `a` at depth `z`, for a
/// viewport of the given scale and offset (both in whole cells): `a / z`
/// scaled and offset, in fixed point, rounded down.
pub open spec fn screen_coord(a: int, z: int, scale: int, offset: int) -> int {
    floor_div(a * scale * FIX, z) + offset * FIX
}

/// The screen position of a camera-space point.
pub open spec fn projected(p: Vector) -> ScreenPoint {
    ScreenPoint {
        x: screen_coord(p.0[0] as int, p.0[2] as int, SCALE_X as int, OFFSET_X as int) as i64,
        y: screen_coord(p.0[1] as int, p.0[2] as int, SCALE_Y as int, OFFSET_Y as int) as i64,
    }
}

/// A point that `project` accepts: its depth is nonzero, and its
/// coordinates are within `LIMIT`.
pub open spec fn projectable(p: Vector) -> bool {
    &&& p.0[2] != 0
    &&& within_limit(p.0[0] as int)
    &&& within_limit(p.0[1] as int)
    &&& within_limit(p.0[2] as int)
}

fn project_coord(a: i64, z: i64, scale: i64, offset: i64) -> (r: i64)
    requires
        z != 0,
        within_limit(a as int),
        within_limit(z as int),
        1 <= scale <= 64,
        0 <= offset <= 64,
    ensures
        r == screen_coord(a as int, z as int, scale as int, offset as int),
{
    assert(-0x4000_0000_0000 <= a * scale * FIX <= 0x4000_0000_0000) by (nonlinear_arith)
        requires within_limit(a as int), 1 <= scale <= 64;
    let q = div_floor(a * scale * FIX, z);
    proof {
        let n = a * scale * FIX;
        let (num, den) = if z > 0 { (n, z as int) } else { (-n, -z) };
        if num >= 0 {
            lemma_div_pos_is_pos(num, den);
            lemma_div_is_ordered_by_denominator(num, 1, den);
        } else {
            lemma_div_pos_is_pos(-num, den);
            lemma_div_is_ordered_by_denominator(-num, 1, den);
            lemma_floor_negated(num, den);
        }
    }
    q + offset * FIX
}

/// For `n < 0`, `n / d` lies between `-(-n / d) - 1` and `-(-n / d)`.
proof fn lemma_floor_negated(n: int, d: int)
    requires
        n < 0,
        d > 0,
    ensures
        -((-n) / d) - 1 <= n / d <= -((-n) / d),
{
    lemma_fundamental_div_mod(n, d);
    lemma_fundamental_div_mod(-n, d);
    let (q, r, q2, r2) = (n / d, n % d, (-n) / d, (-n) % d);
    assert(-q2 - 1 <= q <= -q2) by (nonlinear_arith)
        requires n == d * q + r, -n == d * q2 + r2, 0 <= r < d, 0 <= r2 < d, d > 0;
}

/// Perspective division of a camera-space point: its `x` and `y` divided by
/// its depth `z`, scaled by half the viewport and offset to the viewport's
/// centre.
pub fn project(p: &Vector) -> (r: ScreenPoint)
    requires
        projectable(*p),
    ensures
        r == projected(*p),
{
    let x = project_coord(p.0[0], p.0[2], SCALE_X, OFFSET_X);
    let y = project_coord(p.0[1], p.0[2], SCALE_Y, OFFSET_Y);
    ScreenPoint { x, y }
}

/// For a negative numerator, a larger positive divisor gives a floor that is
/// no further from zero.
proof fn lemma_negative_floor_shrinks(n: int, d1: int, d2: int)
    requires
        n < 0,
        0 < d1 <= d2,
    ensures
        n / d1 <= n / d2 < 0,
{
    lemma_fundamental_div_mod(n, d1);
    lemma_fundamental_div_mod(n, d2);
    let (q1, r1, q2, r2) = (n / d1, n % d1, n / d2, n % d2);
    assert(q2 < 0) by (nonlinear_arith)
        requires n == d2 * q2 + r2, 0 <= r2 < d2, n < 0;
    assert(q1 < 0) by (nonlinear_arith)
        requires n == d1 * q1 + r1, 0 <= r1 < d1, n < 0;
    assert(q1 <= q2) by (nonlinear_arith)
        requires n == d1 * q1 + r1, n == d2 * q2 + r2, 0 <= r1 < d1, 0 <= r2 < d2, 0 < d1 <= d2, q1 < 0;
}

/// The distance of `floor(n / d)` from zero does not grow with `d`.
proof fn lemma_floor_shrinks(n: int, d1: int, d2: int)
    requires
        0 < d1 <= d2,
    ensures
        n >= 0 ==> 0 <= n / d2 <= n / d1,
        n < 0 ==> n / d1 <= n / d2 < 0,
{
    if n >= 0 {
        lemma_div_pos_is_pos(n, d2);
        lemma_div_is_ordered_by_denominator(n, d1, d2);
    } else {
        lemma_negative_floor_shrinks(n, d1, d2);
    }
}

/// A point in front of the camera at depth `z = -d` projects no further from
/// the viewport's centre, in either axis, as `d` grows.
pub proof fn lemma_projection_toward_center(x: int, y: int, d1: int, d2: int)
    requires
        0 < d1 <= d2,
    ensures
        abs(screen_coord(x, -d2, SCALE_X as int, OFFSET_X as int) - OFFSET_X * FIX)
            <= abs(screen_coord(x, -d1, SCALE_X as int, OFFSET_X as int) - OFFSET_X * FIX),
        abs(screen_coord(y, -d2, SCALE_Y as int, OFFSET_Y as int) - OFFSET_Y * FIX)
            <= abs(screen_coord(y, -d1, SCALE_Y as int, OFFSET_Y as int) - OFFSET_Y * FIX),
{
    lemma_floor_shrinks(-(x * SCALE_X * FIX), d1, d2);
    lemma_floor_shrinks(-(y * SCALE_Y * FIX), d1, d2);
}

} // verus!
