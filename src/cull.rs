//! Screen-space back-face culling.
use vstd::prelude::*;
use crate::projection::ScreenPoint;

verus! {

/// Largest magnitude of a screen coordinate that the cull test accepts.
pub const COORD_LIMIT: i64 = 268435456;

impl ScreenPoint {
    /// Both coordinates lie within `COORD_LIMIT` in magnitude.
    pub open spec fn bounded(self) -> bool {
        -COORD_LIMIT <= self.x <= COORD_LIMIT && -COORD_LIMIT <= self.y <= COORD_LIMIT
    }
}

/// The 2D cross product of the edges `p1 - p0` and `p2 - p1`.
pub open spec fn winding(p0: ScreenPoint, p1: ScreenPoint, p2: ScreenPoint) -> int {
    (p1.x - p0.x) * (p2.y - p1.y) - (p2.x - p1.x) * (p1.y - p0.y)
}

/// A face whose first three screen vertices wind with a positive cross
/// product faces away from the viewer. A zero cross product is not culled.
pub open spec fn is_culled(p0: ScreenPoint, p1: ScreenPoint, p2: ScreenPoint) -> bool {
    winding(p0, p1, p2) > 0
}

/// Whether the face whose first three screen vertices are `p0`, `p1`, `p2`
/// faces away from the viewer and is to be skipped.
pub fn cull(p0: ScreenPoint, p1: ScreenPoint, p2: ScreenPoint) -> (r: bool)
    requires
        p0.bounded(),
        p1.bounded(),
        p2.bounded(),
    ensures
        r == is_culled(p0, p1, p2),
{
    let dx = [p1.x - p0.x, p2.x - p1.x];
    let dy = [p1.y - p0.y, p2.y - p1.y];
    assert(-0x400_0000_0000_0000 <= dx[0] * dy[1] <= 0x400_0000_0000_0000) by (nonlinear_arith)
        requires -0x2000_0000 <= dx[0] <= 0x2000_0000, -0x2000_0000 <= dy[1] <= 0x2000_0000;
    assert(-0x400_0000_0000_0000 <= dx[1] * dy[0] <= 0x400_0000_0000_0000) by (nonlinear_arith)
        requires -0x2000_0000 <= dx[1] <= 0x2000_0000, -0x2000_0000 <= dy[0] <= 0x2000_0000;
    dx[0] * dy[1] > dx[1] * dy[0]
}

/// Reversing the order of three points negates their winding, so it flips
/// the cull decision; where the cross product is zero neither order is
/// culled.
pub proof fn lemma_cull_reversal(p0: ScreenPoint, p1: ScreenPoint, p2: ScreenPoint)
    ensures
        winding(p2, p1, p0) == -winding(p0, p1, p2),
        winding(p0, p1, p2) != 0 ==> is_culled(p2, p1, p0) == !is_culled(p0, p1, p2),
        winding(p0, p1, p2) == 0 ==> !is_culled(p0, p1, p2) && !is_culled(p2, p1, p0),
{
    let (ax, ay, bx, by) = (p1.x - p0.x, p1.y - p0.y, p2.x - p1.x, p2.y - p1.y);
    assert((-bx) * (-ay) - (-ax) * (-by) == -(ax * by - bx * ay)) by (nonlinear_arith);
}

} // verus!
