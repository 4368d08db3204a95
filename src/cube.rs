//! The cube mesh and the frame driver: transform, project, cull and draw.
use vstd::prelude::*;
use crate::fixed::FIX;
use crate::linalg::{Matrix, Vector, matrix_times_vector, product_component, within_limit};
use crate::projection::{ScreenPoint, SCALE_X, SCALE_Y, OFFSET_X, OFFSET_Y, screen_coord, project, projectable};
use crate::cull::{cull, is_culled};
use crate::raster::{Frame, BLANK, draw_line, in_frame, line_glyph, on_line, point_in_frame, lemma_segment_in_frame, SCREEN_WIDTH_FIX, SCREEN_HEIGHT_FIX};

verus! {

/// How far the camera sits from the cube's centre, in fixed point: 2.5 units.
pub const CAMERA_DISTANCE: i64 = 163840;

/// Number of corners of the cube.
pub const VERTEX_COUNT: usize = 8;

/// Number of faces of the cube.
pub const FACE_COUNT: usize = 6;

/// A coordinate of a corner: one unit on the positive side or the negative one.
pub open spec fn unit(positive: bool) -> i64 {
    if positive { FIX } else { (-FIX) as i64 }
}

/// Corner `i` of the cube, with `x`, `y` and `z` in `{-1, 1}` and `w = 1`.
/// Bit 0 of `i` gives `z`, bit 1 gives `x`, bit 2 gives `y`.
pub open spec fn cube_vertex(i: int) -> Vector {
    if i == 0 { Vector([unit(false), unit(false), unit(false), FIX]) }
    else if i == 1 { Vector([unit(false), unit(false), unit(true), FIX]) }
    else if i == 2 { Vector([unit(true), unit(false), unit(false), FIX]) }
    else if i == 3 { Vector([unit(true), unit(false), unit(true), FIX]) }
    else if i == 4 { Vector([unit(false), unit(true), unit(false), FIX]) }
    else if i == 5 { Vector([unit(false), unit(true), unit(true), FIX]) }
    else if i == 6 { Vector([unit(true), unit(true), unit(false), FIX]) }
    else { Vector([unit(true), unit(true), unit(true), FIX]) }
}

/// Entry `k` of the four `a`, `b`, `c`, `d`.
pub open spec fn pick(k: int, a: int, b: int, c: int, d: int) -> int {
    if k == 0 { a } else if k == 1 { b } else if k == 2 { c } else { d }
}

/// Corner index `k` of face `f`. All six faces wind the same way.
pub open spec fn face_vertex(f: int, k: int) -> int {
    if f == 0 { pick(k, 1, 5, 7, 3) }
    else if f == 1 { pick(k, 3, 7, 6, 2) }
    else if f == 2 { pick(k, 0, 4, 5, 1) }
    else if f == 3 { pick(k, 2, 6, 4, 0) }
    else if f == 4 { pick(k, 0, 1, 3, 2) }
    else { pick(k, 5, 4, 6, 7) }
}

/// The eight corners of the cube.
pub fn cube_vertices() -> (r: [Vector; 8])
    ensures
        forall|i: int| 0 <= i < VERTEX_COUNT ==> #[trigger] r[i] == cube_vertex(i),
{
    let n = -FIX;
    let p = FIX;
    let r = [
        Vector([n, n, n, p]),
        Vector([n, n, p, p]),
        Vector([p, n, n, p]),
        Vector([p, n, p, p]),
        Vector([n, p, n, p]),
        Vector([n, p, p, p]),
        Vector([p, p, n, p]),
        Vector([p, p, p, p]),
    ];
    assert forall|i: int| 0 <= i < VERTEX_COUNT implies #[trigger] r[i] == cube_vertex(i) by {
        if i == 0 {} else if i == 1 {} else if i == 2 {} else if i == 3 {}
        else if i == 4 {} else if i == 5 {} else if i == 6 {} else {}
    }
    r
}

/// The six faces of the cube, each as four corner indices.
pub fn cube_faces() -> (r: [[u8; 4]; 6])
    ensures
        forall|f: int, k: int| 0 <= f < FACE_COUNT && 0 <= k < 4 ==> #[trigger] r[f][k] == face_vertex(f, k),
{
    let r: [[u8; 4]; 6] = [
        [1, 5, 7, 3],
        [3, 7, 6, 2],
        [0, 4, 5, 1],
        [2, 6, 4, 0],
        [0, 1, 3, 2],
        [5, 4, 6, 7],
    ];
    assert forall|f: int, k: int| 0 <= f < FACE_COUNT && 0 <= k < 4 implies #[trigger] r[f][k] == face_vertex(f, k) by {
        if f == 0 {} else if f == 1 {} else if f == 2 {} else if f == 3 {} else if f == 4 {} else {}
    }
    r
}

/// A rotation given by its cosine and sine in fixed point, each within one unit.
pub open spec fn rotation_ok(cos: i64, sin: i64) -> bool {
    -FIX <= cos <= FIX && -FIX <= sin <= FIX
}

/// The transform from the cube's space to the camera's: a rotation about the
/// `y` axis by the angle whose cosine and sine are given, then a move of
/// `CAMERA_DISTANCE` away from the camera along `z`. Each row is one column
/// of the conceptual matrix.
pub open spec fn cube_to_world(cos: i64, sin: i64) -> Matrix {
    Matrix([
        [cos, 0, sin, 0],
        [0, FIX, 0, 0],
        [(-sin) as i64, 0, cos, 0],
        [0, 0, (-CAMERA_DISTANCE) as i64, FIX],
    ])
}

/// Where corner `i` of the cube lands on the screen under the rotation.
pub open spec fn screen_vertex(cos: i64, sin: i64, i: int) -> ScreenPoint {
    let m = cube_to_world(cos, sin);
    let v = cube_vertex(i);
    ScreenPoint {
        x: screen_coord(product_component(m, v, 0), product_component(m, v, 2), SCALE_X as int, OFFSET_X as int) as i64,
        y: screen_coord(product_component(m, v, 1), product_component(m, v, 2), SCALE_Y as int, OFFSET_Y as int) as i64,
    }
}

/// The screen positions of all corners, in corner order.
pub open spec fn screen_vertices(cos: i64, sin: i64) -> Seq<ScreenPoint> {
    Seq::new(VERTEX_COUNT as nat, |i: int| screen_vertex(cos, sin, i))
}

/// The screen positions of the four corners of face `f`.
pub open spec fn face_corners(pts: Seq<ScreenPoint>, f: int) -> Seq<ScreenPoint> {
    Seq::new(4, |k: int| pts[face_vertex(f, k)])
}

/// The four edges of a face in drawing order: each corner joined to the one
/// before it, the first to the last.
pub open spec fn outline(q: Seq<ScreenPoint>) -> Seq<(ScreenPoint, ScreenPoint)> {
    Seq::new(4, |k: int| (q[k], q[if k == 0 { 3 } else { k - 1 }]))
}

/// Face `f` is drawn: the cull test on its first three corners fails.
pub open spec fn face_visible(pts: Seq<ScreenPoint>, f: int) -> bool {
    let q = face_corners(pts, f);
    !is_culled(q[0], q[1], q[2])
}

/// The segments drawn for the first `n` faces, in order.
pub open spec fn scene_lines(pts: Seq<ScreenPoint>, n: nat) -> Seq<(ScreenPoint, ScreenPoint)>
    decreases n,
{
    if n == 0 {
        Seq::empty()
    } else {
        let before = scene_lines(pts, (n - 1) as nat);
        if face_visible(pts, n - 1) { before + outline(face_corners(pts, n - 1)) } else { before }
    }
}

/// The glyph at `(row, col)` after drawing `lines` in order into a blank
/// frame: that of the last segment that marks the cell, else blank.
pub open spec fn painted(lines: Seq<(ScreenPoint, ScreenPoint)>, row: int, col: int) -> u8
    decreases lines.len(),
{
    if lines.len() == 0 {
        BLANK
    } else {
        let (a, b) = lines.last();
        if on_line(a, b, row, col) { line_glyph(a, b) } else { painted(lines.drop_last(), row, col) }
    }
}

proof fn lemma_painted_push(lines: Seq<(ScreenPoint, ScreenPoint)>, a: ScreenPoint, b: ScreenPoint)
    ensures
        forall|r: int, c: int| #[trigger] painted(lines.push((a, b)), r, c)
            == if on_line(a, b, r, c) { line_glyph(a, b) } else { painted(lines, r, c) },
{
    assert(lines.push((a, b)).drop_last() =~= lines);
}

/// The transform for the rotation whose cosine and sine are given.
pub fn rotation_transform(cos: i64, sin: i64) -> (m: Matrix)
    requires
        rotation_ok(cos, sin),
    ensures
        m == cube_to_world(cos, sin),
        m.bounded(),
{
    Matrix([
        [cos, 0, sin, 0],
        [0, FIX, 0, 0],
        [-sin, 0, cos, 0],
        [0, 0, -CAMERA_DISTANCE, FIX],
    ])
}

proof fn lemma_corner_projectable(cos: i64, sin: i64, i: int)
    requires
        rotation_ok(cos, sin),
        0 <= i < VERTEX_COUNT,
    ensures
        cube_vertex(i).bounded(),
        within_limit(product_component(cube_to_world(cos, sin), cube_vertex(i), 0)),
        within_limit(product_component(cube_to_world(cos, sin), cube_vertex(i), 1)),
        within_limit(product_component(cube_to_world(cos, sin), cube_vertex(i), 2)),
        product_component(cube_to_world(cos, sin), cube_vertex(i), 2) < 0,
{
    let m = cube_to_world(cos, sin);
    let v = cube_vertex(i);
    let (x, y, z) = (v.0[0] as int, v.0[1] as int, v.0[2] as int);
    assert(x == FIX || x == -FIX);
    assert(y == FIX || y == -FIX);
    assert(z == FIX || z == -FIX);
    assert(v.0[3] == FIX);
    let (c, s) = (cos as int, sin as int);
    let (sx, sz) = (if x == FIX { 1int } else { -1 }, if z == FIX { 1int } else { -1 });
    let sy = if y == FIX { 1int } else { -1 };
    assert(x * c + z * (-s) == FIX * (sx * c - sz * s)) by (nonlinear_arith)
        requires x == sx * FIX, z == sz * FIX;
    assert(y * FIX == FIX * (sy * FIX)) by (nonlinear_arith)
        requires y == sy * FIX;
    assert(x * s + z * c + FIX * (-CAMERA_DISTANCE) == FIX * (sx * s + sz * c - CAMERA_DISTANCE)) by (nonlinear_arith)
        requires x == sx * FIX, z == sz * FIX;
    vstd::arithmetic::div_mod::lemma_div_multiples_vanish(sx * c - sz * s, FIX as int);
    vstd::arithmetic::div_mod::lemma_div_multiples_vanish(sy * FIX, FIX as int);
    vstd::arithmetic::div_mod::lemma_div_multiples_vanish(sx * s + sz * c - CAMERA_DISTANCE, FIX as int);
    assert(sx == 1 || sx == -1);
    assert(sz == 1 || sz == -1);
}

/// The screen positions of the cube's corners under the rotation whose
/// cosine and sine are given.
pub fn screen_positions(cos: i64, sin: i64) -> (pts: Vec<ScreenPoint>)
    requires
        rotation_ok(cos, sin),
    ensures
        pts@ == screen_vertices(cos, sin),
{
    let m = rotation_transform(cos, sin);
    let vertices = cube_vertices();
    let mut pts: Vec<ScreenPoint> = Vec::new();
    let mut i: usize = 0;
    while i < VERTEX_COUNT
        invariant
            rotation_ok(cos, sin),
            m == cube_to_world(cos, sin),
            m.bounded(),
            forall|j: int| 0 <= j < VERTEX_COUNT ==> #[trigger] vertices[j] == cube_vertex(j),
            i <= VERTEX_COUNT,
            pts@.len() == i,
            forall|j: int| 0 <= j < i ==> #[trigger] pts@[j] == screen_vertex(cos, sin, j),
        decreases VERTEX_COUNT - i,
    {
        proof {
            lemma_corner_projectable(cos, sin, i as int);
        }
        let world = matrix_times_vector(&m, &vertices[i]);
        assert(projectable(world));
        pts.push(project(&world));
        i = i + 1;
    }
    assert(pts@ =~= screen_vertices(cos, sin));
    pts
}

fn draw_face(frame: &mut Frame, corners: &[ScreenPoint; 4], Ghost(done): Ghost<Seq<(ScreenPoint, ScreenPoint)>>)
    requires
        old(frame).wf(),
        forall|k: int| 0 <= k < 4 ==> point_in_frame(#[trigger] corners[k]),
        forall|r: int, c: int| in_frame(r, c) ==> #[trigger] old(frame).cell(r, c) == painted(done, r, c),
    ensures
        final(frame).wf(),
        forall|r: int, c: int| in_frame(r, c) ==> #[trigger] final(frame).cell(r, c)
            == painted(done + outline(corners@), r, c),
{
    let mut end = corners[3];
    let mut k: usize = 0;
    while k < 4
        invariant
            frame.wf(),
            forall|j: int| 0 <= j < 4 ==> point_in_frame(#[trigger] corners[j]),
            k <= 4,
            end == corners[if k == 0 { 3 } else { k - 1 }],
            forall|r: int, c: int| in_frame(r, c) ==> #[trigger] frame.cell(r, c)
                == painted(done + outline(corners@).take(k as int), r, c),
        decreases 4 - k,
    {
        let start = corners[k];
        proof {
            lemma_segment_in_frame(start, end);
            let before = done + outline(corners@).take(k as int);
            assert(done + outline(corners@).take(k + 1) =~= before.push((start, end)));
            lemma_painted_push(before, start, end);
        }
        draw_line(frame, start, end);
        end = start;
        k = k + 1;
    }
    assert(outline(corners@).take(4) =~= outline(corners@));
}

/// Renders the cube under the rotation whose cosine and sine are given. When
/// every corner projects into the frame's area, the result is the frame
/// with the outline of each face that the cull test keeps drawn into it,
/// face by face; otherwise it is `None`.
pub fn render_frame(cos: i64, sin: i64) -> (r: Option<Frame>)
    requires
        rotation_ok(cos, sin),
    ensures
        r.is_some() == (forall|i: int| 0 <= i < VERTEX_COUNT ==> point_in_frame(#[trigger] screen_vertex(cos, sin, i))),
        r matches Some(frame) ==> frame.wf() && forall|row: int, col: int| in_frame(row, col) ==>
            #[trigger] frame.cell(row, col) == painted(scene_lines(screen_vertices(cos, sin), FACE_COUNT as nat), row, col),
{
    let pts = screen_positions(cos, sin);
    let mut i: usize = 0;
    while i < VERTEX_COUNT
        invariant
            pts@ == screen_vertices(cos, sin),
            i <= VERTEX_COUNT,
            forall|j: int| 0 <= j < i ==> point_in_frame(#[trigger] pts@[j]),
        decreases VERTEX_COUNT - i,
    {
        let p = pts[i];
        if !(0 <= p.x && p.x < SCREEN_WIDTH_FIX && 0 <= p.y && p.y < SCREEN_HEIGHT_FIX) {
            assert(!point_in_frame(screen_vertex(cos, sin, i as int)));
            return None;
        }
        i = i + 1;
    }
    assert forall|j: int| 0 <= j < VERTEX_COUNT implies point_in_frame(#[trigger] screen_vertex(cos, sin, j)) by {
        assert(pts@[j] == screen_vertex(cos, sin, j));
    }
    let faces = cube_faces();
    let mut frame = Frame::new();
    let mut f: usize = 0;
    while f < FACE_COUNT
        invariant
            pts@ == screen_vertices(cos, sin),
            forall|j: int| 0 <= j < VERTEX_COUNT ==> point_in_frame(#[trigger] pts@[j]),
            forall|g: int, k: int| 0 <= g < FACE_COUNT && 0 <= k < 4 ==> #[trigger] faces[g][k] == face_vertex(g, k),
            f <= FACE_COUNT,
            frame.wf(),
            forall|r: int, c: int| in_frame(r, c) ==> #[trigger] frame.cell(r, c)
                == painted(scene_lines(pts@, f as nat), r, c),
        decreases FACE_COUNT - f,
    {
        let face = faces[f];
        assert(face[0] == face_vertex(f as int, 0) && face[1] == face_vertex(f as int, 1));
        assert(face[2] == face_vertex(f as int, 2) && face[3] == face_vertex(f as int, 3));
        let corners = [pts[face[0] as usize], pts[face[1] as usize], pts[face[2] as usize], pts[face[3] as usize]];
        assert(corners@ =~= face_corners(pts@, f as int));
        if !cull(corners[0], corners[1], corners[2]) {
            draw_face(&mut frame, &corners, Ghost(scene_lines(pts@, f as nat)));
        }
        f = f + 1;
    }
    Some(frame)
}

} // verus!
