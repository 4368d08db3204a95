use text_cube::cube::{cube_faces, cube_vertices, render_frame, rotation_transform, screen_positions};
use text_cube::cull::cull;
use text_cube::fixed::{ceil_of_fix, div_floor, FIX};
use text_cube::linalg::{matrix_times_vector, Matrix, Vector};
use text_cube::projection::{project, ScreenPoint, SCREEN_HEIGHT, SCREEN_WIDTH};
use text_cube::raster::{draw_line, Frame, BLANK, HORIZONTAL, VERTICAL};

fn pt(x: i64, y: i64) -> ScreenPoint {
    ScreenPoint { x: x * FIX, y: y * FIX }
}

fn snapshot(frame: &Frame) -> Vec<Vec<u8>> {
    (0..SCREEN_HEIGHT).map(|r| frame.row(r)).collect()
}

fn fixed_trig(angle: f32) -> (i64, i64) {
    let c = (angle.cos() * FIX as f32).round() as i64;
    let s = (angle.sin() * FIX as f32).round() as i64;
    (c.clamp(-FIX, FIX), s.clamp(-FIX, FIX))
}

#[test]
fn floor_division_rounds_down() {
    assert_eq!(div_floor(7, 2), 3);
    assert_eq!(div_floor(-7, 2), -4);
    assert_eq!(div_floor(7, -2), -4);
    assert_eq!(div_floor(-7, -2), 3);
    assert_eq!(div_floor(-8, 2), -4);
    assert_eq!(ceil_of_fix(FIX + 1), 2);
    assert_eq!(ceil_of_fix(2 * FIX), 2);
    assert_eq!(ceil_of_fix(-FIX - 1), -1);
}

#[test]
fn identity_transform_keeps_vertices() {
    let id = Matrix::identity();
    for v in cube_vertices() {
        assert_eq!(matrix_times_vector(&id, &v), v);
    }
    let v = Vector([123, -456, 789, FIX]);
    assert_eq!(matrix_times_vector(&id, &v), v);
}

#[test]
fn product_weights_rows_as_columns() {
    // Row i is multiplied by component i: a translation sits in the last row.
    let m = Matrix([
        [FIX, 0, 0, 0],
        [0, FIX, 0, 0],
        [0, 0, FIX, 0],
        [3 * FIX, -2 * FIX, 5 * FIX, FIX],
    ]);
    let v = Vector([FIX, FIX, FIX, FIX]);
    assert_eq!(matrix_times_vector(&m, &v), Vector([4 * FIX, -FIX, 6 * FIX, FIX]));
    // A rotation by a quarter turn about y: x goes to -z.
    let r = rotation_transform(0, FIX);
    let w = matrix_times_vector(&r, &Vector([FIX, 0, 0, FIX]));
    assert_eq!(w, Vector([0, 0, FIX - 163840, FIX]));
}

#[test]
fn projection_moves_toward_center_with_distance() {
    let mut last_dx = i64::MAX;
    let mut last_dy = i64::MAX;
    for d in 1..40 {
        let p = project(&Vector([FIX, -FIX, -d * FIX / 4, FIX]));
        let dx = (p.x - 40 * FIX).abs();
        let dy = (p.y - 20 * FIX).abs();
        assert!(dx <= last_dx && dy <= last_dy);
        last_dx = dx;
        last_dy = dy;
    }
    // One unit to the side at depth -2 lands half a viewport from the centre.
    let p = project(&Vector([FIX, FIX, -2 * FIX, FIX]));
    assert_eq!(p, ScreenPoint { x: 20 * FIX, y: 10 * FIX });
}

#[test]
fn cull_reversal_flips_decision() {
    let (a, b, c) = (pt(0, 0), pt(10, 0), pt(10, 10));
    assert!(cull(a, b, c));
    assert!(!cull(c, b, a));
    let (a, b, c) = (pt(0, 0), pt(0, 10), pt(10, 10));
    assert!(!cull(a, b, c));
    assert!(cull(c, b, a));
}

#[test]
fn cull_collinear_points_not_culled() {
    let (a, b, c) = (pt(1, 1), pt(2, 2), pt(3, 3));
    assert!(!cull(a, b, c));
    assert!(!cull(c, b, a));
}

#[test]
fn vertical_line_marks_column() {
    let mut frame = Frame::new();
    draw_line(&mut frame, pt(5, 2), pt(5, 8));
    for r in 0..SCREEN_HEIGHT {
        for c in 0..SCREEN_WIDTH {
            let expected = if c == 5 && (2..8).contains(&r) { VERTICAL } else { BLANK };
            assert_eq!(frame.get(r, c), expected, "cell {} {}", r, c);
        }
    }
}

#[test]
fn vertical_line_reversed_marks_same_cells() {
    let mut a = Frame::new();
    let mut b = Frame::new();
    draw_line(&mut a, pt(5, 2), pt(5, 8));
    draw_line(&mut b, pt(5, 8), pt(5, 2));
    assert_eq!(snapshot(&a), snapshot(&b));
}

#[test]
fn horizontal_line_marks_row() {
    let mut frame = Frame::new();
    draw_line(&mut frame, pt(2, 5), pt(8, 5));
    for r in 0..SCREEN_HEIGHT {
        for c in 0..SCREEN_WIDTH {
            let expected = if r == 5 && (2..8).contains(&c) { HORIZONTAL } else { BLANK };
            assert_eq!(frame.get(r, c), expected, "cell {} {}", r, c);
        }
    }
}

#[test]
fn zero_length_line_draws_nothing() {
    let mut frame = Frame::new();
    draw_line(&mut frame, pt(2, 5), pt(8, 5));
    let before = snapshot(&frame);
    draw_line(&mut frame, pt(30, 17), pt(30, 17));
    let p = ScreenPoint { x: 3 * FIX + 7, y: 5 * FIX + 100 };
    draw_line(&mut frame, p, p);
    assert_eq!(snapshot(&frame), before);
}

#[test]
fn diagonal_and_fractional_lines() {
    // Exactly 45 degrees counts as shallow.
    let mut frame = Frame::new();
    draw_line(&mut frame, pt(0, 0), pt(4, 4));
    for i in 0..4 {
        assert_eq!(frame.get(i, i), HORIZONTAL);
    }
    assert_eq!(frame.get(4, 4), BLANK);
    // A steep line from (1.5, 0.5) to (3.5, 4.5): rows 1..5, column rounded down.
    let mut frame = Frame::new();
    let a = ScreenPoint { x: 3 * FIX / 2, y: FIX / 2 };
    let b = ScreenPoint { x: 7 * FIX / 2, y: 9 * FIX / 2 };
    draw_line(&mut frame, a, b);
    assert_eq!(frame.get(0, 1), BLANK);
    assert_eq!(frame.get(1, 1), VERTICAL);
    assert_eq!(frame.get(2, 2), VERTICAL);
    assert_eq!(frame.get(3, 2), VERTICAL);
    assert_eq!(frame.get(4, 3), VERTICAL);
    assert_eq!(frame.get(5, 3), BLANK);
}

#[test]
fn mesh_faces_index_corners() {
    let faces = cube_faces();
    for face in faces {
        for k in face {
            assert!((k as usize) < 8);
        }
    }
    assert_eq!(faces[0], [1, 5, 7, 3]);
    assert_eq!(cube_vertices()[0], Vector([-FIX, -FIX, -FIX, FIX]));
}

#[test]
fn scenario_at_angle_zero() {
    let pts = screen_positions(FIX, 0);
    // Corner (-1, -1, -1) sits at depth -3.5: x = 40 + 40 / 3.5, y = 20 + 20 / 3.5.
    assert_eq!(pts[0], ScreenPoint { x: 3370422, y: 1685211 });
    assert_eq!(pts[0].x / FIX, 51);
    assert_eq!(pts[0].y / FIX, 25);
    let faces = cube_faces();
    let drawn: Vec<usize> = (0..6)
        .filter(|&f| {
            let face = faces[f];
            !cull(pts[face[0] as usize], pts[face[1] as usize], pts[face[2] as usize])
        })
        .collect();
    // Seen head on, only the near face (z = +1) faces the camera.
    assert_eq!(drawn, vec![0]);
    let frame = render_frame(FIX, 0).expect("the cube fits in the frame");
    // The near face spans x = 40 -+ 40 / 1.5 and y = 20 -+ 20 / 1.5.
    assert_eq!(frame.get(6, 14), HORIZONTAL);
    assert_eq!(frame.get(6, 13), BLANK);
    assert_eq!(frame.get(20, 13), VERTICAL);
    assert_eq!(frame.get(20, 40), BLANK);
}

#[test]
fn every_tick_stays_inside_frame() {
    for tick in 0..700u32 {
        let (c, s) = fixed_trig(tick as f32 * 0.01);
        let pts = screen_positions(c, s);
        for p in &pts {
            assert!(p.x >= 0 && p.x < SCREEN_WIDTH as i64 * FIX);
            assert!(p.y >= 0 && p.y < SCREEN_HEIGHT as i64 * FIX);
        }
        let frame = render_frame(c, s).expect("the cube fits in the frame");
        let marked = snapshot(&frame).iter().flatten().filter(|&&g| g != BLANK).count();
        assert!(marked > 0);
    }
}

#[test]
fn rotation_by_full_turn_repeats_frame() {
    let (c0, s0) = fixed_trig(0.3);
    let (c1, s1) = fixed_trig(0.3 + std::f32::consts::TAU);
    assert_eq!((c0, s0), (c1, s1));
    assert_eq!(snapshot(&render_frame(c0, s0).unwrap()), snapshot(&render_frame(c1, s1).unwrap()));
}

#[test]
fn out_of_frame_rotation_is_refused() {
    // Not a unit rotation: the nearest corner comes close enough to leave the frame.
    assert!(render_frame(FIX, FIX).is_none());
}

#[test]
fn glyphs_are_ascii_marks() {
    assert_eq!(BLANK, b' ');
    assert_eq!(VERTICAL, b'|');
    assert_eq!(HORIZONTAL, b'-');
    assert!(Frame::new().row(0).iter().all(|&g| g == b' '));
}

#[test]
fn lines_along_frame_edges() {
    let last_x = SCREEN_WIDTH as i64 * FIX - 1;
    let last_y = SCREEN_HEIGHT as i64 * FIX - 1;
    let mut frame = Frame::new();
    draw_line(&mut frame, ScreenPoint { x: 0, y: last_y }, ScreenPoint { x: last_x, y: last_y });
    let bottom = frame.row(SCREEN_HEIGHT - 1);
    assert!(bottom.iter().all(|&g| g == HORIZONTAL));
    let mut frame = Frame::new();
    draw_line(&mut frame, ScreenPoint { x: last_x, y: 0 }, ScreenPoint { x: last_x, y: last_y });
    for r in 0..SCREEN_HEIGHT {
        assert_eq!(frame.get(r, SCREEN_WIDTH - 1), VERTICAL);
        assert_eq!(frame.get(r, SCREEN_WIDTH - 2), BLANK);
    }
}

#[test]
fn later_segment_overwrites_crossing_cell() {
    let mut frame = Frame::new();
    draw_line(&mut frame, pt(2, 5), pt(8, 5));
    draw_line(&mut frame, pt(5, 2), pt(5, 8));
    assert_eq!(frame.get(5, 5), VERTICAL);
    assert_eq!(frame.get(5, 4), HORIZONTAL);
}
