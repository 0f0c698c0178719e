use raycaster::SCALE;
use raycaster::geom::Vec2Fx;
use raycaster::geom::plane_from_direction;
use raycaster::grid::Grid;
use raycaster::viewer::TAN_HALF_FOV;
use raycaster::viewer::Viewer;
use raycaster::viewer::can_enter;

fn rotor(angle: f64) -> (i64, i64) {
    (
        (angle.cos() * SCALE as f64) as i64,
        (angle.sin() * SCALE as f64) as i64,
    )
}

#[test]
fn new_viewer_faces_south_with_a_horizontal_plane() {
    let v = Viewer::new(12 * SCALE, 12 * SCALE);
    assert_eq!(v.position, Vec2Fx { x: 12 * SCALE, y: 12 * SCALE });
    assert_eq!(v.direction, Vec2Fx { x: 0, y: -SCALE });
    assert_eq!(v.plane, Vec2Fx { x: TAN_HALF_FOV, y: 0 });
}

#[test]
fn quarter_turn_rotates_direction_and_plane_together() {
    let mut v = Viewer::new(12 * SCALE, 12 * SCALE);
    v.rotate(0, SCALE);
    assert_eq!(v.direction, Vec2Fx { x: SCALE, y: 0 });
    assert_eq!(v.plane, Vec2Fx { x: 0, y: TAN_HALF_FOV });
    assert_eq!(v.position, Vec2Fx { x: 12 * SCALE, y: 12 * SCALE });
}

#[test]
fn rotation_keeps_direction_and_plane_perpendicular() {
    let mut v = Viewer::new(12 * SCALE, 12 * SCALE);
    for i in 1..12 {
        let (c, s) = rotor(0.37 * i as f64);
        v.rotate(c, s);
        let dot = v.direction.x as i128 * v.plane.x as i128
            + v.direction.y as i128 * v.plane.y as i128;
        let cross = v.direction.x as i128 * v.plane.y as i128
            - v.direction.y as i128 * v.plane.x as i128;
        // Exactly perpendicular up to fixed-point truncation, with the
        // cross product near tan(fov / 2) in squared raw units.
        assert!(dot.abs() < 3 * SCALE as i128);
        let expect = TAN_HALF_FOV as i128 * SCALE as i128;
        assert!((cross - expect).abs() < 6 * SCALE as i128);
    }
}

#[test]
fn full_turn_in_small_increments_returns_the_heading() {
    let mut v = Viewer::new(12 * SCALE, 12 * SCALE);
    let n = 64;
    for _ in 0..n {
        let (c, s) = rotor(2.0 * std::f64::consts::PI / n as f64);
        v.rotate(c, s);
    }
    assert!((v.direction.x - 0).abs() <= 200);
    assert!((v.direction.y - -SCALE).abs() <= 200);
    assert!((v.plane.x - TAN_HALF_FOV).abs() <= 200);
    assert!((v.plane.y - 0).abs() <= 200);
    assert_eq!(v.position, Vec2Fx { x: 12 * SCALE, y: 12 * SCALE });
}

#[test]
fn advance_moves_at_five_units_per_second() {
    let g = Grid::new();
    let mut v = Viewer::new(12 * SCALE, 12 * SCALE);
    v.advance(&g, SCALE);
    assert_eq!(v.position, Vec2Fx { x: 12 * SCALE, y: 7 * SCALE });
    assert_eq!(v.direction, Vec2Fx { x: 0, y: -SCALE });
}

#[test]
fn advance_then_retreat_restores_the_position_exactly() {
    let g = Grid::new();
    let mut v = Viewer::new(12 * SCALE, 12 * SCALE);
    let (c, s) = rotor(0.73);
    v.rotate(c, s);
    let before = v.position;
    v.advance(&g, 12345);
    assert_ne!(v.position, before);
    v.retreat(&g, 12345);
    assert_eq!(v.position, before);
}

#[test]
fn zero_elapsed_time_does_not_move() {
    let g = Grid::new();
    let mut v = Viewer::new(12 * SCALE, 12 * SCALE);
    v.advance(&g, 0);
    assert_eq!(v.position, Vec2Fx { x: 12 * SCALE, y: 12 * SCALE });
}

#[test]
fn every_destination_is_currently_enterable() {
    let g = Grid::new();
    assert!(can_enter(&g, Vec2Fx { x: 3 * SCALE, y: 3 * SCALE }));
    assert!(can_enter(&g, Vec2Fx { x: 0, y: 0 }));
}

#[test]
fn plane_length_encodes_the_field_of_view() {
    let p = plane_from_direction(Vec2Fx { x: 0, y: -SCALE }, TAN_HALF_FOV);
    assert_eq!(p, Vec2Fx { x: TAN_HALF_FOV, y: 0 });
    let q = plane_from_direction(Vec2Fx { x: -SCALE, y: 0 }, TAN_HALF_FOV);
    assert_eq!(q, Vec2Fx { x: 0, y: -TAN_HALF_FOV });
}
