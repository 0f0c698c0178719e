use raycaster::SCALE;
use raycaster::grid::Grid;
use raycaster::raycast::camera_x;
use raycaster::raycast::cast_columns;
use raycaster::raycast::cast_ray;
use raycaster::viewer::Viewer;

const W: usize = 1920;

fn facing_east() -> Viewer {
    let mut v = Viewer::new(12 * SCALE, 12 * SCALE);
    // A quarter turn counter-clockwise from south (0, -1) to east (1, 0).
    v.rotate(0, SCALE);
    v
}

#[test]
fn camera_x_spans_minus_one_inclusive_to_one_exclusive() {
    assert_eq!(camera_x(0, W), -SCALE);
    assert_eq!(camera_x(W / 2, W), 0);
    assert_eq!(camera_x(W - 1, W), 65467);
    assert!(camera_x(W - 1, W) < SCALE);
    assert_eq!(camera_x(0, 3), -SCALE);
    assert!(camera_x(2, 3) < SCALE);
}

#[test]
fn central_ray_south_runs_down_the_corridor_to_the_border() {
    // The reference map's column 12 is empty from row 1 to row 22, so
    // the exact central ray sees the border wall eleven cells ahead.
    let v = Viewer::new(12 * SCALE, 12 * SCALE);
    let g = Grid::new();
    let h = cast_ray(&v, &g, W / 2, W).unwrap();
    assert_eq!(h.column, W / 2);
    assert_eq!(h.side, 1);
    assert_eq!(h.tag, 1);
    assert_eq!(h.perp_dist, 11 * SCALE);
}

#[test]
fn off_center_rays_hit_the_interior_clusters_first() {
    // Tilted rays from the same pose are occluded by the tag-2 box on
    // the left and the tag-3 pillars on the right before the border.
    let v = Viewer::new(12 * SCALE, 12 * SCALE);
    let g = Grid::new();
    let left = cast_ray(&v, &g, 480, W).unwrap();
    assert_eq!(left.side, 0);
    assert_eq!(left.tag, 2);
    assert_eq!(left.perp_dist, 212213);
    let edge = cast_ray(&v, &g, 0, W).unwrap();
    assert_eq!(edge.side, 1);
    assert_eq!(edge.tag, 2);
    assert_eq!(edge.perp_dist, 234426);
    let right = cast_ray(&v, &g, W - 1, W).unwrap();
    assert_eq!(right.side, 1);
    assert_eq!(right.tag, 3);
    assert_eq!(right.perp_dist, 390585);
}

#[test]
fn axis_parallel_ray_steps_only_along_x() {
    // Facing east the plane is (0, tan(fov/2)), so the central ray has
    // a zero y component: the walk must step only along x and cross
    // eleven vertical grid lines to the border, never dividing by the
    // zero component.
    let v = facing_east();
    let g = Grid::new();
    let h = cast_ray(&v, &g, W / 2, W).unwrap();
    assert_eq!(h.side, 0);
    assert_eq!(h.tag, 1);
    assert_eq!(h.perp_dist, 11 * SCALE);
}

#[test]
fn casting_the_same_column_twice_is_identical() {
    let v = Viewer::new(12 * SCALE, 12 * SCALE);
    let g = Grid::new();
    for x in [0usize, 7, 480, 960, 1919] {
        assert_eq!(cast_ray(&v, &g, x, W), cast_ray(&v, &g, x, W));
    }
}

#[test]
fn every_column_terminates_on_a_wall() {
    let v = Viewer::new(12 * SCALE + 5, 12 * SCALE + 9);
    let g = Grid::new();
    let hits = cast_columns(&v, &g, W);
    assert_eq!(hits.len(), W);
    for (x, h) in hits.iter().enumerate() {
        let h = h.expect("a nonzero ray always hits the closed border");
        assert_eq!(h.column, x);
        assert!(h.side == 0 || h.side == 1);
        assert!(h.tag > 0);
        assert!(h.perp_dist > 0);
    }
}

#[test]
fn a_zero_rotor_degenerates_every_ray_to_a_miss() {
    // A zero rotor collapses the direction, and with it the plane, to
    // zero; every ray direction is then zero and each cast reports a
    // deterministic miss instead of failing.
    let mut v = Viewer::new(12 * SCALE, 12 * SCALE);
    v.rotate(0, 0);
    let g = Grid::new();
    assert_eq!(v.direction.x, 0);
    assert_eq!(v.direction.y, 0);
    for x in [0usize, 960, 1919] {
        assert!(cast_ray(&v, &g, x, W).is_none());
    }
}

#[test]
fn full_frame_reports_only_visible_tags() {
    // From the start pose facing south, the frame sees the border, the
    // tag-2 box and the tag-3 pillars; the tag-4 structure lies behind.
    let v = Viewer::new(12 * SCALE, 12 * SCALE);
    let g = Grid::new();
    let mut seen = [false; 6];
    for h in cast_columns(&v, &g, W) {
        seen[h.unwrap().tag as usize] = true;
    }
    assert_eq!(seen, [false, true, true, true, false, false]);
}
