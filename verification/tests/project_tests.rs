use raycaster::SCALE;
use raycaster::fixed::isqrt;
use raycaster::grid::Grid;
use raycaster::project::project_column;
use raycaster::project::render_columns;
use raycaster::raycast::Hit;
use raycaster::viewer::Viewer;

const W: usize = 1920;
const H: usize = 1080;

#[test]
fn isqrt_rounds_down() {
    assert_eq!(isqrt(0), 0);
    assert_eq!(isqrt(1), 1);
    assert_eq!(isqrt(15), 3);
    assert_eq!(isqrt(16), 4);
    assert_eq!(isqrt(SCALE * SCALE), SCALE);
    assert_eq!(isqrt(i64::MAX), 3037000499);
}

#[test]
fn a_wall_eleven_cells_away_projects_to_the_expected_segment() {
    let hit = Hit { column: 960, side: 1, tag: 1, perp_dist: 11 * SCALE };
    let seg = project_column(960, &Some(hit), H);
    assert_eq!(seg.column, 960);
    assert_eq!(seg.y_start, 32172219);
    assert_eq!(seg.y_end, 38606661);
    assert!(seg.y_start <= seg.y_end);
    assert_eq!((seg.red, seg.green, seg.blue), (255, 190, 152));
}

#[test]
fn a_vertical_crossing_lightens_the_color() {
    let hit = Hit { column: 0, side: 0, tag: 2, perp_dist: SCALE };
    let seg = project_column(0, &Some(hit), H);
    assert_eq!((seg.red, seg.green, seg.blue), (240, 98, 132));
    let hit = Hit { column: 0, side: 1, tag: 2, perp_dist: SCALE };
    let seg = project_column(0, &Some(hit), H);
    assert_eq!((seg.red, seg.green, seg.blue), (240, 90, 126));
}

#[test]
fn each_tag_gets_its_own_base_color() {
    for (tag, rgb) in [
        (1, (255, 190, 152)),
        (2, (240, 90, 126)),
        (3, (18, 91, 154)),
        (4, (11, 132, 148)),
        (5, (0, 0, 0)),
    ] {
        let hit = Hit { column: 0, side: 1, tag, perp_dist: SCALE };
        let seg = project_column(0, &Some(hit), H);
        assert_eq!((seg.red, seg.green, seg.blue), rgb);
    }
}

#[test]
fn a_very_close_wall_fills_the_whole_viewport() {
    let hit = Hit { column: 3, side: 0, tag: 4, perp_dist: 1 };
    let seg = project_column(3, &Some(hit), H);
    assert_eq!(seg.y_start, 0);
    assert_eq!(seg.y_end, (H as i64 - 1) * SCALE);
}

#[test]
fn a_zero_distance_is_clamped_defensively() {
    let hit = Hit { column: 3, side: 0, tag: 4, perp_dist: 0 };
    let seg = project_column(3, &Some(hit), H);
    assert_eq!(seg.y_start, 0);
    assert_eq!(seg.y_end, (H as i64 - 1) * SCALE);
}

#[test]
fn a_miss_renders_as_an_empty_background_segment() {
    let seg = project_column(5, &None, H);
    assert_eq!(seg.column, 5);
    assert_eq!(seg.y_start, seg.y_end);
    assert_eq!(seg.y_start, (H as i64) * SCALE / 2);
    assert_eq!((seg.red, seg.green, seg.blue), (0, 0, 0));
}

#[test]
fn a_degenerate_viewer_renders_a_background_frame() {
    let mut v = Viewer::new(12 * SCALE, 12 * SCALE);
    v.rotate(0, 0);
    let g = Grid::new();
    let segs = render_columns(&v, &g, 8, H);
    assert_eq!(segs.len(), 8);
    for seg in segs {
        assert_eq!(seg.y_start, seg.y_end);
        assert_eq!((seg.red, seg.green, seg.blue), (0, 0, 0));
    }
}

#[test]
fn a_frame_renders_one_segment_per_column() {
    let v = Viewer::new(12 * SCALE, 12 * SCALE);
    let g = Grid::new();
    let segs = render_columns(&v, &g, W, H);
    assert_eq!(segs.len(), W);
    for (x, seg) in segs.iter().enumerate() {
        assert_eq!(seg.column, x);
        assert!(0 <= seg.y_start && seg.y_start <= seg.y_end);
        assert!(seg.y_end <= (H as i64) * SCALE);
    }
    // The central column: the corridor's border wall, far and dim.
    assert_eq!(segs[960].y_start, 32172219);
    assert_eq!(segs[960].y_end, 38606661);
    assert_eq!((segs[960].red, segs[960].green, segs[960].blue), (255, 190, 152));
    // A lightened tag-2 face left of center.
    assert_eq!((segs[480].red, segs[480].green, segs[480].blue), (240, 98, 132));
}
