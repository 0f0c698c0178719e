use raycaster::grid::GRID_N;
use raycaster::grid::Grid;
use raycaster::grid::GridError;

fn filled(n: usize, border: i32, inner: i32) -> Vec<Vec<i32>> {
    let mut rows: Vec<Vec<i32>> = Vec::new();
    for y in 0..n {
        let mut row: Vec<i32> = Vec::new();
        for x in 0..n {
            if x == 0 || y == 0 || x == n - 1 || y == n - 1 {
                row.push(border);
            } else {
                row.push(inner);
            }
        }
        rows.push(row);
    }
    rows
}

#[test]
fn from_cells_accepts_a_closed_map() {
    let g = match Grid::from_cells(filled(5, 1, 0)) {
        Ok(g) => g,
        Err(_) => panic!("a closed square map must be accepted"),
    };
    assert_eq!(g.side_len(), 5);
    assert_eq!(g.occupied(0, 0), 1);
    assert_eq!(g.occupied(2, 2), 0);
    assert_eq!(g.occupied(4, 2), 1);
}

#[test]
fn from_cells_rejects_too_small_maps() {
    assert!(matches!(Grid::from_cells(filled(2, 1, 0)), Err(GridError::BadSize)));
    assert!(matches!(Grid::from_cells(Vec::new()), Err(GridError::BadSize)));
}

#[test]
fn from_cells_rejects_ragged_rows() {
    let mut cells = filled(5, 1, 0);
    cells[3].pop();
    assert!(matches!(Grid::from_cells(cells), Err(GridError::NotSquare)));
}

#[test]
fn from_cells_rejects_negative_tags() {
    let mut cells = filled(5, 1, 0);
    cells[2][2] = -7;
    assert!(matches!(Grid::from_cells(cells), Err(GridError::NegativeTag)));
}

#[test]
fn from_cells_rejects_an_open_border() {
    let mut cells = filled(5, 1, 0);
    cells[0][3] = 0;
    assert!(matches!(Grid::from_cells(cells), Err(GridError::OpenBorder)));
}

#[test]
fn reference_map_has_a_solid_border() {
    let g = Grid::new();
    assert_eq!(g.side_len(), GRID_N);
    for i in 0..GRID_N {
        assert_eq!(g.occupied(i, 0), 1);
        assert_eq!(g.occupied(i, GRID_N - 1), 1);
        assert_eq!(g.occupied(0, i), 1);
        assert_eq!(g.occupied(GRID_N - 1, i), 1);
    }
}

#[test]
fn reference_map_holds_the_interior_structures() {
    let g = Grid::new();
    // The hollow tag-2 box.
    assert_eq!(g.occupied(6, 4), 2);
    assert_eq!(g.occupied(10, 4), 2);
    assert_eq!(g.occupied(7, 5), 0);
    assert_eq!(g.occupied(8, 8), 0);
    assert_eq!(g.occupied(9, 8), 2);
    // The tag-3 pillars.
    assert_eq!(g.occupied(15, 4), 3);
    assert_eq!(g.occupied(17, 6), 0);
    assert_eq!(g.occupied(19, 8), 3);
    // The tag-4 structure with its tag-5 cell.
    assert_eq!(g.occupied(1, 16), 4);
    assert_eq!(g.occupied(6, 18), 5);
    assert_eq!(g.occupied(2, 18), 0);
    assert_eq!(g.occupied(8, 22), 4);
    // The empty corridor straight south of the starting cell.
    for y in 1..23 {
        assert_eq!(g.occupied(12, y), 0);
    }
}
