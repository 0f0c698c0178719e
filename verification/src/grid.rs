//! The occupancy grid.
//!
//! A square map of integer cell tags, row-major: tag 0 is an empty,
//! traversable cell; a positive tag is an occupied wall cell, the tag
//! choosing only the wall's shade. A well-formed grid has its whole
//! outer ring occupied, which guarantees that every ray cast from a
//! cell strictly inside the map eventually hits a wall.

use vstd::prelude::*;

verus! {

/// Side length of the reference map.
pub const GRID_N: usize = 24;

/// Errors found when validating a candidate map.
#[derive(Clone, Copy, Debug, PartialEq, Eq, Structural)]
pub enum GridError {
    /// The map has fewer than 3 or more than 1024 rows.
    BadSize,
    /// Some row's length differs from the number of rows.
    NotSquare,
    /// Some cell holds a negative tag.
    NegativeTag,
    /// Some cell of the outer ring is empty.
    OpenBorder,
}

/// An immutable square occupancy map.
pub struct Grid {
    cells: Vec<Vec<i32>>,
}

/// The candidate side length is accepted.
pub open spec fn size_ok(n: int) -> bool {
    3 <= n <= 1024
}

/// Every row is as long as the map is tall.
pub open spec fn rows_square(cells: Vec<Vec<i32>>) -> bool {
    forall|y: int| 0 <= y < cells@.len() ==> (#[trigger] cells@[y])@.len() == cells@.len()
}

/// No cell holds a negative tag.
pub open spec fn tags_nonneg(cells: Vec<Vec<i32>>) -> bool {
    forall|x: int, y: int|
        0 <= y < cells@.len() && 0 <= x < cells@[y]@.len() ==> #[trigger] cells@[y]@[x] >= 0
}

/// Every cell of the outer ring is occupied.
pub open spec fn border_closed(cells: Vec<Vec<i32>>) -> bool {
    forall|x: int, y: int|
        0 <= y < cells@.len() && 0 <= x < cells@[y]@.len() && (x == 0 || y == 0 || x == cells@.len()
            - 1 || y == cells@.len() - 1) ==> #[trigger] cells@[y]@[x] > 0
}

/// A candidate map that `Grid::from_cells` accepts.
pub open spec fn cells_valid(cells: Vec<Vec<i32>>) -> bool {
    &&& size_ok(cells@.len() as int)
    &&& rows_square(cells)
    &&& tags_nonneg(cells)
    &&& border_closed(cells)
}

impl Grid {
    /// Side length of the map.
    pub closed spec fn size(self) -> int {
        self.cells@.len() as int
    }

    /// The tag stored at column `x`, row `y`.
    pub closed spec fn cell(self, x: int, y: int) -> int {
        self.cells@[y]@[x] as int
    }

    /// Length of row `y`.
    pub closed spec fn row_len(self, y: int) -> int {
        self.cells@[y]@.len() as int
    }

    /// `(x, y)` indexes a cell of the map.
    pub open spec fn in_bounds(self, x: int, y: int) -> bool {
        0 <= x < self.size() && 0 <= y < self.size()
    }

    /// `(x, y)` lies on the outer ring.
    pub open spec fn on_border(self, x: int, y: int) -> bool {
        x == 0 || y == 0 || x == self.size() - 1 || y == self.size() - 1
    }

    /// Well-formedness: a square map of accepted size whose tags are
    /// nonnegative and whose outer ring is fully occupied.
    pub open spec fn wf(self) -> bool {
        &&& size_ok(self.size())
        &&& forall|y: int| 0 <= y < self.size() ==> #[trigger] self.row_len(y) == self.size()
        &&& forall|x: int, y: int| self.in_bounds(x, y) ==> #[trigger] self.cell(x, y) >= 0
        &&& forall|x: int, y: int|
            self.in_bounds(x, y) && self.on_border(x, y) ==> #[trigger] self.cell(x, y) > 0
    }

    /// Validate a candidate map and wrap it. Succeeds exactly on valid
    /// maps; each error names the first reason, checked in the order
    /// size, squareness, tag sign, border.
    pub fn from_cells(cells: Vec<Vec<i32>>) -> (r: Result<Grid, GridError>)
        ensures
            r.is_ok() <==> cells_valid(cells),
            r matches Ok(g) ==> {
                &&& g.wf()
                &&& g.size() == cells@.len()
                &&& forall|x: int, y: int|
                    g.in_bounds(x, y) ==> #[trigger] g.cell(x, y) == cells@[y]@[x]
            },
            r == Err::<Grid, GridError>(GridError::BadSize) <==> !size_ok(cells@.len() as int),
            r == Err::<Grid, GridError>(GridError::NotSquare) <==> size_ok(cells@.len() as int)
                && !rows_square(cells),
            r == Err::<Grid, GridError>(GridError::NegativeTag) <==> size_ok(cells@.len() as int)
                && rows_square(cells) && !tags_nonneg(cells),
            r == Err::<Grid, GridError>(GridError::OpenBorder) <==> size_ok(cells@.len() as int)
                && rows_square(cells) && tags_nonneg(cells) && !border_closed(cells),
    {
        let n = cells.len();
        if n < 3 || n > 1024 {
            return Err(GridError::BadSize);
        }
        let mut y: usize = 0;
        while y < n
            invariant
                0 <= y <= n,
                n == cells@.len(),
                size_ok(n as int),
                forall|yy: int| 0 <= yy < y ==> (#[trigger] cells@[yy])@.len() == n,
            decreases n - y,
        {
            if cells[y].len() != n {
                return Err(GridError::NotSquare);
            }
            y = y + 1;
        }
        let mut y: usize = 0;
        while y < n
            invariant
                0 <= y <= n,
                n == cells@.len(),
                size_ok(n as int),
                rows_square(cells),
                forall|xx: int, yy: int|
                    0 <= yy < y && 0 <= xx < n ==> #[trigger] cells@[yy]@[xx] >= 0,
            decreases n - y,
        {
            let mut x: usize = 0;
            while x < n
                invariant
                    0 <= x <= n,
                    0 <= y < n,
                    n == cells@.len(),
                    size_ok(n as int),
                    rows_square(cells),
                    forall|xx: int, yy: int|
                        0 <= yy < y && 0 <= xx < n ==> #[trigger] cells@[yy]@[xx] >= 0,
                    forall|xx: int| 0 <= xx < x ==> #[trigger] cells@[y as int]@[xx] >= 0,
                decreases n - x,
            {
                if cells[y][x] < 0 {
                    return Err(GridError::NegativeTag);
                }
                x = x + 1;
            }
            y = y + 1;
        }
        let mut y: usize = 0;
        while y < n
            invariant
                0 <= y <= n,
                n == cells@.len(),
                size_ok(n as int),
                rows_square(cells),
                tags_nonneg(cells),
                forall|xx: int, yy: int|
                    0 <= yy < y && 0 <= xx < n && (xx == 0 || yy == 0 || xx == n - 1 || yy == n
                        - 1) ==> #[trigger] cells@[yy]@[xx] > 0,
            decreases n - y,
        {
            let mut x: usize = 0;
            while x < n
                invariant
                    0 <= x <= n,
                    0 <= y < n,
                    n == cells@.len(),
                    size_ok(n as int),
                    rows_square(cells),
                    tags_nonneg(cells),
                    forall|xx: int, yy: int|
                        0 <= yy < y && 0 <= xx < n && (xx == 0 || yy == 0 || xx == n - 1 || yy == n
                            - 1) ==> #[trigger] cells@[yy]@[xx] > 0,
                    forall|xx: int|
                        0 <= xx < x && (xx == 0 || y == 0 || xx == n - 1 || y == n - 1)
                            ==> #[trigger] cells@[y as int]@[xx] > 0,
                decreases n - x,
            {
                if (x == 0 || y == 0 || x == n - 1 || y == n - 1) && cells[y][x] == 0 {
                    return Err(GridError::OpenBorder);
                }
                x = x + 1;
            }
            y = y + 1;
        }
        Ok(Grid { cells })
    }

    /// The tag at column `x`, row `y`; 0 means empty.
    pub fn occupied(&self, x: usize, y: usize) -> (tag: i32)
        requires
            self.wf(),
            self.in_bounds(x as int, y as int),
        ensures
            tag == self.cell(x as int, y as int),
    {
        proof {
            assert(self.row_len(y as int) == self.size());
        }
        self.cells[y][x]
    }

    /// Side length of the map.
    pub fn side_len(&self) -> (n: usize)
        ensures
            n == self.size(),
    {
        self.cells.len()
    }

    /// Build the reference map: a 24 by 24 layout with a hollow tag-2
    /// box, a field of tag-3 pillars, a tag-4 structure with one tag-5
    /// cell inside, and a solid tag-1 border.
    pub fn new() -> (g: Grid)
        ensures
            g.wf(),
            g.size() == GRID_N,
            forall|x: int, y: int|
                g.in_bounds(x, y) ==> #[trigger] g.cell(x, y) == reference_cell(x, y),
    {
        let mut cells: Vec<Vec<i32>> = Vec::new();
        let mut y: usize = 0;
        while y < GRID_N
            invariant
                0 <= y <= GRID_N,
                cells@.len() == y,
                forall|yy: int| 0 <= yy < y ==> (#[trigger] cells@[yy])@.len() == GRID_N,
                forall|xx: int, yy: int|
                    0 <= yy < y && 0 <= xx < GRID_N ==> #[trigger] cells@[yy]@[xx]
                        == reference_cell(xx, yy),
            decreases GRID_N - y,
        {
            let mut row: Vec<i32> = Vec::new();
            let mut x: usize = 0;
            while x < GRID_N
                invariant
                    0 <= x <= GRID_N,
                    row@.len() == x,
                    forall|xx: int| 0 <= xx < x ==> #[trigger] row@[xx] == reference_cell(
                        xx,
                        y as int,
                    ),
                decreases GRID_N - x,
            {
                row.push(reference_cell_at(x, y));
                x = x + 1;
            }
            cells.push(row);
            y = y + 1;
        }
        let g = Grid { cells };
        proof {
            assert forall|x: int, y: int| g.in_bounds(x, y) implies #[trigger] g.cell(x, y)
                == reference_cell(x, y) by {}
            assert forall|x: int, y: int| g.in_bounds(x, y) implies #[trigger] g.cell(x, y)
                >= 0 by {
                reference_cell_in_range(x, y);
            }
            assert forall|x: int, y: int| g.in_bounds(x, y) && g.on_border(x, y) implies #[trigger] g.cell(
                x,
                y,
            ) > 0 by {
                reference_cell_in_range(x, y);
            }
        }
        g
    }
}

/// The tag of the reference map at column `x`, row `y`, written out
/// cell region by cell region.
pub open spec fn reference_cell(x: int, y: int) -> i32 {
    if x == 0 || y == 0 || x == GRID_N - 1 || y == GRID_N - 1 {
        1
    } else if y == 4 {
        if 6 <= x <= 10 {
            2
        } else if x == 15 || x == 17 || x == 19 {
            3
        } else {
            0
        }
    } else if y == 5 || y == 7 {
        if x == 6 || x == 10 {
            2
        } else {
            0
        }
    } else if y == 6 {
        if x == 6 || x == 10 {
            2
        } else if x == 15 || x == 19 {
            3
        } else {
            0
        }
    } else if y == 8 {
        if x == 6 || x == 7 || x == 9 || x == 10 {
            2
        } else if x == 15 || x == 17 || x == 19 {
            3
        } else {
            0
        }
    } else if y == 16 || y == 22 {
        if 1 <= x <= 8 {
            4
        } else {
            0
        }
    } else if y == 17 || y == 19 {
        if x == 1 || x == 3 || x == 8 {
            4
        } else {
            0
        }
    } else if y == 18 {
        if x == 1 || x == 8 {
            4
        } else if x == 6 {
            5
        } else {
            0
        }
    } else if y == 20 {
        if x == 1 || 3 <= x <= 8 {
            4
        } else {
            0
        }
    } else if y == 21 {
        if x == 1 {
            4
        } else {
            0
        }
    } else {
        0
    }
}

/// Every reference tag lies between 0 and 5, and the border ring is
/// occupied.
proof fn reference_cell_in_range(x: int, y: int)
    ensures
        0 <= reference_cell(x, y) <= 5,
        x == 0 || y == 0 || x == GRID_N - 1 || y == GRID_N - 1 ==> reference_cell(x, y) == 1,
{
}

/// Executable twin of `reference_cell`.
fn reference_cell_at(x: usize, y: usize) -> (v: i32)
    ensures
        v == reference_cell(x as int, y as int),
{
    if x == 0 || y == 0 || x == GRID_N - 1 || y == GRID_N - 1 {
        1
    } else if y == 4 {
        if 6 <= x && x <= 10 {
            2
        } else if x == 15 || x == 17 || x == 19 {
            3
        } else {
            0
        }
    } else if y == 5 || y == 7 {
        if x == 6 || x == 10 {
            2
        } else {
            0
        }
    } else if y == 6 {
        if x == 6 || x == 10 {
            2
        } else if x == 15 || x == 19 {
            3
        } else {
            0
        }
    } else if y == 8 {
        if x == 6 || x == 7 || x == 9 || x == 10 {
            2
        } else if x == 15 || x == 17 || x == 19 {
            3
        } else {
            0
        }
    } else if y == 16 || y == 22 {
        if 1 <= x && x <= 8 {
            4
        } else {
            0
        }
    } else if y == 17 || y == 19 {
        if x == 1 || x == 3 || x == 8 {
            4
        } else {
            0
        }
    } else if y == 18 {
        if x == 1 || x == 8 {
            4
        } else if x == 6 {
            5
        } else {
            0
        }
    } else if y == 20 {
        if x == 1 || (3 <= x && x <= 8) {
            4
        } else {
            0
        }
    } else if y == 21 {
        if x == 1 {
            4
        } else {
            0
        }
    } else {
        0
    }
}

} // verus!
