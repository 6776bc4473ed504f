//! What a renderer draws for the grid: one filled square per cell, black for
//! a live cell and white for a dead one, on a white background.
use vstd::prelude::*;

use crate::cell::{Cell, CellState, Location};
use crate::grid::is_square;
use crate::CELL_SIZE;

verus! {

/// The two colours a cell can be drawn in.
#[derive(Clone, Copy, Debug, PartialEq, Eq, Structural)]
pub enum CellColor {
    White,
    Black,
}

/// The colour the frame is cleared to before the cells are drawn.
pub const BACKGROUND: CellColor = CellColor::White;

/// A filled square of side `size` pixels whose top-left corner is at pixel `(x, y)`.
#[derive(Clone, Copy, Debug, PartialEq, Eq, Structural)]
pub struct CellSquare {
    pub x: usize,
    pub y: usize,
    pub size: usize,
    pub color: CellColor,
}

/// Live cells are black, dead cells white.
pub open spec fn color_of(state: CellState) -> CellColor {
    match state {
        CellState::Alive => CellColor::Black,
        CellState::Dead => CellColor::White,
    }
}

/// The square drawn for a cell: at its location scaled by the cell size.
pub open spec fn cell_square(c: Cell) -> CellSquare {
    CellSquare {
        x: (c.location.x * CELL_SIZE) as usize,
        y: (c.location.y * CELL_SIZE) as usize,
        size: CELL_SIZE,
        color: color_of(c.state),
    }
}

/// Every cell of the `n` by `n` grid `g` sits at its own coordinate.
pub open spec fn has_own_locations(g: Seq<Seq<Cell>>, n: int) -> bool {
    &&& is_square(g, n)
    &&& forall|x: int, y: int|
        0 <= x < n && 0 <= y < n ==> (#[trigger] g[x][y]).location == (Location { x: x as usize, y: y as usize })
}

/// A location whose pixel position fits in a `usize`.
pub open spec fn drawable(loc: Location) -> bool {
    &&& loc.x * CELL_SIZE <= usize::MAX
    &&& loc.y * CELL_SIZE <= usize::MAX
}

/// The colour for a cell state.
pub fn color_for(state: CellState) -> (r: CellColor)
    ensures
        r == color_of(state),
{
    match state {
        CellState::Alive => CellColor::Black,
        CellState::Dead => CellColor::White,
    }
}

/// The square to draw for one cell.
pub fn square_for(cell: &Cell) -> (r: CellSquare)
    requires
        drawable(cell.location),
    ensures
        r == cell_square(*cell),
{
    CellSquare {
        x: cell.location.x * CELL_SIZE,
        y: cell.location.y * CELL_SIZE,
        size: CELL_SIZE,
        color: color_for(cell.state),
    }
}

proof fn lemma_row_major_index(i: int, j: int, x: int, n: int)
    requires
        0 <= i < x,
        0 <= j < n,
    ensures
        0 <= i * n + j < x * n,
{
    assert(i * n + j < (i + 1) * n) by (nonlinear_arith)
        requires 0 <= j < n;
    assert((i + 1) * n <= x * n) by (nonlinear_arith)
        requires i + 1 <= x, 0 <= j < n;
    assert(0 <= i * n) by (nonlinear_arith)
        requires 0 <= i, 0 <= j < n;
}

/// The batch of squares for the whole grid, in row-major order: the square
/// of cell `(x, y)` stands at index `x * n + y`.
pub fn build_instances(grid: &Vec<Vec<Cell>>, n: usize) -> (r: Vec<CellSquare>)
    requires
        has_own_locations(crate::grid::cells_of(grid@), n as int),
        n * CELL_SIZE <= usize::MAX,
    ensures
        r@.len() == n * n,
        forall|x: int, y: int|
            0 <= x < n && 0 <= y < n ==> #[trigger] r@[x * n + y] == cell_square(grid@[x]@[y]),
{
    let ghost g = crate::grid::cells_of(grid@);
    let mut r: Vec<CellSquare> = Vec::new();
    let mut x: usize = 0;
    while x < n
        invariant
            g == crate::grid::cells_of(grid@),
            has_own_locations(g, n as int),
            n * CELL_SIZE <= usize::MAX,
            x <= n,
            r@.len() == x * n,
            forall|i: int, j: int|
                0 <= i < x && 0 <= j < n ==> #[trigger] r@[i * n + j] == cell_square(g[i][j]),
        decreases n - x,
    {
        let mut y: usize = 0;
        while y < n
            invariant
                g == crate::grid::cells_of(grid@),
                has_own_locations(g, n as int),
                n * CELL_SIZE <= usize::MAX,
                x < n,
                y <= n,
                r@.len() == x * n + y,
                forall|i: int, j: int|
                    0 <= i < x && 0 <= j < n ==> #[trigger] r@[i * n + j] == cell_square(g[i][j]),
                forall|j: int| 0 <= j < y ==> #[trigger] r@[x * n + j] == cell_square(g[x as int][j]),
            decreases n - y,
        {
            assert(g[x as int][y as int] == grid@[x as int]@[y as int]);
            assert(x * CELL_SIZE <= n * CELL_SIZE) by (nonlinear_arith)
                requires x < n;
            assert(y * CELL_SIZE <= n * CELL_SIZE) by (nonlinear_arith)
                requires y < n;
            let square = square_for(&grid[x][y]);
            let ghost before = r@;
            r.push(square);
            assert forall|i: int, j: int| 0 <= i < x && 0 <= j < n implies #[trigger] r@[i * n + j] == cell_square(g[i][j]) by {
                lemma_row_major_index(i, j, x as int, n as int);
                assert(r@[i * n + j] == before[i * n + j]);
            }
            y = y + 1;
        }
        assert((x + 1) * n == x * n + n) by (nonlinear_arith);
        x = x + 1;
    }
    r
}

} // verus!
