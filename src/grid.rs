//! The square grid of cells: its construction and the timed recompute pass.
use vstd::prelude::*;

use crate::cell::{state_for, Cell, CellState, Location, parity_state};

verus! {

/// The grid as nested sequences: `cells_of(g)[x][y]` is the cell at row `x`, column `y`.
pub open spec fn cells_of(grid: Seq<Vec<Cell>>) -> Seq<Seq<Cell>> {
    grid.map_values(|row: Vec<Cell>| row@)
}

/// The cell that construction places at `(x, y)`.
pub open spec fn initial_cell(x: int, y: int) -> Cell {
    Cell {
        state: parity_state(x, y),
        next_state: CellState::Dead,
        location: Location { x: x as usize, y: y as usize },
    }
}

/// `g` is an `n` by `n` square whose every row has length `n`.
pub open spec fn is_square(g: Seq<Seq<Cell>>, n: int) -> bool {
    &&& g.len() == n
    &&& forall|x: int| 0 <= x < n ==> #[trigger] g[x].len() == n
}

/// `g` is the `n` by `n` grid that construction yields.
pub open spec fn is_initial_grid(g: Seq<Seq<Cell>>, n: int) -> bool {
    &&& is_square(g, n)
    &&& forall|x: int, y: int| 0 <= x < n && 0 <= y < n ==> #[trigger] g[x][y] == initial_cell(x, y)
}

/// One cell after the recompute pass: its state follows the parity of its location.
pub open spec fn recomputed_cell(c: Cell) -> Cell {
    Cell { state: parity_state(c.location.x as int, c.location.y as int), ..c }
}

/// One row after the recompute pass.
pub open spec fn recomputed_row(row: Seq<Cell>) -> Seq<Cell> {
    row.map_values(|c: Cell| recomputed_cell(c))
}

/// The whole grid after the recompute pass.
pub open spec fn recomputed(g: Seq<Seq<Cell>>) -> Seq<Seq<Cell>> {
    g.map_values(|row: Seq<Cell>| recomputed_row(row))
}

/// Builds the `side_length` by `side_length` grid: each cell knows its
/// coordinate, and is alive exactly when the parities of `x` and `y` differ.
pub fn initialize(side_length: usize) -> (grid: Vec<Vec<Cell>>)
    ensures
        grid@.len() == side_length,
        forall|x: int| 0 <= x < side_length ==> #[trigger] grid@[x]@.len() == side_length,
        forall|x: int, y: int|
            0 <= x < side_length && 0 <= y < side_length ==> #[trigger] grid@[x]@[y] == initial_cell(x, y),
        is_initial_grid(cells_of(grid@), side_length as int),
{
    let mut grid: Vec<Vec<Cell>> = Vec::with_capacity(side_length);
    let mut x: usize = 0;
    while x < side_length
        invariant
            x <= side_length,
            grid@.len() == x,
            forall|i: int| 0 <= i < x ==> #[trigger] grid@[i]@.len() == side_length,
            forall|i: int, j: int|
                0 <= i < x && 0 <= j < side_length ==> #[trigger] grid@[i]@[j] == initial_cell(i, j),
        decreases side_length - x,
    {
        let mut row: Vec<Cell> = Vec::with_capacity(side_length);
        let mut y: usize = 0;
        while y < side_length
            invariant
                x < side_length,
                y <= side_length,
                row@.len() == y,
                forall|j: int| 0 <= j < y ==> #[trigger] row@[j] == initial_cell(x as int, j),
            decreases side_length - y,
        {
            let location = Location { x, y };
            let mut cell = Cell::new(location);
            cell.state = state_for(location);
            row.push(cell);
            y = y + 1;
        }
        grid.push(row);
        x = x + 1;
    }
    grid
}

/// Recomputes every cell's state from its location by the parity rule.
/// Nothing else in the grid changes.
pub fn recompute_states(grid: &mut Vec<Vec<Cell>>)
    ensures
        cells_of(final(grid)@) == recomputed(cells_of(old(grid)@)),
{
    let ghost start = cells_of(grid@);
    let mut x: usize = 0;
    while x < grid.len()
        invariant
            start == cells_of(old(grid)@),
            grid@.len() == start.len(),
            x <= grid@.len(),
            forall|i: int| 0 <= i < x ==> #[trigger] grid@[i]@ == recomputed_row(start[i]),
            forall|i: int| x <= i < grid@.len() ==> #[trigger] grid@[i]@ == start[i],
        decreases grid@.len() - x,
    {
        let n = grid[x].len();
        let mut y: usize = 0;
        while y < n
            invariant
                start == cells_of(old(grid)@),
                grid@.len() == start.len(),
                x < grid@.len(),
                n == start[x as int].len(),
                y <= n,
                grid@[x as int]@.len() == n,
                forall|j: int| 0 <= j < y ==> #[trigger] grid@[x as int]@[j] == recomputed_cell(start[x as int][j]),
                forall|j: int| y <= j < n ==> #[trigger] grid@[x as int]@[j] == start[x as int][j],
                forall|i: int| 0 <= i < x ==> #[trigger] grid@[i]@ == recomputed_row(start[i]),
                forall|i: int| x < i < grid@.len() ==> #[trigger] grid@[i]@ == start[i],
            decreases n - y,
        {
            let location = grid[x][y].location;
            grid[x][y].state = state_for(location);
            y = y + 1;
        }
        assert(grid@[x as int]@ =~= recomputed_row(start[x as int]));
        x = x + 1;
    }
    assert(cells_of(grid@) =~= recomputed(start));
}

/// Recomputing a freshly built grid changes nothing.
pub proof fn lemma_recompute_keeps_initial(g: Seq<Seq<Cell>>, n: int)
    requires
        0 <= n <= usize::MAX,
        is_initial_grid(g, n),
    ensures
        recomputed(g) == g,
{
    assert forall|x: int| 0 <= x < n implies #[trigger] recomputed(g)[x] == g[x] by {
        assert forall|y: int| 0 <= y < n implies #[trigger] recomputed_row(g[x])[y] == g[x][y] by {
            assert(g[x][y] == initial_cell(x, y));
        }
        assert(recomputed_row(g[x]) =~= g[x]);
    }
    assert(recomputed(g) =~= g);
}

} // verus!
