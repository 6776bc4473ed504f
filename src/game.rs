//! The application state: the grid, the batch of squares drawn for it, and
//! the timestamp of the last update. Time is a count of milliseconds on a
//! monotonic clock whose origin the caller picks.
use vstd::prelude::*;

use crate::cell::Cell;
use crate::grid::{cells_of, initialize, is_initial_grid, lemma_recompute_keeps_initial, recompute_states, recomputed};
use crate::render::{build_instances, cell_square, has_own_locations, CellSquare};
use crate::{ROWS, UPDATE_INTERVAL_MS};

verus! {

/// The abstract state of a [`GameState`].
pub struct GameView {
    pub last_update: u64,
    pub cells: Seq<Seq<Cell>>,
    pub instances: Seq<CellSquare>,
}

/// The grid of a [`GameState`], its cells and its batch of squares.
pub struct GameState {
    last_update: u64,
    grid: Vec<Vec<Cell>>,
    instances: Vec<CellSquare>,
}

/// Milliseconds from `last` to `now`; a `now` before `last` counts as no time.
pub open spec fn elapsed(last: u64, now: u64) -> int {
    if now >= last {
        now - last
    } else {
        0
    }
}

/// The batch holds the square of cell `(x, y)` of the `n` by `n` grid at index `x * n + y`.
pub open spec fn instances_match(cells: Seq<Seq<Cell>>, instances: Seq<CellSquare>, n: int) -> bool {
    &&& instances.len() == n * n
    &&& forall|x: int, y: int|
        0 <= x < n && 0 <= y < n ==> #[trigger] instances[x * n + y] == cell_square(cells[x][y])
}

/// A well-formed state: the grid is the `ROWS` by `ROWS` parity grid, and the
/// batch holds one square per cell.
pub open spec fn game_wf(v: GameView) -> bool {
    &&& is_initial_grid(v.cells, ROWS as int)
    &&& instances_match(v.cells, v.instances, ROWS as int)
}

/// One update at time `now`: before the interval has passed, nothing changes;
/// after it, every state is recomputed and the timer restarts at `now`.
pub open spec fn update_spec(v: GameView, now: u64) -> GameView {
    if elapsed(v.last_update, now) < UPDATE_INTERVAL_MS {
        v
    } else {
        GameView { last_update: now, cells: recomputed(v.cells), instances: v.instances }
    }
}

/// The state after one update at each time of `nows`, in order.
pub open spec fn updates_spec(v: GameView, nows: Seq<u64>) -> GameView
    decreases nows.len(),
{
    if nows.len() == 0 {
        v
    } else {
        updates_spec(update_spec(v, nows[0]), nows.drop_first())
    }
}

/// However many updates run, at whatever times, the grid stays the parity
/// grid it was built as, and the state stays well formed.
pub proof fn lemma_updates_keep_parity(v: GameView, nows: Seq<u64>)
    requires
        game_wf(v),
    ensures
        game_wf(updates_spec(v, nows)),
        updates_spec(v, nows).cells == v.cells,
        is_initial_grid(updates_spec(v, nows).cells, ROWS as int),
    decreases nows.len(),
{
    if nows.len() > 0 {
        lemma_recompute_keeps_initial(v.cells, ROWS as int);
        lemma_updates_keep_parity(update_spec(v, nows[0]), nows.drop_first());
    }
}

/// An update that fires restarts the timer at its own time, so an update at
/// that time, or at any later time within the interval, changes nothing.
pub proof fn lemma_update_then_immediate_update_is_noop(v: GameView, now: u64, later: u64)
    requires
        elapsed(v.last_update, now) >= UPDATE_INTERVAL_MS,
        now <= later < now + UPDATE_INTERVAL_MS,
    ensures
        update_spec(v, now).last_update == now,
        update_spec(update_spec(v, now), later) == update_spec(v, now),
{
}

impl View for GameState {
    type V = GameView;

    closed spec fn view(&self) -> GameView {
        GameView { last_update: self.last_update, cells: cells_of(self.grid@), instances: self.instances@ }
    }
}

impl GameState {
    /// The state is well formed; construction establishes it and updates keep it.
    pub open spec fn wf(&self) -> bool {
        game_wf(self@)
    }

    /// Builds the `ROWS` by `ROWS` parity grid and its batch of squares,
    /// with the timer started at `now`.
    pub fn new(now: u64) -> (r: GameState)
        ensures
            r.wf(),
            r@.last_update == now,
            is_initial_grid(r@.cells, ROWS as int),
            instances_match(r@.cells, r@.instances, ROWS as int),
    {
        let grid = initialize(ROWS);
        proof {
            let g = cells_of(grid@);
            assert(has_own_locations(g, ROWS as int)) by {
                assert forall|x: int, y: int| 0 <= x < ROWS && 0 <= y < ROWS implies
                    (#[trigger] g[x][y]).location == (crate::cell::Location { x: x as usize, y: y as usize }) by {
                    assert(g[x][y] == crate::grid::initial_cell(x, y));
                }
            }
        }
        let instances = build_instances(&grid, ROWS);
        GameState { last_update: now, grid, instances }
    }

    /// The timed update. Before `UPDATE_INTERVAL_MS` milliseconds have passed
    /// since the last update it changes nothing; otherwise it recomputes every
    /// cell's state by the parity rule and restarts the timer at `now`.
    pub fn update(&mut self, now: u64)
        requires
            old(self).wf(),
        ensures
            final(self).wf(),
            final(self)@ == update_spec(old(self)@, now),
            elapsed(old(self)@.last_update, now) < UPDATE_INTERVAL_MS ==> final(self)@ == old(self)@,
            elapsed(old(self)@.last_update, now) >= UPDATE_INTERVAL_MS ==> final(self)@.last_update == now,
            final(self)@.cells == old(self)@.cells,
            final(self)@.instances == old(self)@.instances,
    {
        if now.saturating_sub(self.last_update) < UPDATE_INTERVAL_MS {
            return;
        }
        recompute_states(&mut self.grid);
        proof {
            lemma_recompute_keeps_initial(old(self)@.cells, ROWS as int);
        }
        self.last_update = now;
    }

    /// The cell at `(x, y)`, or `None` outside the grid.
    pub fn cell(&self, x: usize, y: usize) -> (r: Option<Cell>)
        requires
            self.wf(),
        ensures
            x < ROWS && y < ROWS ==> r == Some(self@.cells[x as int][y as int]),
            !(x < ROWS && y < ROWS) ==> r.is_none(),
    {
        if x < ROWS && y < ROWS {
            proof {
                assert(self.grid@[x as int]@ == self@.cells[x as int]);
            }
            Some(self.grid[x][y])
        } else {
            None
        }
    }

    /// The batch of squares, one per cell, in row-major order.
    pub fn instances(&self) -> (r: &Vec<CellSquare>)
        ensures
            r@ == self@.instances,
    {
        &self.instances
    }

    /// The time of the last update that fired, or of construction.
    pub fn last_update(&self) -> (r: u64)
        ensures
            r == self@.last_update,
    {
        self.last_update
    }
}

} // verus!
