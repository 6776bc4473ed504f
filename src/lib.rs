//! A grid of cells coloured by a parity rule, refreshed on a half-second
//! timer, together with the per-cell square records a renderer draws.
use vstd::prelude::*;

pub mod cell;
pub mod grid;
pub mod render;
pub mod game;

verus! {

/// Width and height of the window, in pixels.
pub const WINDOW_SIZE: usize = 750;

/// Side of one cell's square, in pixels.
pub const CELL_SIZE: usize = 10;

/// Number of cells along each side of the grid.
pub const ROWS: usize = WINDOW_SIZE / CELL_SIZE;

/// Minimum time, in milliseconds, between two updates of the grid.
pub const UPDATE_INTERVAL_MS: u64 = 500;

} // verus!
