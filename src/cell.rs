//! Cells, their coordinates and the parity rule that decides their state.
use vstd::prelude::*;

verus! {

/// The binary state of a cell.
#[derive(Clone, Copy, Debug, PartialEq, Eq, Structural)]
pub enum CellState {
    Dead,
    Alive,
}

/// An integer grid coordinate: `x` picks the row vector, `y` the cell in it.
#[derive(Clone, Copy, Debug, PartialEq, Eq, Structural)]
pub struct Location {
    pub x: usize,
    pub y: usize,
}

/// One cell of the grid. `next_state` is staged but never consumed.
#[derive(Clone, Copy, Debug, PartialEq, Eq, Structural)]
pub struct Cell {
    pub state: CellState,
    pub next_state: CellState,
    pub location: Location,
}

/// The parity rule: alive exactly when `x` and `y` differ in parity.
pub open spec fn parity_state(x: int, y: int) -> CellState {
    if x % 2 != y % 2 {
        CellState::Alive
    } else {
        CellState::Dead
    }
}

/// Computes the parity rule for a coordinate.
pub fn state_for(location: Location) -> (r: CellState)
    ensures
        r == parity_state(location.x as int, location.y as int),
{
    if location.x % 2 != location.y % 2 {
        CellState::Alive
    } else {
        CellState::Dead
    }
}

impl Cell {
    /// A dead cell, with a dead staged state, at `pos`.
    pub fn new(pos: Location) -> (r: Cell)
        ensures
            r.state == CellState::Dead,
            r.next_state == CellState::Dead,
            r.location == pos,
    {
        Cell { state: CellState::Dead, next_state: CellState::Dead, location: pos }
    }
}

} // verus!
