use ronway::cell::{state_for, Cell, CellState, Location};
use ronway::grid::{initialize, recompute_states};
use ronway::{CELL_SIZE, ROWS, UPDATE_INTERVAL_MS, WINDOW_SIZE};

fn parity(x: usize, y: usize) -> CellState {
    if x % 2 != y % 2 {
        CellState::Alive
    } else {
        CellState::Dead
    }
}

#[test]
fn constants_give_a_75_by_75_grid() {
    assert_eq!(WINDOW_SIZE, 750);
    assert_eq!(CELL_SIZE, 10);
    assert_eq!(ROWS, 75);
    assert_eq!(UPDATE_INTERVAL_MS, 500);
}

#[test]
fn new_cell_is_dead_at_its_position() {
    let c = Cell::new(Location { x: 3, y: 7 });
    assert_eq!(c.state, CellState::Dead);
    assert_eq!(c.next_state, CellState::Dead);
    assert_eq!(c.location, Location { x: 3, y: 7 });
}

#[test]
fn state_for_follows_parity() {
    assert_eq!(state_for(Location { x: 0, y: 0 }), CellState::Dead);
    assert_eq!(state_for(Location { x: 0, y: 1 }), CellState::Alive);
    assert_eq!(state_for(Location { x: 5, y: 2 }), CellState::Alive);
    assert_eq!(state_for(Location { x: 7, y: 3 }), CellState::Dead);
}

#[test]
fn initialize_four_scenario() {
    let g = initialize(4);
    for (x, y) in [(0, 0), (1, 1), (2, 2), (3, 3)] {
        assert_eq!(g[x][y].state, CellState::Dead);
    }
    for (x, y) in [(0, 1), (1, 0), (1, 2), (2, 1)] {
        assert_eq!(g[x][y].state, CellState::Alive);
    }
}

#[test]
fn initialize_sets_every_cell_by_parity() {
    for n in [1usize, 2, 3, 10, 75] {
        let g = initialize(n);
        assert_eq!(g.len(), n);
        for x in 0..n {
            assert_eq!(g[x].len(), n);
            for y in 0..n {
                assert_eq!(g[x][y].state, parity(x, y));
                assert_eq!(g[x][y].next_state, CellState::Dead);
                assert_eq!(g[x][y].location, Location { x, y });
            }
        }
    }
}

#[test]
fn initialize_zero_is_empty() {
    assert!(initialize(0).is_empty());
}

#[test]
fn recompute_restores_parity_states() {
    let mut g = initialize(5);
    g[0][0].state = CellState::Alive;
    g[2][3].state = CellState::Dead;
    recompute_states(&mut g);
    assert_eq!(g, initialize(5));
}

#[test]
fn recompute_keeps_a_fresh_grid() {
    let mut g = initialize(6);
    recompute_states(&mut g);
    recompute_states(&mut g);
    assert_eq!(g, initialize(6));
}
