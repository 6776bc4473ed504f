use ronway::cell::{CellState, Location};
use ronway::game::GameState;
use ronway::grid::initialize;
use ronway::render::{build_instances, CellColor, CellSquare};
use ronway::ROWS;

fn same_cells(a: &GameState, b: &GameState) -> bool {
    for x in 0..ROWS {
        for y in 0..ROWS {
            if a.cell(x, y) != b.cell(x, y) {
                return false;
            }
        }
    }
    a.instances() == b.instances()
}

fn is_parity_grid(s: &GameState) -> bool {
    let g = initialize(ROWS);
    for x in 0..ROWS {
        for y in 0..ROWS {
            if s.cell(x, y) != Some(g[x][y]) {
                return false;
            }
        }
    }
    true
}

#[test]
fn new_state_holds_the_parity_grid_and_its_batch() {
    let s = GameState::new(42);
    assert_eq!(s.last_update(), 42);
    assert!(is_parity_grid(&s));
    let g = initialize(ROWS);
    assert_eq!(s.instances(), &build_instances(&g, ROWS));
    assert_eq!(s.instances().len(), 75 * 75);
    assert_eq!(s.instances()[0], CellSquare { x: 0, y: 0, size: 10, color: CellColor::White });
    assert_eq!(s.instances()[1], CellSquare { x: 0, y: 10, size: 10, color: CellColor::Black });
}

#[test]
fn cell_outside_grid_is_none() {
    let s = GameState::new(0);
    assert_eq!(s.cell(ROWS, 0), None);
    assert_eq!(s.cell(0, ROWS), None);
    let c = s.cell(74, 73).unwrap();
    assert_eq!(c.state, CellState::Alive);
    assert_eq!(c.location, Location { x: 74, y: 73 });
}

#[test]
fn update_before_interval_changes_nothing() {
    let mut s = GameState::new(1000);
    let before = GameState::new(1000);
    s.update(1000);
    s.update(1499);
    assert_eq!(s.last_update(), 1000);
    assert!(same_cells(&s, &before));
}

#[test]
fn update_with_clock_behind_changes_nothing() {
    let mut s = GameState::new(1000);
    s.update(10);
    assert_eq!(s.last_update(), 1000);
}

#[test]
fn update_after_interval_restarts_timer() {
    let mut s = GameState::new(1000);
    s.update(1500);
    assert_eq!(s.last_update(), 1500);
    let mut t = GameState::new(1000);
    t.update(2750);
    assert_eq!(t.last_update(), 2750);
}

#[test]
fn immediate_update_after_firing_is_a_no_op() {
    let mut s = GameState::new(0);
    s.update(600);
    assert_eq!(s.last_update(), 600);
    s.update(600);
    assert_eq!(s.last_update(), 600);
    s.update(1099);
    assert_eq!(s.last_update(), 600);
    s.update(1100);
    assert_eq!(s.last_update(), 1100);
}

#[test]
fn many_updates_keep_the_parity_grid() {
    let mut s = GameState::new(0);
    let fresh = GameState::new(0);
    let mut now: u64 = 0;
    for step in 0..40u64 {
        now += 137 + step * 31;
        s.update(now);
        assert!(is_parity_grid(&s));
    }
    assert!(same_cells(&s, &fresh));
}
