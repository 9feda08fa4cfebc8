use cca::ConfigError;
use cca::CyclicAutomaton;

#[test]
fn test_get_neighbours() {
    let ground_truth: [usize; 8] = [99, 399, 699, 100, 700, 101, 401, 701];
    let neighbours = CyclicAutomaton::get_neighbours(400, 300, 300);
    assert_eq!(neighbours, ground_truth);

    let ground_truth: [usize; 8] = [149899, 399, 899, 149900, 900, 149901, 401, 901];
    let neighbours = CyclicAutomaton::get_neighbours(400, 500, 300);
    assert_eq!(neighbours, ground_truth);
}

#[test]
fn test_new_zeroed_grid() {
    let automaton = CyclicAutomaton::new(4, 3, 5, 2).unwrap();
    assert_eq!(automaton.width, 4);
    assert_eq!(automaton.height, 3);
    assert_eq!(automaton.num_states, 5);
    assert_eq!(automaton.threshold, 2);
    assert_eq!(automaton.grid, vec![0u8; 12]);
    assert_eq!(automaton.neighbours.len(), 12);
}

#[test]
fn test_new_rejects_zero_states() {
    let result = CyclicAutomaton::new(4, 3, 0, 1);
    assert_eq!(result.unwrap_err(), ConfigError::ZeroStates);
}

#[test]
fn test_new_rejects_oversized_grid() {
    let result = CyclicAutomaton::new(usize::MAX, 2, 5, 1);
    assert_eq!(result.unwrap_err(), ConfigError::GridTooLarge);
}

#[test]
fn test_new_empty_grid() {
    let mut automaton = CyclicAutomaton::new(0, 300, 5, 1).unwrap();
    assert_eq!(automaton.grid.len(), 0);
    automaton.randomize(1);
    automaton.next_generation();
    assert_eq!(automaton.grid.len(), 0);
}

#[test]
fn test_randomize_deterministic() {
    let mut a = CyclicAutomaton::new(30, 20, 5, 1).unwrap();
    let mut b = CyclicAutomaton::new(30, 20, 5, 1).unwrap();
    a.randomize(42);
    b.randomize(42);
    assert_eq!(a.grid, b.grid);

    let mut c = CyclicAutomaton::new(30, 20, 5, 1).unwrap();
    c.randomize(43);
    assert_ne!(a.grid, c.grid);
}

#[test]
fn test_randomize_domain() {
    let mut automaton = CyclicAutomaton::new(25, 25, 7, 1).unwrap();
    automaton.randomize(9);
    assert_eq!(automaton.grid.len(), 625);
    for &cell in automaton.grid.iter() {
        assert!(cell < 7);
    }
}

#[test]
fn test_step_domain() {
    let mut automaton = CyclicAutomaton::new(16, 16, 4, 1).unwrap();
    automaton.randomize(5);
    for _ in 0..10 {
        automaton.next_generation();
        assert_eq!(automaton.grid.len(), 256);
        for &cell in automaton.grid.iter() {
            assert!(cell < 4);
        }
    }
}

#[test]
fn test_fixed_point_above_max_neighbour_count() {
    let mut automaton = CyclicAutomaton::new(8, 8, 5, 9).unwrap();
    automaton.randomize(7);
    let before = automaton.grid.clone();
    automaton.next_generation();
    assert_eq!(automaton.grid, before);
}

#[test]
fn test_uniform_grid_reports_no_qualifying_neighbours() {
    let mut automaton = CyclicAutomaton::new(2, 2, 2, 1).unwrap();
    assert_eq!(automaton.grid, vec![0u8, 0, 0, 0]);
    assert_eq!(automaton.update_cell(0), 0);
    automaton.next_generation();
    assert_eq!(automaton.grid, vec![0u8, 0, 0, 0]);
}

#[test]
fn test_zero_threshold_advances_every_cell() {
    let mut automaton = CyclicAutomaton::new(3, 3, 3, 0).unwrap();
    automaton.next_generation();
    assert_eq!(automaton.grid, vec![1u8; 9]);
    automaton.next_generation();
    assert_eq!(automaton.grid, vec![2u8; 9]);
    automaton.next_generation();
    assert_eq!(automaton.grid, vec![0u8; 9]);
}

#[test]
fn test_update_cell_consumes_on_threshold() {
    // A single neighbour in the successor state meets threshold 1: on a
    // 3 by 3 torus, cell 0 must advance from 0 to 1 when cell 4 holds 1.
    let mut automaton = CyclicAutomaton::new(3, 3, 2, 1).unwrap();
    automaton.grid[4] = 1;
    assert_eq!(automaton.update_cell(0), 1);
    // Threshold 2 is not met by that one neighbour.
    let mut strict = CyclicAutomaton::new(3, 3, 2, 2).unwrap();
    strict.grid[4] = 1;
    assert_eq!(strict.update_cell(0), 0);
}
