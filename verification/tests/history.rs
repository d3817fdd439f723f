use std::collections::VecDeque;

use game_of_life::grid::{initialize_grid, Grid};
use game_of_life::history::{detect_repeat, detect_steady_state, MAX_HISTORY};

/// The 4 by 4 grid whose live cells spell `number` in binary, so that
/// different numbers below 65536 give different grids.
fn numbered(number: usize) -> Grid {
    let mut grid = initialize_grid(4);
    for bit in 0..16 {
        grid[bit / 4][bit % 4] = number >> bit & 1 == 1;
    }
    grid
}

#[test]
fn history_capacity_is_ten() {
    assert_eq!(MAX_HISTORY, 10);
}

#[test]
fn first_presentation_is_recorded_and_second_is_a_repeat() {
    let grid = vec![vec![true, false], vec![false, true]];
    let mut history = VecDeque::new();
    assert!(!detect_steady_state(&grid, &mut history));
    assert_eq!(history.len(), 1);
    assert_eq!(history[0], grid);
    assert!(detect_steady_state(&grid, &mut history));
    assert_eq!(history.len(), 1);
    assert_eq!(history[0], grid);
}

#[test]
fn history_never_outgrows_its_capacity() {
    let mut history = VecDeque::new();
    for number in 0..3 * MAX_HISTORY {
        assert!(!detect_steady_state(&numbered(number), &mut history));
        assert_eq!(history.len(), (number + 1).min(MAX_HISTORY));
    }
}

#[test]
fn earliest_generation_is_forgotten_after_capacity_plus_one() {
    let mut history = VecDeque::new();
    for number in 0..=MAX_HISTORY {
        assert!(!detect_steady_state(&numbered(number), &mut history));
    }
    let expected: Vec<Grid> = (1..=MAX_HISTORY).map(numbered).collect();
    assert_eq!(history.iter().cloned().collect::<Vec<Grid>>(), expected);
    assert!(!detect_steady_state(&numbered(0), &mut history));
    assert!(detect_steady_state(&numbered(MAX_HISTORY), &mut history));
}

#[test]
fn generation_is_still_known_after_capacity_others() {
    let mut history = VecDeque::new();
    for number in 0..MAX_HISTORY {
        assert!(!detect_steady_state(&numbered(number), &mut history));
    }
    assert!(detect_steady_state(&numbered(0), &mut history));
    assert_eq!(history.len(), MAX_HISTORY);
}

#[test]
fn oldest_entry_leaves_first() {
    let mut history = VecDeque::new();
    for number in 0..5 {
        assert!(!detect_repeat(&numbered(number), &mut history, 3));
    }
    assert_eq!(history, VecDeque::from(vec![numbered(2), numbered(3), numbered(4)]));
}

#[test]
fn repeat_leaves_history_as_it_was() {
    let mut history = VecDeque::from(vec![numbered(1), numbered(2), numbered(3)]);
    assert!(detect_repeat(&numbered(1), &mut history, 3));
    assert_eq!(history, VecDeque::from(vec![numbered(1), numbered(2), numbered(3)]));
}

#[test]
fn capacity_of_one_remembers_the_last_generation_only() {
    let mut history = VecDeque::new();
    assert!(!detect_repeat(&numbered(7), &mut history, 1));
    assert!(detect_repeat(&numbered(7), &mut history, 1));
    assert!(!detect_repeat(&numbered(8), &mut history, 1));
    assert_eq!(history, VecDeque::from(vec![numbered(8)]));
    assert!(!detect_repeat(&numbered(7), &mut history, 1));
}

#[test]
fn capacity_of_zero_remembers_nothing() {
    let mut history = VecDeque::new();
    assert!(!detect_repeat(&numbered(7), &mut history, 0));
    assert!(history.is_empty());
    assert!(!detect_repeat(&numbered(7), &mut history, 0));
    assert!(history.is_empty());
}

#[test]
fn overfull_history_is_cut_to_its_newest_entries() {
    let mut history = VecDeque::from(vec![numbered(1), numbered(2), numbered(3), numbered(4)]);
    assert!(!detect_repeat(&numbered(5), &mut history, 2));
    assert_eq!(history, VecDeque::from(vec![numbered(4), numbered(5)]));
}

#[test]
fn grids_of_different_sizes_are_different() {
    let mut history = VecDeque::new();
    assert!(!detect_steady_state(&initialize_grid(2), &mut history));
    assert!(!detect_steady_state(&initialize_grid(3), &mut history));
    assert!(!detect_steady_state(&initialize_grid(0), &mut history));
    assert!(detect_steady_state(&initialize_grid(3), &mut history));
    assert!(detect_steady_state(&initialize_grid(0), &mut history));
    assert_eq!(history.len(), 3);
}
