use game_of_life::grid::{initialize_grid, is_square_grid, Grid};
use game_of_life::seeding::{
    draw_seed_count, place_live_cell, seed_count_range, seed_grid_with_random_cells,
};

fn live_cells(grid: &Grid) -> usize {
    grid.iter().map(|row| row.iter().filter(|&&cell| cell).count()).sum()
}

#[test]
fn seed_count_range_runs_from_size_to_a_fifth_of_the_cells() {
    assert_eq!(seed_count_range(6), Some((6, 7)));
    assert_eq!(seed_count_range(7), Some((7, 9)));
    assert_eq!(seed_count_range(10), Some((10, 20)));
    assert_eq!(seed_count_range(30), Some((30, 180)));
    assert_eq!(seed_count_range(100), Some((100, 2000)));
}

#[test]
fn seed_count_range_is_empty_below_six_rows() {
    for size in 0..=5 {
        assert_eq!(seed_count_range(size), None);
    }
}

#[test]
fn drawn_seed_counts_lie_in_the_range() {
    let mut rng = rand::thread_rng();
    let mut above_lowest = false;
    for _ in 0..1000 {
        let count = draw_seed_count(30, &mut rng);
        assert!((30..180).contains(&count));
        above_lowest = above_lowest || count > 30;
    }
    assert!(above_lowest);
}

#[test]
fn drawn_seed_count_is_the_size_where_the_range_is_empty() {
    let mut rng = rand::thread_rng();
    for size in 0..=5 {
        assert_eq!(draw_seed_count(size, &mut rng), size);
    }
    assert_eq!(draw_seed_count(6, &mut rng), 6);
}

#[test]
fn placing_a_cell_changes_that_cell_only() {
    let mut grid = initialize_grid(3);
    place_live_cell(&mut grid, 1, 2);
    assert_eq!(
        grid,
        vec![
            vec![false, false, false],
            vec![false, false, true],
            vec![false, false, false],
        ]
    );
    place_live_cell(&mut grid, 1, 2);
    assert_eq!(live_cells(&grid), 1);
    place_live_cell(&mut grid, 0, 0);
    assert_eq!(
        grid,
        vec![
            vec![true, false, false],
            vec![false, false, true],
            vec![false, false, false],
        ]
    );
}

#[test]
fn seeding_an_empty_grid_does_nothing() {
    let mut grid = initialize_grid(0);
    seed_grid_with_random_cells(&mut grid);
    assert!(grid.is_empty());
}

#[test]
fn seeding_small_grids_places_at_most_size_cells() {
    for size in 1..=5usize {
        for _ in 0..20 {
            let mut grid = initialize_grid(size);
            seed_grid_with_random_cells(&mut grid);
            assert!(is_square_grid(&grid));
            assert_eq!(grid.len(), size);
            let live = live_cells(&grid);
            assert!(1 <= live && live <= size, "{} live cells on {} rows", live, size);
        }
    }
}

#[test]
fn seeding_places_fewer_cells_than_a_fifth_of_the_grid() {
    for size in [6usize, 10, 30, 100] {
        for _ in 0..20 {
            let mut grid = initialize_grid(size);
            seed_grid_with_random_cells(&mut grid);
            assert!(is_square_grid(&grid));
            assert_eq!(grid.len(), size);
            let live = live_cells(&grid);
            assert!(1 <= live && live < size * size / 5);
        }
    }
}

#[test]
fn seeding_scatters_the_cells() {
    let mut grid = initialize_grid(30);
    seed_grid_with_random_cells(&mut grid);
    assert!(live_cells(&grid) > 1);
}

#[test]
fn seeding_keeps_what_is_alive() {
    let mut grid = initialize_grid(10);
    for index in 0..10 {
        grid[index][index] = true;
    }
    seed_grid_with_random_cells(&mut grid);
    for index in 0..10 {
        assert!(grid[index][index]);
    }
    assert!(live_cells(&grid) < 10 + 20);
}
