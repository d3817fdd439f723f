//! The transition engine: neighbour counting on a hard-edged grid and the
//! step from one generation to the next.

use vstd::prelude::*;
use crate::grid::{Cells, Grid, is_square};

verus! {

/// 1 where `(r, c)` lies inside the matrix and holds a live cell, 0 anywhere
/// else. A position outside the matrix counts as absent: the edge is hard.
pub open spec fn live_at(cells: Cells, r: int, c: int) -> int {
    if 0 <= r < cells.len() && 0 <= c < cells.len() && cells[r][c] {
        1
    } else {
        0
    }
}

/// The number of live cells among the eight positions around `(r, c)`.
pub open spec fn live_neighbors(cells: Cells, r: int, c: int) -> int {
    live_at(cells, r - 1, c - 1) + live_at(cells, r - 1, c) + live_at(cells, r - 1, c + 1)
        + live_at(cells, r, c - 1) + live_at(cells, r, c + 1)
        + live_at(cells, r + 1, c - 1) + live_at(cells, r + 1, c) + live_at(cells, r + 1, c + 1)
}

/// The rule: a live cell stays alive with two or three live neighbours, a
/// dead cell comes alive with exactly three.
pub open spec fn next_state(alive: bool, neighbors: int) -> bool {
    if alive {
        neighbors == 2 || neighbors == 3
    } else {
        neighbors == 3
    }
}

/// The generation that follows `cells`: every cell decided by the rule from
/// `cells` alone.
pub open spec fn next_generation(cells: Cells) -> Cells {
    Seq::new(
        cells.len(),
        |r: int|
            Seq::new(cells.len(), |c: int| next_state(cells[r][c], live_neighbors(cells, r, c))),
    )
}

/// The rule, cell by cell: a cell has between zero and eight live neighbours;
/// a live cell is alive in the next generation exactly when two or three of
/// them are, a dead cell exactly when three are. The next generation has the
/// shape of the one before.
pub proof fn rule_of_life(cells: Cells, r: int, c: int)
    requires
        0 <= r < cells.len(),
        0 <= c < cells.len(),
    ensures
        0 <= live_neighbors(cells, r, c) <= 8,
        cells[r][c] ==> (next_generation(cells)[r][c] <==> (live_neighbors(cells, r, c) == 2
            || live_neighbors(cells, r, c) == 3)),
        !cells[r][c] ==> (next_generation(cells)[r][c] <==> live_neighbors(cells, r, c) == 3),
        next_generation(cells).len() == cells.len(),
        is_square(next_generation(cells)),
{
}

/// Whether the cell one offset away from `(row, col)` is inside the grid and
/// alive, as 1 or 0.
fn live_at_offset(grid: &Grid, row: usize, col: usize, d_row: i8, d_col: i8) -> (count: i32)
    requires
        is_square(grid.deep_view()),
        -1 <= d_row <= 1,
        -1 <= d_col <= 1,
    ensures
        count == live_at(grid.deep_view(), row + d_row, col + d_col),
{
    let size = grid.len() as i128;
    let r = row as i128 + d_row as i128;
    let c = col as i128 + d_col as i128;
    if 0 <= r && r < size && 0 <= c && c < size {
        assert(grid.deep_view()[r as int].len() == grid.len());
        if grid[r as usize][c as usize] {
            1
        } else {
            0
        }
    } else {
        0
    }
}

/// Counts how many of the eight cells around `(row, col)` are alive. Positions
/// beyond the edge are never read; `row` and `col` themselves may lie anywhere.
pub fn count_live_neighbors(grid: &Grid, row: usize, col: usize) -> (count: i32)
    requires
        is_square(grid.deep_view()),
    ensures
        count == live_neighbors(grid.deep_view(), row as int, col as int),
        0 <= count <= 8,
{
    let above = live_at_offset(grid, row, col, -1, -1) + live_at_offset(grid, row, col, -1, 0)
        + live_at_offset(grid, row, col, -1, 1);
    let beside = live_at_offset(grid, row, col, 0, -1) + live_at_offset(grid, row, col, 0, 1);
    let below = live_at_offset(grid, row, col, 1, -1) + live_at_offset(grid, row, col, 1, 0)
        + live_at_offset(grid, row, col, 1, 1);
    above + beside + below
}

/// Writes the generation that follows `current` into `next`. Each cell of
/// `next` is decided from `current` alone, which is only read.
pub fn compute_next_generation(current: &Grid, next: &mut Grid)
    requires
        is_square(current.deep_view()),
        is_square(old(next).deep_view()),
        old(next).len() == current.len(),
    ensures
        final(next).deep_view() == next_generation(current.deep_view()),
        is_square(final(next).deep_view()),
        final(next).len() == current.len(),
{
    let size = current.len();
    assert forall|r: int| 0 <= r < size implies (#[trigger] next@[r])@.len() == size by {
        assert(next.deep_view()[r].len() == size);
    }
    let mut row: usize = 0;
    while row < size
        invariant
            size == current.len(),
            is_square(current.deep_view()),
            row <= size,
            next.len() == size,
            forall|r: int| 0 <= r < size ==> (#[trigger] next@[r])@.len() == size,
            forall|r: int, c: int|
                0 <= r < row && 0 <= c < size ==> #[trigger] next@[r]@[c] == next_state(
                    current.deep_view()[r][c],
                    live_neighbors(current.deep_view(), r, c),
                ),
        decreases size - row,
    {
        let mut col: usize = 0;
        while col < size
            invariant
                size == current.len(),
                is_square(current.deep_view()),
                row < size,
                col <= size,
                next.len() == size,
                forall|r: int| 0 <= r < size ==> (#[trigger] next@[r])@.len() == size,
                forall|r: int, c: int|
                    0 <= r < row && 0 <= c < size ==> #[trigger] next@[r]@[c] == next_state(
                        current.deep_view()[r][c],
                        live_neighbors(current.deep_view(), r, c),
                    ),
                forall|c: int|
                    0 <= c < col ==> #[trigger] next@[row as int]@[c] == next_state(
                        current.deep_view()[row as int][c],
                        live_neighbors(current.deep_view(), row as int, c),
                    ),
            decreases size - col,
        {
            let neighbors = count_live_neighbors(current, row, col);
            let alive = current[row][col];
            next[row][col] = if alive {
                neighbors == 2 || neighbors == 3
            } else {
                neighbors == 3
            };
            col += 1;
        }
        row += 1;
    }
    assert(next.deep_view() =~~= next_generation(current.deep_view()));
}

} // verus!
