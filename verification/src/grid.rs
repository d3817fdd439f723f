//! The cell matrix and its mathematical model.

use vstd::prelude::*;

verus! {

/// A square matrix of cells, stored row by row; `true` is a live cell.
pub type Grid = Vec<Vec<bool>>;

/// What a grid holds, as rows of cells: the model every contract speaks of.
/// For a `Grid` value `g` it is `g.deep_view()`.
pub type Cells = Seq<Seq<bool>>;

/// Every row is as long as the matrix has rows.
pub open spec fn is_square(cells: Cells) -> bool {
    forall|r: int| 0 <= r < cells.len() ==> (#[trigger] cells[r]).len() == cells.len()
}

/// The `n` by `n` matrix without a single live cell.
pub open spec fn all_dead(n: nat) -> Cells {
    Seq::new(n, |r: int| Seq::new(n, |c: int| false))
}

/// Builds the `grid_size` by `grid_size` grid in which every cell is dead.
pub fn initialize_grid(grid_size: usize) -> (grid: Grid)
    ensures
        grid.deep_view() == all_dead(grid_size as nat),
        is_square(grid.deep_view()),
        grid.len() == grid_size,
{
    let mut grid: Grid = Vec::new();
    let mut row: usize = 0;
    while row < grid_size
        invariant
            row <= grid_size,
            grid.len() == row,
            forall|r: int| 0 <= r < row ==> (#[trigger] grid[r])@ == Seq::new(
                grid_size as nat,
                |c: int| false,
            ),
        decreases grid_size - row,
    {
        let mut cells: Vec<bool> = Vec::new();
        let mut col: usize = 0;
        while col < grid_size
            invariant
                col <= grid_size,
                cells.len() == col,
                forall|c: int| 0 <= c < col ==> !cells[c],
            decreases grid_size - col,
        {
            cells.push(false);
            col += 1;
        }
        grid.push(cells);
        row += 1;
    }
    assert(grid.deep_view() =~~= all_dead(grid_size as nat));
    grid
}

/// Tells whether every row of `grid` is as long as the grid has rows.
pub fn is_square_grid(grid: &Grid) -> (square: bool)
    ensures
        square == is_square(grid.deep_view()),
{
    let size = grid.len();
    let mut row: usize = 0;
    while row < size
        invariant
            size == grid.len(),
            row <= size,
            forall|r: int| 0 <= r < row ==> (#[trigger] grid.deep_view()[r]).len() == size,
        decreases size - row,
    {
        if grid[row].len() != size {
            assert(grid.deep_view()[row as int].len() != size);
            return false;
        }
        row += 1;
    }
    true
}

} // verus!
