//! A generation as text: one line per row, then the line that numbers it.

use vstd::prelude::*;
use crate::decimal::{append_signed_decimal, decimal_text};
use crate::grid::{Cells, Grid};

verus! {

/// The two characters that show one cell: `# ` for a live cell, `. ` for a
/// dead one.
pub open spec fn cell_text(alive: bool) -> Seq<char> {
    if alive {
        seq!['#', ' ']
    } else {
        seq!['.', ' ']
    }
}

/// The cells of one row, side by side.
pub open spec fn row_text(row: Seq<bool>) -> Seq<char>
    decreases row.len(),
{
    if row.len() == 0 {
        Seq::empty()
    } else {
        row_text(row.drop_last()) + cell_text(row.last())
    }
}

/// The rows from top to bottom, each followed by a line break.
pub open spec fn rows_text(cells: Cells) -> Seq<char>
    decreases cells.len(),
{
    if cells.len() == 0 {
        Seq::empty()
    } else {
        rows_text(cells.drop_last()) + row_text(cells.last()) + seq!['\n']
    }
}

/// What is shown of a generation: its rows, then a line with its number.
pub open spec fn frame_text(cells: Cells, iteration: int) -> Seq<char> {
    rows_text(cells) + "Iteration: "@ + decimal_text(iteration) + seq!['\n']
}

/// Renders the grid and the number of its generation as text.
pub fn render_grid(grid: &Grid, iteration: i32) -> (output: String)
    ensures
        output@ == frame_text(grid.deep_view(), iteration as int),
{
    let mut output = String::new();
    let mut row: usize = 0;
    while row < grid.len()
        invariant
            row <= grid.len(),
            output@ == rows_text(grid.deep_view().take(row as int)),
        decreases grid.len() - row,
    {
        let cells = &grid[row];
        let mut col: usize = 0;
        while col < cells.len()
            invariant
                row < grid.len(),
                cells == grid[row as int],
                col <= cells.len(),
                output@ == rows_text(grid.deep_view().take(row as int)) + row_text(
                    cells@.take(col as int),
                ),
            decreases cells.len() - col,
        {
            proof {
                reveal_strlit("# ");
                reveal_strlit(". ");
                assert(cells@.take(col + 1).drop_last() =~= cells@.take(col as int));
            }
            let shown = if cells[col] {
                "# "
            } else {
                ". "
            };
            output.append(shown);
            col += 1;
        }
        proof {
            reveal_strlit("\n");
            assert(cells@.take(col as int) =~= grid.deep_view()[row as int]);
            assert(grid.deep_view().take(row + 1).drop_last() =~= grid.deep_view().take(
                row as int,
            ));
        }
        output.append("\n");
        row += 1;
    }
    proof {
        reveal_strlit("\n");
        assert(grid.deep_view().take(row as int) =~= grid.deep_view());
    }
    output.append("Iteration: ");
    append_signed_decimal(&mut output, iteration as i64);
    output.append("\n");
    output
}

} // verus!
