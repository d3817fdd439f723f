//! The first generation: a random scattering of live cells.

use rand::rngs::ThreadRng;
use rand::Rng;
use vstd::prelude::*;
use crate::grid::{Cells, Grid, is_square};

verus! {

/// `rand::rngs::ThreadRng`, the handle to a thread's random number generator.
/// Nothing is known of what it holds.
#[verifier::external_type_specification]
#[verifier::external_body]
pub struct ExThreadRng(ThreadRng);

/// `rand::thread_rng` hands out the calling thread's generator, which the
/// system seeds. Nothing is claimed of the generator. (It gives up where the
/// system cannot supply a seed.)
pub assume_specification[ rand::thread_rng ]() -> (rng: ThreadRng)
;

/// `Rng::gen_range` on the half-open range `low..high`: some value of that
/// range comes back. The call rejects an empty range, so `low < high` is
/// asked for. Which value comes back is left open; two calls may differ.
#[verifier::external_body]
fn random_in_range(rng: &mut ThreadRng, low: usize, high: usize) -> (drawn: usize)
    requires
        low < high,
    ensures
        low <= drawn < high,
{
    rng.gen_range(low..high)
}

/// How many live cells seeding may place on a matrix of `n` rows: a number of
/// the half-open range from `n` to `n * n / 5` where that range holds any,
/// which is from six rows on, and otherwise exactly `n`.
pub open spec fn is_seed_count(n: nat, count: nat) -> bool {
    if n < n * n / 5 {
        n <= count < n * n / 5
    } else {
        count == n
    }
}

/// `cells` with the cell at `(row, col)` alive and every other cell as it was.
pub open spec fn with_live_cell(cells: Cells, row: int, col: int) -> Cells {
    cells.update(row, cells[row].update(col, true))
}

/// `cells` with the cells at `positions` alive and every other cell as it
/// was. A position may occur more than once.
pub open spec fn with_live_cells(cells: Cells, positions: Seq<(int, int)>) -> Cells
    decreases positions.len(),
{
    if positions.len() == 0 {
        cells
    } else {
        with_live_cell(
            with_live_cells(cells, positions.drop_last()),
            positions.last().0,
            positions.last().1,
        )
    }
}

/// Whether `after` can come from seeding `before`: live cells were placed at
/// `positions`, all inside the matrix and as many as seeding may place, and
/// nothing else changed.
pub open spec fn is_seeding(before: Cells, positions: Seq<(int, int)>, after: Cells) -> bool {
    &&& is_seed_count(before.len(), positions.len())
    &&& forall|k: int|
        0 <= k < positions.len() ==> 0 <= (#[trigger] positions[k]).0 < before.len() && 0
            <= positions[k].1 < before.len()
    &&& after == with_live_cells(before, positions)
}

/// The range from `n` to `n * n / 5` holds a number from six rows on, and
/// none below that.
pub proof fn seed_range_starts_at_six_rows(n: nat)
    ensures
        n < n * n / 5 <==> n >= 6,
{
    if n >= 6 {
        assert(n * n >= 6 * n) by (nonlinear_arith)
            requires
                n >= 6,
        ;
    } else {
        assert(n * n <= 5 * n) by (nonlinear_arith)
            requires
                n <= 5,
        ;
    }
}

/// Placing live cells keeps the shape of the matrix, and a cell is alive
/// afterwards exactly if it was alive before or is one of those placed.
pub proof fn placed_cells_are_what_changes(
    cells: Cells,
    positions: Seq<(int, int)>,
    r: int,
    c: int,
)
    requires
        is_square(cells),
        forall|k: int|
            0 <= k < positions.len() ==> 0 <= (#[trigger] positions[k]).0 < cells.len() && 0
                <= positions[k].1 < cells.len(),
        0 <= r < cells.len(),
        0 <= c < cells.len(),
    ensures
        with_live_cells(cells, positions).len() == cells.len(),
        is_square(with_live_cells(cells, positions)),
        with_live_cells(cells, positions)[r][c] <==> cells[r][c] || exists|k: int|
            0 <= k < positions.len() && #[trigger] positions[k] == (r, c),
    decreases positions.len(),
{
    if positions.len() > 0 {
        let earlier = positions.drop_last();
        let last = positions.last();
        let before = with_live_cells(cells, earlier);
        placed_cells_are_what_changes(cells, earlier, r, c);
        assert forall|row: int| 0 <= row < cells.len() implies (#[trigger] with_live_cells(
            cells,
            positions,
        )[row]).len() == cells.len() by {
            placed_cells_are_what_changes(cells, earlier, row, 0);
        }
        // The last position is placed now; whatever was placed earlier is
        // still among the positions, and the other way round.
        if last == (r, c) {
            assert(positions[positions.len() - 1] == (r, c));
        } else if before[r][c] && !cells[r][c] {
            let k = choose|k: int| 0 <= k < earlier.len() && #[trigger] earlier[k] == (r, c);
            assert(positions[k] == (r, c));
        } else if exists|k: int| 0 <= k < positions.len() && #[trigger] positions[k] == (r, c) {
            let k = choose|k: int| 0 <= k < positions.len() && #[trigger] positions[k] == (r, c);
            assert(earlier[k] == (r, c));
        }
    }
}

/// The range that the number of seeded cells is drawn from, for a grid of
/// `grid_size` rows: from `grid_size` up to, but not including, a fifth of
/// the number of cells, rounded down. `None` where that range is empty.
pub fn seed_count_range(grid_size: usize) -> (range: Option<(usize, usize)>)
    requires
        grid_size * grid_size <= usize::MAX,
    ensures
        range == if grid_size < grid_size * grid_size / 5 {
            Some((grid_size, (grid_size * grid_size / 5) as usize))
        } else {
            None
        },
{
    let high = grid_size * grid_size / 5;
    if grid_size < high {
        Some((grid_size, high))
    } else {
        None
    }
}

/// Draws the number of live cells to place on a grid of `grid_size` rows:
/// from the range of `seed_count_range`, and `grid_size` itself where that
/// range is empty.
pub fn draw_seed_count(grid_size: usize, rng: &mut ThreadRng) -> (count: usize)
    requires
        grid_size * grid_size <= usize::MAX,
    ensures
        is_seed_count(grid_size as nat, count as nat),
{
    match seed_count_range(grid_size) {
        Some((low, high)) => random_in_range(rng, low, high),
        None => grid_size,
    }
}

/// Makes the cell at `(row, col)` alive; a cell that is alive stays so.
pub fn place_live_cell(grid: &mut Grid, row: usize, col: usize)
    requires
        is_square(old(grid).deep_view()),
        row < old(grid).len(),
        col < old(grid).len(),
    ensures
        final(grid).deep_view() == with_live_cell(old(grid).deep_view(), row as int, col as int),
        is_square(final(grid).deep_view()),
        final(grid).len() == old(grid).len(),
{
    assert(grid.deep_view()[row as int].len() == grid.len());
    grid[row][col] = true;
    assert(grid.deep_view() =~~= with_live_cell(old(grid).deep_view(), row as int, col as int));
}

/// Seeds the grid with random live cells: draws how many to place, then
/// places each at a position drawn from the whole grid. Two draws may hit the
/// same cell. Which positions are drawn is left to chance; whatever they are,
/// the grid afterwards is the grid before with exactly those cells alive, so
/// no cell dies of it.
pub fn seed_grid_with_random_cells(grid: &mut Grid)
    requires
        is_square(old(grid).deep_view()),
        old(grid).len() * old(grid).len() <= usize::MAX,
    ensures
        exists|positions: Seq<(int, int)>| #[trigger]
            is_seeding(old(grid).deep_view(), positions, final(grid).deep_view()),
        is_square(final(grid).deep_view()),
        final(grid).len() == old(grid).len(),
        forall|r: int, c: int|
            0 <= r < old(grid).len() && 0 <= c < old(grid).len() && old(grid).deep_view()[r][c]
                ==> #[trigger] final(grid).deep_view()[r][c],
{
    let size = grid.len();
    let mut rng = rand::thread_rng();
    let live_cells = draw_seed_count(size, &mut rng);
    assert(size == 0 ==> live_cells == 0) by {
        assert(size == 0 ==> size * size == 0) by (nonlinear_arith);
    }
    let ghost mut positions: Seq<(int, int)> = Seq::empty();
    let mut placed: usize = 0;
    while placed < live_cells
        invariant
            size == old(grid).len(),
            grid.len() == size,
            is_square(grid.deep_view()),
            placed <= live_cells,
            live_cells > 0 ==> size > 0,
            positions.len() == placed,
            forall|k: int|
                0 <= k < positions.len() ==> 0 <= (#[trigger] positions[k]).0 < size && 0
                    <= positions[k].1 < size,
            grid.deep_view() == with_live_cells(old(grid).deep_view(), positions),
        decreases live_cells - placed,
    {
        let x = random_in_range(&mut rng, 0, size);
        let y = random_in_range(&mut rng, 0, size);
        place_live_cell(grid, x, y);
        proof {
            let longer = positions.push((x as int, y as int));
            assert(longer.drop_last() =~= positions);
            positions = longer;
        }
        placed += 1;
    }
    assert(is_seeding(old(grid).deep_view(), positions, grid.deep_view()));
    assert forall|r: int, c: int|
        0 <= r < size && 0 <= c < size && old(grid).deep_view()[r][c] implies #[trigger] grid.deep_view()[r][c] by {
        placed_cells_are_what_changes(old(grid).deep_view(), positions, r, c);
    }
}

} // verus!
