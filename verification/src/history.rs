//! Bounded memory of past generations and the test for a repeated one.

use std::collections::VecDeque;
use vstd::prelude::*;
use vstd::laws_eq::{group_laws_eq, obeys_deep_eq};
use vstd::std_specs::vec::lemma_vec_obeys_deep_eq;
use crate::grid::{Cells, Grid};

verus! {

/// How many past generations `detect_steady_state` keeps.
pub const MAX_HISTORY: usize = 10;

/// Whether some remembered generation equals `cells`, cell for cell.
pub open spec fn seen(history: Seq<Cells>, cells: Cells) -> bool {
    exists|i: int| 0 <= i < history.len() && #[trigger] history[i] == cells
}

/// The newest `capacity` entries of `entries`, oldest first.
pub open spec fn newest(entries: Seq<Cells>, capacity: nat) -> Seq<Cells> {
    if entries.len() <= capacity {
        entries
    } else {
        entries.subrange(entries.len() - capacity, entries.len() as int)
    }
}

/// The history after `cells` has been recorded: `cells` goes in as the newest
/// entry, and what no longer fits into `capacity` entries leaves, oldest
/// first.
pub open spec fn recorded(history: Seq<Cells>, cells: Cells, capacity: nat) -> Seq<Cells> {
    newest(history.push(cells), capacity)
}

/// The history after `cells` has been presented once: unchanged where `cells`
/// is a repeat, and with `cells` recorded where it is not.
pub open spec fn presented(history: Seq<Cells>, cells: Cells, capacity: nat) -> Seq<Cells> {
    if seen(history, cells) {
        history
    } else {
        recorded(history, cells, capacity)
    }
}

/// The history after the generations of `grids` have been presented one
/// after the other, `grids[0]` first.
pub open spec fn presented_all(history: Seq<Cells>, grids: Seq<Cells>, capacity: nat) -> Seq<
    Cells,
>
    decreases grids.len(),
{
    if grids.len() == 0 {
        history
    } else {
        presented(presented_all(history, grids.drop_last(), capacity), grids.last(), capacity)
    }
}

/// A history of at most `capacity` entries, with room for at least one, is
/// recorded into as a queue: where it is full its oldest entry leaves first,
/// then `cells` is appended. It holds at most `capacity` entries afterwards.
pub proof fn recording_evicts_oldest_when_full(history: Seq<Cells>, cells: Cells, capacity: nat)
    requires
        capacity >= 1,
        history.len() <= capacity,
    ensures
        history.len() < capacity ==> recorded(history, cells, capacity) == history.push(cells),
        history.len() == capacity ==> recorded(history, cells, capacity)
            == history.drop_first().push(cells),
        recorded(history, cells, capacity).len() <= capacity,
{
}

/// Presenting a generation never lets a history outgrow its capacity.
pub proof fn history_stays_bounded(history: Seq<Cells>, cells: Cells, capacity: nat)
    requires
        history.len() <= capacity,
    ensures
        presented(history, cells, capacity).len() <= capacity,
{
}

/// A generation presented to an empty history is no repeat and becomes its
/// only entry; presented a second time it is a repeat.
pub proof fn second_presentation_is_a_repeat(cells: Cells, capacity: nat)
    requires
        capacity >= 1,
    ensures
        !seen(Seq::empty(), cells),
        presented(Seq::empty(), cells, capacity) == seq![cells],
        seen(presented(Seq::empty(), cells, capacity), cells),
{
    assert(presented(Seq::empty(), cells, capacity)[0] == cells);
}

/// Presenting generations that differ from each other and from everything in
/// a history within its capacity records them all: what is left is the newest
/// `capacity` entries of the history followed by those generations.
pub proof fn fresh_generations_are_all_recorded(
    history: Seq<Cells>,
    grids: Seq<Cells>,
    capacity: nat,
)
    requires
        history.len() <= capacity,
        forall|i: int, j: int| 0 <= i < j < grids.len() ==> grids[i] != grids[j],
        forall|i: int| 0 <= i < grids.len() ==> !seen(history, #[trigger] grids[i]),
    ensures
        presented_all(history, grids, capacity) == newest(history + grids, capacity),
    decreases grids.len(),
{
    if grids.len() > 0 {
        let earlier = grids.drop_last();
        let last = grids.last();
        assert forall|i: int| 0 <= i < earlier.len() implies !seen(history, #[trigger] earlier[i]) by {
            assert(earlier[i] == grids[i]);
        }
        fresh_generations_are_all_recorded(history, earlier, capacity);
        // What was presented before `last` comes from the history or from
        // `earlier`, so `last` is not among it and is recorded in its turn.
        let before = presented_all(history, earlier, capacity);
        assert(!seen(before, last)) by {
            if seen(before, last) {
                let k = choose|k: int| 0 <= k < before.len() && #[trigger] before[k] == last;
                let all = history + earlier;
                let at = k + all.len() - before.len();
                assert(before[k] == all[at]);
                if at < history.len() {
                    assert(history[at] == grids[grids.len() - 1]);
                } else {
                    assert(grids[at - history.len()] == grids[grids.len() - 1]);
                }
            }
        }
        assert(history + grids =~= (history + earlier).push(last));
    }
}

/// Once `capacity + 1` generations have been recorded one after the other,
/// no two of them equal and none of them in the history beforehand, the first
/// of them has left the history: the others are all that it holds, and
/// presenting the first again finds no repeat.
pub proof fn oldest_generation_is_forgotten(history: Seq<Cells>, grids: Seq<Cells>, capacity: nat)
    requires
        history.len() <= capacity,
        grids.len() == capacity + 1,
        forall|i: int, j: int| 0 <= i < j < grids.len() ==> grids[i] != grids[j],
        forall|i: int| 0 <= i < grids.len() ==> !seen(history, #[trigger] grids[i]),
    ensures
        presented_all(history, grids, capacity) == grids.drop_first(),
        !seen(presented_all(history, grids, capacity), grids[0]),
{
    fresh_generations_are_all_recorded(history, grids, capacity);
}

/// Whether two grids hold the same cells.
fn same_cells(a: &Grid, b: &Grid) -> (same: bool)
    ensures
        same == (a.deep_view() == b.deep_view()),
{
    proof {
        broadcast use {group_laws_eq, lemma_vec_obeys_deep_eq};

        assert(obeys_deep_eq::<Grid>());
        reveal(obeys_deep_eq);
    }
    *a == *b
}

/// Tells whether `grid` equals a generation that `history` remembers. A grid
/// that is no repeat is recorded as the newest entry of `history`, which then
/// keeps its newest `capacity` entries; a repeat leaves `history` as it was.
pub fn detect_repeat(grid: &Grid, history: &mut VecDeque<Grid>, capacity: usize) -> (repeated:
    bool)
    ensures
        repeated == seen(old(history).deep_view(), grid.deep_view()),
        final(history).deep_view() == presented(
            old(history).deep_view(),
            grid.deep_view(),
            capacity as nat,
        ),
        repeated ==> final(history)@ == old(history)@,
        old(history).len() <= capacity ==> final(history).len() <= capacity,
{
    let mut index: usize = 0;
    while index < history.len()
        invariant
            *history == *old(history),
            index <= history.len(),
            forall|i: int| 0 <= i < index ==> #[trigger] history.deep_view()[i] != grid.deep_view(),
        decreases history.len() - index,
    {
        if same_cells(&history[index], grid) {
            assert(history.deep_view()[index as int] == grid.deep_view());
            return true;
        }
        index += 1;
    }
    if capacity == 0 {
        history.clear();
        return false;
    }
    while history.len() >= capacity
        invariant
            capacity >= 1,
            history.len() <= old(history).len(),
            history.len() == old(history).len() || history.len() + 1 >= capacity,
            history@ == old(history)@.subrange(
                old(history).len() - history.len(),
                old(history).len() as int,
            ),
        decreases history.len(),
    {
        history.pop_front();
    }
    history.push_back(grid.clone());
    false
}

/// Tells whether `grid` repeats one of the generations in `history`, and
/// records it where it does not, keeping at most `MAX_HISTORY` generations.
pub fn detect_steady_state(grid: &Grid, history: &mut VecDeque<Grid>) -> (repeated: bool)
    ensures
        repeated == seen(old(history).deep_view(), grid.deep_view()),
        final(history).deep_view() == presented(
            old(history).deep_view(),
            grid.deep_view(),
            MAX_HISTORY as nat,
        ),
        repeated ==> final(history)@ == old(history)@,
        old(history).len() <= MAX_HISTORY ==> final(history).len() <= MAX_HISTORY,
{
    detect_repeat(grid, history, MAX_HISTORY)
}

} // verus!
