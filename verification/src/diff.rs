//! The comparison of two generations.
//!
//! A renderer that has drawn one generation needs to redraw only the cells
//! that differ in the next. Every cell whose state changed is reported, in
//! either direction, with the state it has now.

use crate::cell::CellState;
use crate::grid::{
    blank, coord_of, idx_to_xy, lemma_coord_in_range, lemma_index_of_coord, CellGrid,
};
use vstd::prelude::*;

verus! {

/// One cell whose state changed: where it is, and what it is now.
#[derive(Debug, Clone, Copy, PartialEq, Eq, Structural)]
pub struct DiffEntry {
    pub x: usize,
    pub y: usize,
    pub state: CellState,
}

/// The entry that reports the cell at a row-major position of `cells`.
pub open spec fn entry_at(width: int, cells: Seq<CellState>, index: int) -> DiffEntry {
    DiffEntry {
        x: coord_of(width, index).0 as usize,
        y: coord_of(width, index).1 as usize,
        state: cells[index],
    }
}

/// The entries for the positions below `upto` at which `before` and `after`
/// differ, in increasing order of position.
pub open spec fn diff_prefix(
    width: int,
    before: Seq<CellState>,
    after: Seq<CellState>,
    upto: nat,
) -> Seq<DiffEntry>
    decreases upto,
{
    if upto == 0 {
        Seq::empty()
    } else {
        let index = upto - 1;
        let earlier = diff_prefix(width, before, after, index as nat);
        if before[index] != after[index] {
            earlier.push(entry_at(width, after, index))
        } else {
            earlier
        }
    }
}

/// The entries for all positions at which `before` and `after` differ, in
/// increasing order of position.
pub open spec fn diff_of(width: int, before: Seq<CellState>, after: Seq<CellState>) -> Seq<
    DiffEntry,
> {
    diff_prefix(width, before, after, after.len())
}

/// The number of live cells among the first `upto` cells.
pub open spec fn live_count(cells: Seq<CellState>, upto: nat) -> nat
    decreases upto,
{
    if upto == 0 {
        0
    } else {
        live_count(cells, (upto - 1) as nat) + if cells[upto - 1] == CellState::Alive {
            1nat
        } else {
            0nat
        }
    }
}

/// Two equal generations differ nowhere.
pub proof fn lemma_diff_of_same_is_empty(width: int, cells: Seq<CellState>, upto: nat)
    ensures
        diff_prefix(width, cells, cells, upto) == Seq::<DiffEntry>::empty(),
    decreases upto,
{
    if upto > 0 {
        lemma_diff_of_same_is_empty(width, cells, (upto - 1) as nat);
    }
}

/// Against a grid of dead cells, a generation with a single live cell
/// differs in that cell and in no other.
pub proof fn lemma_diff_of_single_birth(
    width: int,
    after: Seq<CellState>,
    born: int,
    upto: nat,
)
    requires
        0 <= born < after.len(),
        upto <= after.len(),
        forall|i: int| 0 <= i < after.len() ==> (after[i] == CellState::Alive <==> i == born),
    ensures
        diff_prefix(width, blank(after.len()), after, upto) == if born < upto {
            seq![entry_at(width, after, born)]
        } else {
            Seq::<DiffEntry>::empty()
        },
        entry_at(width, after, born).state == CellState::Alive,
    decreases upto,
{
    if upto > 0 {
        lemma_diff_of_single_birth(width, after, born, (upto - 1) as nat);
        let index = upto - 1;
        if index == born {
            assert(Seq::<DiffEntry>::empty().push(entry_at(width, after, born))
                =~= seq![entry_at(width, after, born)]);
        }
    }
}

/// Against a grid of dead cells, a generation differs in as many cells as
/// it has live ones.
pub proof fn lemma_diff_from_blank_counts_live(width: int, after: Seq<CellState>, upto: nat)
    requires
        upto <= after.len(),
    ensures
        diff_prefix(width, blank(after.len()), after, upto).len() == live_count(after, upto),
    decreases upto,
{
    if upto > 0 {
        lemma_diff_from_blank_counts_live(width, after, (upto - 1) as nat);
    }
}

/// Every entry of a comparison reports a position at which the two
/// generations differ, and a later entry reports a later position.
pub proof fn lemma_diff_entries_in_order(
    width: int,
    before: Seq<CellState>,
    after: Seq<CellState>,
    upto: nat,
) -> (positions: Seq<int>)
    requires
        upto <= before.len(),
        upto <= after.len(),
    ensures
        positions.len() == diff_prefix(width, before, after, upto).len(),
        forall|j: int|
            0 <= j < positions.len() ==> 0 <= #[trigger] positions[j] < upto && before[positions[j]]
                != after[positions[j]] && diff_prefix(width, before, after, upto)[j] == entry_at(
                width,
                after,
                positions[j],
            ),
        forall|j: int, k: int|
            0 <= j < k < positions.len() ==> #[trigger] positions[j] < #[trigger] positions[k],
        forall|i: int|
            0 <= i < upto && before[i] != after[i] ==> #[trigger] positions.contains(i),
    decreases upto,
{
    if upto == 0 {
        Seq::empty()
    } else {
        let index = upto - 1;
        let earlier = lemma_diff_entries_in_order(width, before, after, index as nat);
        if before[index] != after[index] {
            let positions = earlier.push(index);
            assert forall|i: int| 0 <= i < upto && before[i] != after[i] implies positions.contains(
                i,
            ) by {
                if i < index {
                    assert(earlier.contains(i));
                    let j = choose|j: int| 0 <= j < earlier.len() && earlier[j] == i;
                    assert(positions[j] == i);
                } else {
                    assert(positions[earlier.len() as int] == i);
                }
            }
            positions
        } else {
            earlier
        }
    }
}

/// Compares the generation that was drawn last with the one that is to be
/// drawn now, two grids of the same shape, and lists every cell whose state
/// differs, with its new state, in row-major order.
pub fn diff(previous: &CellGrid, latest: &CellGrid) -> (changes: Vec<DiffEntry>)
    requires
        previous.wf(),
        latest.wf(),
        previous.same_shape(latest),
    ensures
        changes@ == diff_of(latest.spec_width() as int, previous@, latest@),
{
    let width: usize = latest.width();
    let count: usize = latest.len();
    let mut changes: Vec<DiffEntry> = Vec::new();
    let mut index: usize = 0;
    while index < count
        invariant
            index <= count,
            count == latest@.len(),
            width == latest.spec_width(),
            previous.wf(),
            latest.wf(),
            previous.same_shape(latest),
            changes@ == diff_prefix(width as int, previous@, latest@, index as nat),
        decreases count - index,
    {
        let (x, y) = idx_to_xy(width, index);
        proof {
            lemma_coord_in_range(width as int, latest.spec_height() as int, index as int);
            lemma_index_of_coord(width as int, latest.spec_height() as int, index as int);
        }
        let was = match previous.get(x, y) {
            Ok(state) => state,
            Err(_) => CellState::Dead,
        };
        let is = match latest.get(x, y) {
            Ok(state) => state,
            Err(_) => CellState::Dead,
        };
        if was != is {
            changes.push(DiffEntry { x, y, state: is });
        }
        index = index + 1;
    }
    changes
}

} // verus!
