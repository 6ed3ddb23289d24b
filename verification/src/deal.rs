//! Facts about dealing a board: what a layout of mines is and what a
//! shuffle leaves of it.

use crate::model::layout_mines;
use crate::params::{BoardError, BoardParams};
use crate::tally::lemma_tally_push;
use vstd::prelude::*;
use vstd::seq_lib::to_multiset_build;

verus! {

/// Why a layout and a list of keys cannot be dealt with the parameters, if
/// anything: a fault of the parameters comes first; then the layout and the
/// keys must each have one entry for each cell, and the layout must mark as
/// many positions as there are mines.
pub open spec fn deal_fault(params: BoardParams, layout: Seq<bool>, keys: Seq<u128>) -> Option<
    BoardError,
> {
    if params.fault() is Some {
        params.fault()
    } else if layout.len() != params.cell_count() || keys.len() != params.cell_count()
        || layout_mines(layout) != params.mines {
        Some(BoardError::LayoutMismatch)
    } else {
        None
    }
}

/// The layout before the shuffle: the first `mines` of `count` positions
/// are mined.
pub open spec fn first_mined(count: int, mines: int) -> Seq<bool> {
    Seq::new(count as nat, |i: int| i < mines)
}

/// A layout marks as many positions as the value `true` occurs in it.
pub proof fn lemma_layout_mines_is_count(layout: Seq<bool>)
    ensures
        layout_mines(layout) == layout.to_multiset().count(true),
    decreases layout.len(),
{
    if layout.len() > 0 {
        lemma_layout_mines_is_count(layout.drop_last());
        assert(layout.drop_last().push(layout.last()) =~= layout);
        to_multiset_build(layout.drop_last(), layout.last());
    } else {
        layout.to_multiset_ensures();
        assert(layout.to_multiset().len() == 0);
    }
}

/// A rearranged layout has the same length and marks as many positions.
pub proof fn lemma_rearranged_layout(before: Seq<bool>, after: Seq<bool>)
    requires
        after.to_multiset() == before.to_multiset(),
    ensures
        after.len() == before.len(),
        layout_mines(after) == layout_mines(before),
{
    before.to_multiset_ensures();
    after.to_multiset_ensures();
    lemma_layout_mines_is_count(before);
    lemma_layout_mines_is_count(after);
}

/// The layout before the shuffle marks exactly `mines` positions.
pub proof fn lemma_first_mined(count: int, mines: int)
    requires
        0 <= mines <= count,
    ensures
        layout_mines(first_mined(count, mines)) == mines,
    decreases count,
{
    if count > 0 {
        let shorter = if mines < count {
            mines
        } else {
            count - 1
        };
        lemma_first_mined(count - 1, shorter);
        assert(first_mined(count - 1, shorter).push(count - 1 < mines) =~= first_mined(
            count,
            mines,
        ));
        lemma_tally_push(first_mined(count - 1, shorter), |b: bool| b, count - 1 < mines);
    }
}

} // verus!
