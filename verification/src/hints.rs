//! Facts about the hints: the number of mines around a cell.

use crate::cell::Cell;
use crate::grid::{
    adjacent, col_of, index_of, lemma_adjacent_iff_listed, lemma_coord_roundtrip,
    lemma_neighbor_coords_contains, neighbor_coords, row_of,
};
use crate::model::{adjacent_mines, mines_among};
use vstd::prelude::*;

verus! {

/// The number of mines at a list of positions depends only on which of the
/// cells at these positions hold a mine.
pub proof fn lemma_mines_among_same_kinds(
    a: Seq<Cell>,
    b: Seq<Cell>,
    width: int,
    coords: Seq<(int, int)>,
)
    requires
        forall|k: int|
            0 <= k < coords.len() ==> (a[index_of(width, (#[trigger] coords[k]).0, coords[k].1)] is Mine)
                == (b[index_of(width, coords[k].0, coords[k].1)] is Mine),
    ensures
        mines_among(a, width, coords) == mines_among(b, width, coords),
    decreases coords.len(),
{
    if coords.len() > 0 {
        let rest = coords.drop_last();
        assert forall|k: int| 0 <= k < rest.len() implies (a[index_of(
            width,
            (#[trigger] rest[k]).0,
            rest[k].1,
        )] is Mine) == (b[index_of(width, rest[k].0, rest[k].1)] is Mine) by {
            assert(rest[k] == coords[k]);
        }
        lemma_mines_among_same_kinds(a, b, width, rest);
        assert(coords.last() == coords[coords.len() - 1]);
    }
}

/// The number of mines around a cell depends only on which cells hold a
/// mine, not on what the player has done to them.
pub proof fn lemma_adjacent_mines_same_kinds(
    a: Seq<Cell>,
    b: Seq<Cell>,
    width: int,
    height: int,
    index: int,
)
    requires
        0 < width,
        a.len() == b.len() == width * height,
        forall|k: int| 0 <= k < a.len() ==> (a[k] is Mine) == (b[k] is Mine),
    ensures
        adjacent_mines(a, width, height, index) == adjacent_mines(b, width, height, index),
{
    let x = col_of(width, index);
    let y = row_of(width, index);
    let coords = neighbor_coords(width, height, x, y);
    assert forall|k: int| 0 <= k < coords.len() implies (a[index_of(
        width,
        (#[trigger] coords[k]).0,
        coords[k].1,
    )] is Mine) == (b[index_of(width, coords[k].0, coords[k].1)] is Mine) by {
        lemma_neighbor_coords_contains(width, height, x, y, coords[k]);
        crate::grid::lemma_index_in_range(width, height, coords[k].0, coords[k].1);
    }
    lemma_mines_among_same_kinds(a, b, width, coords);
}

/// No mine is counted at a list of positions exactly if none of them holds
/// a mine.
pub proof fn lemma_mines_among_zero(cells: Seq<Cell>, width: int, coords: Seq<(int, int)>)
    ensures
        mines_among(cells, width, coords) == 0 <==> forall|k: int|
            0 <= k < coords.len() ==> !(cells[index_of(width, (#[trigger] coords[k]).0, coords[k].1)] is Mine),
    decreases coords.len(),
{
    if coords.len() > 0 {
        let rest = coords.drop_last();
        lemma_mines_among_zero(cells, width, rest);
        assert(coords.last() == coords[coords.len() - 1]);
        if mines_among(cells, width, coords) == 0 {
            assert forall|k: int| 0 <= k < coords.len() implies !(cells[index_of(
                width,
                (#[trigger] coords[k]).0,
                coords[k].1,
            )] is Mine) by {
                if k < coords.len() - 1 {
                    assert(rest[k] == coords[k]);
                }
            }
        } else if forall|k: int|
            0 <= k < coords.len() ==> !(cells[index_of(width, (#[trigger] coords[k]).0, coords[k].1)] is Mine) {
            assert forall|k: int| 0 <= k < rest.len() implies !(cells[index_of(
                width,
                (#[trigger] rest[k]).0,
                rest[k].1,
            )] is Mine) by {
                assert(rest[k] == coords[k]);
            }
        }
    }
}

/// A cell around which no mine is counted touches no mine.
pub proof fn lemma_no_mine_around(cells: Seq<Cell>, width: int, height: int, a: int, b: int)
    requires
        0 < width,
        adjacent_mines(cells, width, height, a) == 0,
        adjacent(width, height, a, b),
    ensures
        !(cells[b] is Mine),
{
    let coords = neighbor_coords(width, height, col_of(width, a), row_of(width, a));
    let c = (col_of(width, b), row_of(width, b));
    lemma_adjacent_iff_listed(width, height, a, b);
    lemma_mines_among_zero(cells, width, coords);
    lemma_coord_roundtrip(width, height, b);
    let k = choose|k: int| 0 <= k < coords.len() && coords[k] == c;
    assert(!(cells[index_of(width, coords[k].0, coords[k].1)] is Mine));
}

} // verus!
