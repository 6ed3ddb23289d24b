//! Facts about the cascade: which cells a reveal reaches.

use crate::cell::{Cell, CellStatus};
use crate::grid::adjacent;
use crate::hints::lemma_adjacent_mines_same_kinds;
use crate::model::{adjacent_mines, flagged_count, BoardView};
use crate::tally::lemma_tally_pointwise;
use vstd::prelude::*;

verus! {

/// A reveal of a covered cell reaches that cell.
pub proof fn lemma_reaches_start(v: BoardView, i: int)
    requires
        0 <= i < v.cells.len(),
        v.cells[i].is_hidden(),
    ensures
        v.reaches(i, i),
{
    let p = seq![i];
    assert(v.cascade_path(p));
    assert(p.first() == i && p.last() == i);
}

/// Whatever a reveal reaches is a covered cell of the grid, and so is the
/// cell that was asked for.
pub proof fn lemma_reached_is_hidden(v: BoardView, i: int, j: int)
    requires
        v.reaches(i, j),
    ensures
        0 <= i < v.cells.len(),
        v.cells[i].is_hidden(),
        0 <= j < v.cells.len(),
        v.cells[j].is_hidden(),
{
    let p = choose|p: Seq<int>| #[trigger] v.cascade_path(p) && p.first() == i && p.last() == j;
    assert(p[0] == i);
    assert(p[p.len() - 1] == j);
}

/// The cascade goes on from a blank cell that it has reached to every
/// covered cell that touches it.
pub proof fn lemma_reaches_extend(v: BoardView, i: int, a: int, b: int)
    requires
        v.reaches(i, a),
        v.cells[a].is_blank(),
        adjacent(v.width(), v.height(), a, b),
        0 <= b < v.cells.len(),
        v.cells[b].is_hidden(),
    ensures
        v.reaches(i, b),
{
    let p = choose|p: Seq<int>| #[trigger] v.cascade_path(p) && p.first() == i && p.last() == a;
    let q = p.push(b);
    assert forall|k: int| 0 <= k < q.len() implies 0 <= #[trigger] q[k] < v.cells.len()
        && v.cells[q[k]].is_hidden() by {
        if k < p.len() {
            assert(q[k] == p[k]);
        }
    }
    assert forall|k: int| 0 <= k < q.len() - 1 implies #[trigger] v.link(q, k) by {
        if k < p.len() - 1 {
            assert(v.link(p, k));
            assert(q[k] == p[k] && q[k + 1] == p[k + 1]);
        } else {
            assert(q[k] == a && q[k + 1] == b);
        }
    }
    assert(v.cascade_path(q));
    assert(q.first() == p[0] && q.last() == b);
}

/// A reveal of a cell that is not blank reaches no other cell, and a
/// reveal of a cell that is not covered reaches none at all.
pub proof fn lemma_reaches_only_start(v: BoardView, i: int, j: int)
    requires
        v.reaches(i, j),
        !v.cells[i].is_blank(),
    ensures
        j == i,
{
    let p = choose|p: Seq<int>| #[trigger] v.cascade_path(p) && p.first() == i && p.last() == j;
    if p.len() > 1 {
        assert(v.link(p, 0));
    }
}

/// Every cell along a cascade path belongs to a set that holds the path's
/// first cell and, with each blank cell, the covered cells that touch it.
proof fn lemma_path_stays_inside(v: BoardView, p: Seq<int>, inside: spec_fn(int) -> bool, k: int)
    requires
        v.cascade_path(p),
        inside(p[0]),
        forall|a: int, b: int|
            inside(a) && v.cells[a].is_blank() && #[trigger] adjacent(v.width(), v.height(), a, b)
                && v.cells[b].is_hidden() ==> inside(b),
        0 <= k < p.len(),
    ensures
        inside(p[k]),
    decreases k,
{
    if k > 0 {
        lemma_path_stays_inside(v, p, inside, k - 1);
        assert(v.link(p, k - 1));
        assert(v.cells[p[k]].is_hidden());
    }
}

/// A set of cells that holds the cell asked for and, with each blank cell,
/// the covered cells that touch it, holds everything that the reveal
/// reaches.
pub proof fn lemma_reaches_inside(v: BoardView, i: int, inside: spec_fn(int) -> bool, j: int)
    requires
        inside(i),
        forall|a: int, b: int|
            inside(a) && v.cells[a].is_blank() && #[trigger] adjacent(v.width(), v.height(), a, b)
                && v.cells[b].is_hidden() ==> inside(b),
        v.reaches(i, j),
    ensures
        inside(j),
{
    let p = choose|p: Seq<int>| #[trigger] v.cascade_path(p) && p.first() == i && p.last() == j;
    lemma_path_stays_inside(v, p, inside, p.len() - 1);
}

/// Whatever a reveal reaches, other than the cell asked for, touches a
/// blank cell that the reveal reaches too.
pub proof fn lemma_reached_from_blank(v: BoardView, i: int, j: int)
    requires
        v.reaches(i, j),
        j != i,
    ensures
        exists|a: int|
            #[trigger] v.reaches(i, a) && v.cells[a].is_blank() && adjacent(
                v.width(),
                v.height(),
                a,
                j,
            ),
{
    let p = choose|p: Seq<int>| #[trigger] v.cascade_path(p) && p.first() == i && p.last() == j;
    let q = p.drop_last();
    assert(p.len() >= 2);
    assert forall|k: int| 0 <= k < q.len() implies 0 <= #[trigger] q[k] < v.cells.len()
        && v.cells[q[k]].is_hidden() by {
        assert(q[k] == p[k]);
    }
    assert forall|k: int| 0 <= k < q.len() - 1 implies #[trigger] v.link(q, k) by {
        assert(v.link(p, k));
        assert(q[k] == p[k] && q[k + 1] == p[k + 1]);
    }
    assert(v.cascade_path(q));
    assert(q.first() == i);
    assert(v.link(p, p.len() - 2));
    assert(q.last() == p[p.len() - 2]);
    assert(v.reaches(i, q.last()));
}

/// Uncovering covered cells leaves a well-formed grid well formed, and
/// the number of flags as it is.
pub proof fn lemma_uncover_keeps_grid(v: BoardView, cells: Seq<Cell>)
    requires
        v.grid_wf(),
        cells.len() == v.cells.len(),
        forall|j: int|
            0 <= j < cells.len() ==> cells[j] == v.cells[j] || (v.cells[j].is_hidden() && cells[j]
                == v.cells[j].with_status(CellStatus::Revealed)),
    ensures
        (BoardView { cells, ..v }).grid_wf(),
        flagged_count(cells) == flagged_count(v.cells),
{
    lemma_tally_pointwise(cells, |c: Cell| c is Mine, v.cells, |c: Cell| c is Mine);
    lemma_tally_pointwise(
        cells,
        |c: Cell| c.status() == CellStatus::Flagged,
        v.cells,
        |c: Cell| c.status() == CellStatus::Flagged,
    );
    assert forall|i: int| 0 <= i < cells.len() implies ((#[trigger] cells[i]) matches Cell::Empty {
        mines,
        ..
    } ==> mines == adjacent_mines(cells, v.width(), v.height(), i)) by {
        lemma_adjacent_mines_same_kinds(cells, v.cells, v.width(), v.height(), i);
        assert(v.cells[i] is Empty ==> v.cells[i]->mines == adjacent_mines(
            v.cells,
            v.width(),
            v.height(),
            i,
        ));
    }
    assert forall|i: int| 0 <= i < cells.len() implies (#[trigger] cells[i]).index() == i by {
        assert(v.cells[i].index() == i);
    }
}

/// A reveal leaves a well-formed grid well formed, and the number of
/// flags as it is.
pub proof fn lemma_reveal_keeps_grid(v: BoardView, i: int)
    requires
        v.grid_wf(),
    ensures
        (BoardView { cells: v.reveal_from(i), ..v }).grid_wf(),
        flagged_count(v.reveal_from(i)) == flagged_count(v.cells),
{
    let cells = v.reveal_from(i);
    assert forall|j: int| 0 <= j < cells.len() implies cells[j] == v.cells[j] || (
    v.cells[j].is_hidden() && cells[j] == v.cells[j].with_status(CellStatus::Revealed)) by {
        if v.reaches(i, j) {
            lemma_reached_is_hidden(v, i, j);
        }
    }
    lemma_uncover_keeps_grid(v, cells);
}

} // verus!
