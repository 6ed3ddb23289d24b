//! What holds of every game: the laws that the operations obey.

use crate::cascade::{
    lemma_reached_is_hidden, lemma_reaches_only_start, lemma_reaches_start,
    lemma_reveal_keeps_grid,
};
use crate::cell::{Cell, CellStatus, GameStatus};
use crate::grid::{
    col_of, in_grid, index_of, lemma_coord_roundtrip, lemma_index_in_range,
    lemma_index_roundtrip, row_of,
};
use crate::hints::{lemma_adjacent_mines_same_kinds, lemma_no_mine_around};
use crate::model::{adjacent_mines, flagged_count, is_won, mine_struck, BoardView};
use crate::tally::{lemma_tally_bound, lemma_tally_update};
use vstd::prelude::*;

verus! {

/// Positions and flat indices correspond one to one: every position of
/// the grid has an index of the cell array whose position it is, and every
/// index of the cell array has a position of the grid whose index it is.
pub proof fn lemma_coordinates_match_indices(width: int, height: int)
    requires
        0 < width,
    ensures
        forall|x: int, y: int|
            in_grid(width, height, x, y) ==> {
                let i = #[trigger] index_of(width, x, y);
                0 <= i < width * height && col_of(width, i) == x && row_of(width, i) == y
            },
        forall|i: int|
            #![trigger col_of(width, i)]
            #![trigger row_of(width, i)]
            0 <= i < width * height ==> in_grid(width, height, col_of(width, i), row_of(width, i))
                && index_of(width, col_of(width, i), row_of(width, i)) == i,
{
    assert forall|x: int, y: int| in_grid(width, height, x, y) implies {
        let i = #[trigger] index_of(width, x, y);
        0 <= i < width * height && col_of(width, i) == x && row_of(width, i) == y
    } by {
        lemma_index_in_range(width, height, x, y);
        lemma_index_roundtrip(width, x, y);
    }
    assert forall|i: int|
        #![trigger col_of(width, i)]
        #![trigger row_of(width, i)]
        0 <= i < width * height implies in_grid(
        width,
        height,
        col_of(width, i),
        row_of(width, i),
    ) && index_of(width, col_of(width, i), row_of(width, i)) == i by {
        lemma_coord_roundtrip(width, height, i);
    }
}

/// Two cells are the same but for what the player has done to them.
pub open spec fn same_but_status(a: Cell, b: Cell) -> bool {
    a.with_status(CellStatus::Hidden) == b.with_status(CellStatus::Hidden)
}

/// A reveal of a covered cell that is not blank, be it a mine or a cell
/// with a hint above zero, uncovers that cell and no other.
pub proof fn lemma_reveal_one(v: BoardView, i: int)
    requires
        0 <= i < v.cells.len(),
        v.cells[i].is_hidden(),
        !v.cells[i].is_blank(),
    ensures
        v.reveal_from(i) == v.cells.update(i, v.cells[i].with_status(CellStatus::Revealed)),
{
    lemma_reaches_start(v, i);
    assert forall|j: int| 0 <= j < v.cells.len() && j != i implies !v.reaches(i, j) by {
        if v.reaches(i, j) {
            lemma_reaches_only_start(v, i, j);
        }
    }
    assert(v.reveal_from(i) =~= v.cells.update(i, v.cells[i].with_status(CellStatus::Revealed)));
}

/// A reveal of a cell that is already revealed or that carries a flag
/// uncovers nothing.
pub proof fn lemma_reveal_none(v: BoardView, i: int)
    requires
        0 <= i < v.cells.len(),
        !v.cells[i].is_hidden(),
    ensures
        v.reveal_from(i) == v.cells,
{
    assert forall|j: int| 0 <= j < v.cells.len() implies !v.reaches(i, j) by {
        if v.reaches(i, j) {
            lemma_reached_is_hidden(v, i, j);
        }
    }
    assert(v.reveal_from(i) =~= v.cells);
}

/// On a well-formed board a cascade uncovers safe cells only, and leaves
/// every flag and every revealed cell as it is: but for the cell that was
/// asked for, whatever it reaches is safe and was covered.
pub proof fn lemma_cascade_spares_mines(v: BoardView, i: int, j: int)
    requires
        v.grid_wf(),
        v.reaches(i, j),
    ensures
        v.cells[j].is_hidden(),
        j != i ==> v.cells[j] is Empty,
{
    lemma_reached_is_hidden(v, i, j);
    let p = choose|p: Seq<int>| #[trigger] v.cascade_path(p) && p.first() == i && p.last() == j;
    if p.len() > 1 {
        let k = p.len() - 2;
        assert(v.link(p, k));
        assert(0 <= p[k] < v.cells.len());
        lemma_no_mine_around(v.cells, v.width(), v.height(), p[k], j);
    }
}

/// Revealing a covered mine loses the game and uncovers that mine alone;
/// after that no reveal changes anything, and no flag brings the game
/// back.
pub proof fn lemma_mine_ends_game(v: BoardView, i: int, j: int)
    requires
        v.game_status == GameStatus::InProgress,
        0 <= i < v.cells.len(),
        v.cells[i] is Mine,
        v.cells[i].is_hidden(),
    ensures
        v.click(i).game_status == GameStatus::Lost,
        v.click(i).cells == v.cells.update(i, v.cells[i].with_status(CellStatus::Revealed)),
        v.click(i).click(j) == v.click(i),
        v.click(i).toggle_flag(j).game_status == GameStatus::Lost,
{
    lemma_reveal_one(v, i);
}

/// A game that is won or lost stays so under every reveal and every flag:
/// only a new deal starts it again.
pub proof fn lemma_game_over_is_final(v: BoardView, i: int)
    requires
        v.game_status != GameStatus::InProgress,
    ensures
        v.click(i) == v,
        v.toggle_flag(i).game_status == v.game_status,
{
}

/// A reveal and a flag change nothing of a cell but its status: kind,
/// hint, index and key stay. Neither changes the size of the grid, the
/// parameters, or, for a reveal, the number of flags.
pub proof fn lemma_only_status_changes(v: BoardView, i: int, j: int)
    requires
        0 <= i < v.cells.len(),
        0 <= j < v.cells.len(),
    ensures
        same_but_status(v.click(i).cells[j], v.cells[j]),
        same_but_status(v.toggle_flag(i).cells[j], v.cells[j]),
        v.click(i).cells.len() == v.cells.len(),
        v.toggle_flag(i).cells.len() == v.cells.len(),
        v.click(i).params == v.params,
        v.toggle_flag(i).params == v.params,
        v.click(i).flag_count == v.flag_count,
{
}

/// A reveal leaves a well-formed game well formed. In particular the game
/// is lost afterwards exactly if a mine lies open, for a cascade never
/// uncovers one.
pub proof fn lemma_click_keeps_wf(v: BoardView, i: int)
    requires
        v.wf(),
        0 <= i < v.cells.len(),
    ensures
        v.click(i).wf(),
{
    lemma_reveal_keeps_grid(v, i);
    if v.game_status == GameStatus::InProgress {
        let cells = v.reveal_from(i);
        if v.cells[i] is Mine && v.cells[i].is_hidden() {
            lemma_reaches_start(v, i);
            assert(cells[i] is Mine && cells[i].status() == CellStatus::Revealed);
        } else {
            assert forall|j: int| 0 <= j < cells.len() implies !((#[trigger] cells[j]) is Mine
                && cells[j].status() == CellStatus::Revealed) by {
                assert(!(v.cells[j] is Mine && v.cells[j].status() == CellStatus::Revealed));
                if v.reaches(i, j) {
                    lemma_cascade_spares_mines(v, i, j);
                }
            }
        }
    }
}

/// The game counts as won once every safe cell is revealed, whatever has
/// become of the mines; and it does not while any safe cell is covered:
/// covering one safe cell again undoes the win.
pub proof fn lemma_win_detection(cells: Seq<Cell>, i: int)
    requires
        0 <= i < cells.len(),
        cells[i] is Empty,
    ensures
        (forall|j: int|
            0 <= j < cells.len() && (#[trigger] cells[j]) is Empty ==> cells[j].status()
                == CellStatus::Revealed) ==> is_won(cells),
        !is_won(cells.update(i, cells[i].with_status(CellStatus::Hidden))),
{
    let covered = cells.update(i, cells[i].with_status(CellStatus::Hidden));
    assert(covered[i] is Empty && covered[i].is_hidden());
}

/// Setting or clearing the flag of a cell of a well-formed game keeps the
/// mines, the hints and the indices, opens no mine, and moves the number
/// of flags by what the cell's old and new status contribute.
pub proof fn lemma_status_change(v: BoardView, i: int, status: CellStatus)
    requires
        v.wf(),
        0 <= i < v.cells.len(),
        v.cells[i].status() != CellStatus::Revealed,
        status != CellStatus::Revealed,
    ensures
        ({
            let cells = v.cells.update(i, v.cells[i].with_status(status));
            let flags = flagged_count(cells);
            &&& flags + (if v.cells[i].status() == CellStatus::Flagged {
                1nat
            } else {
                0nat
            }) == v.flag_count + (if status == CellStatus::Flagged {
                1nat
            } else {
                0nat
            })
            &&& flags <= cells.len()
            &&& (BoardView { cells, flag_count: flags, ..v }).wf()
        }),
{
    let cell = v.cells[i].with_status(status);
    let cells = v.cells.update(i, cell);
    let after = BoardView { cells, flag_count: flagged_count(cells), ..v };
    lemma_tally_update(v.cells, |c: Cell| c.status() == CellStatus::Flagged, i, cell);
    lemma_tally_update(v.cells, |c: Cell| c is Mine, i, cell);
    lemma_tally_bound(cells, |c: Cell| c.status() == CellStatus::Flagged);
    assert forall|j: int| 0 <= j < cells.len() implies ((#[trigger] cells[j]) matches Cell::Empty {
        mines,
        ..
    } ==> mines == adjacent_mines(cells, v.width(), v.height(), j)) by {
        lemma_adjacent_mines_same_kinds(cells, v.cells, v.width(), v.height(), j);
        assert(v.cells[j] is Empty ==> v.cells[j]->mines == adjacent_mines(
            v.cells,
            v.width(),
            v.height(),
            j,
        ));
    }
    assert forall|j: int| 0 <= j < cells.len() implies (#[trigger] cells[j]).index() == j by {
        assert(v.cells[j].index() == j);
    }
    assert(after.grid_wf());
    if mine_struck(cells) {
        let j = choose|j: int|
            0 <= j < cells.len() && (#[trigger] cells[j]) is Mine && cells[j].status()
                == CellStatus::Revealed;
        assert(v.cells[j] is Mine && v.cells[j].status() == CellStatus::Revealed);
    }
    if mine_struck(v.cells) {
        let j = choose|j: int|
            0 <= j < v.cells.len() && (#[trigger] v.cells[j]) is Mine && v.cells[j].status()
                == CellStatus::Revealed;
        assert(cells[j] is Mine && cells[j].status() == CellStatus::Revealed);
    }
}

/// Setting or clearing a flag leaves a well-formed board well formed.
pub proof fn lemma_toggle_keeps_wf(v: BoardView, i: int)
    requires
        v.wf(),
        0 <= i < v.cells.len(),
    ensures
        v.toggle_flag(i).wf(),
{
    if v.cells[i].status() != CellStatus::Revealed {
        lemma_status_change(v, i, CellStatus::Flagged);
        lemma_status_change(v, i, CellStatus::Hidden);
    }
}

/// Toggling the flag of a cell twice gives back the game as it was, flag
/// counter and all: a covered cell is flagged in between, with one flag
/// more, and a flagged cell is covered in between, with one flag less. On
/// a revealed cell a toggle does nothing.
pub proof fn lemma_toggle_twice(v: BoardView, i: int)
    requires
        v.wf(),
        0 <= i < v.cells.len(),
    ensures
        v.toggle_flag(i).toggle_flag(i) == v,
        v.cells[i].status() == CellStatus::Hidden ==> v.toggle_flag(i).cells[i].status()
            == CellStatus::Flagged && v.toggle_flag(i).flag_count == v.flag_count + 1,
        v.cells[i].status() == CellStatus::Flagged ==> v.toggle_flag(i).cells[i].status()
            == CellStatus::Hidden && v.toggle_flag(i).flag_count == v.flag_count - 1,
        v.cells[i].status() == CellStatus::Revealed ==> v.toggle_flag(i) == v,
{
    if v.cells[i].status() != CellStatus::Revealed {
        lemma_status_change(v, i, CellStatus::Hidden);
    }
    let once = v.toggle_flag(i);
    assert(once.toggle_flag(i).cells =~= v.cells);
}

} // verus!
