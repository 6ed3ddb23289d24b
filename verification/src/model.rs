//! The mathematical model of a game: what a board is, when it is well
//! formed, and what each operation makes of it.

use crate::cell::{Cell, CellStatus, GameStatus};
use crate::grid::{adjacent, col_of, index_of, neighbor_coords, row_of};
use crate::params::BoardParams;
use crate::tally::tally;
use vstd::prelude::*;

verus! {

/// The number of mines among `cells`.
pub open spec fn mine_count(cells: Seq<Cell>) -> nat {
    tally(cells, |c: Cell| c is Mine)
}

/// The number of flags set on `cells`.
pub open spec fn flagged_count(cells: Seq<Cell>) -> nat {
    tally(cells, |c: Cell| c.status() == CellStatus::Flagged)
}

/// The number of cells that are still covered and carry no flag.
pub open spec fn hidden_count(cells: Seq<Cell>) -> nat {
    tally(cells, |c: Cell| c.is_hidden())
}

/// The number of positions that `layout` marks as mined.
pub open spec fn layout_mines(layout: Seq<bool>) -> nat {
    tally(layout, |b: bool| b)
}

/// The number of positions of `coords` at which `cells`, laid out in rows
/// of `width`, holds a mine.
pub open spec fn mines_among(cells: Seq<Cell>, width: int, coords: Seq<(int, int)>) -> nat
    decreases coords.len(),
{
    if coords.len() == 0 {
        0
    } else {
        mines_among(cells, width, coords.drop_last()) + if cells[index_of(
            width,
            coords.last().0,
            coords.last().1,
        )] is Mine {
            1nat
        } else {
            0nat
        }
    }
}

/// The number of mines around the cell with flat index `index`.
pub open spec fn adjacent_mines(cells: Seq<Cell>, width: int, height: int, index: int) -> nat {
    mines_among(
        cells,
        width,
        neighbor_coords(width, height, col_of(width, index), row_of(width, index)),
    )
}

/// No safe cell is still covered. A safe cell under a flag does not count
/// as covered, and mines may stay covered or flagged.
pub open spec fn is_won(cells: Seq<Cell>) -> bool {
    forall|i: int| 0 <= i < cells.len() ==> !((#[trigger] cells[i]) is Empty && cells[i].is_hidden())
}

/// A mine lies open: the player has revealed it.
pub open spec fn mine_struck(cells: Seq<Cell>) -> bool {
    exists|i: int|
        0 <= i < cells.len() && (#[trigger] cells[i]) is Mine && cells[i].status()
            == CellStatus::Revealed
}

/// A game as the contracts see it.
#[verifier::ext_equal]
pub struct BoardView {
    pub params: BoardParams,
    pub cells: Seq<Cell>,
    pub game_status: GameStatus,
    pub flag_count: nat,
}

impl BoardView {
    /// The number of columns.
    pub open spec fn width(self) -> int {
        self.params.width as int
    }

    /// The number of rows.
    pub open spec fn height(self) -> int {
        self.params.height as int
    }

    /// The parameters are valid and there is one cell for each position.
    pub open spec fn shaped(self) -> bool {
        &&& self.params.valid()
        &&& self.cells.len() == self.params.cell_count()
    }

    /// Every safe cell's hint is the number of mines around it.
    pub open spec fn hints_accurate(self) -> bool {
        forall|i: int|
            0 <= i < self.cells.len() ==> ((#[trigger] self.cells[i]) matches Cell::Empty {
                mines,
                ..
            } ==> mines == adjacent_mines(self.cells, self.width(), self.height(), i))
    }

    /// The grid is well formed: it has the shape and the number of mines
    /// that its parameters give, every cell knows its own index, and every
    /// hint is accurate.
    pub open spec fn grid_wf(self) -> bool {
        &&& self.shaped()
        &&& forall|i: int| 0 <= i < self.cells.len() ==> (#[trigger] self.cells[i]).index() == i
        &&& mine_count(self.cells) == self.params.mines
        &&& self.hints_accurate()
    }

    /// The game is well formed: the grid is, the flag counter is the
    /// number of flags set, and the game is lost exactly if a mine lies
    /// open.
    pub open spec fn wf(self) -> bool {
        &&& self.grid_wf()
        &&& self.flag_count == flagged_count(self.cells)
        &&& (self.game_status == GameStatus::Lost) == mine_struck(self.cells)
    }

    /// A board as it is dealt: in progress, with no flag and every cell
    /// covered.
    pub open spec fn fresh(self) -> bool {
        &&& self.game_status == GameStatus::InProgress
        &&& self.flag_count == 0
        &&& forall|i: int| 0 <= i < self.cells.len() ==> (#[trigger] self.cells[i]).is_hidden()
    }

    /// Step `k` of the path `p` leaves a blank cell for one that touches it.
    pub open spec fn link(self, p: Seq<int>, k: int) -> bool {
        &&& self.cells[p[k]].is_blank()
        &&& adjacent(self.width(), self.height(), p[k], p[k + 1])
    }

    /// `p` is a way that a cascade can take: it runs over covered cells
    /// without a flag, and each of its steps leaves a blank cell for one
    /// that touches it. Only its last cell may carry a hint above zero.
    pub open spec fn cascade_path(self, p: Seq<int>) -> bool {
        &&& p.len() > 0
        &&& forall|k: int|
            0 <= k < p.len() ==> 0 <= #[trigger] p[k] < self.cells.len()
                && self.cells[p[k]].is_hidden()
        &&& forall|k: int| 0 <= k < p.len() - 1 ==> #[trigger] self.link(p, k)
    }

    /// A reveal of the cell `from` uncovers the cell `to`: some cascade
    /// path leads from the one to the other.
    pub open spec fn reaches(self, from: int, to: int) -> bool {
        exists|p: Seq<int>| #[trigger] self.cascade_path(p) && p.first() == from && p.last() == to
    }

    /// The cells after a reveal of the cell `i`: those that the cascade
    /// reaches are revealed, the others are as they were.
    pub open spec fn reveal_from(self, i: int) -> Seq<Cell> {
        Seq::new(
            self.cells.len(),
            |j: int|
                if self.reaches(i, j) {
                    self.cells[j].with_status(CellStatus::Revealed)
                } else {
                    self.cells[j]
                },
        )
    }

    /// The game after the player asks to reveal the cell `i`.
    ///
    /// A game that is over stays as it is. Otherwise the cascade from `i`
    /// is revealed; the game is lost if `i` was a covered mine, else won if
    /// no safe cell is left covered, else still in progress.
    pub open spec fn click(self, i: int) -> BoardView {
        if self.game_status != GameStatus::InProgress {
            self
        } else {
            let cells = self.reveal_from(i);
            BoardView {
                cells,
                game_status: if self.cells[i] is Mine && self.cells[i].is_hidden() {
                    GameStatus::Lost
                } else if is_won(cells) {
                    GameStatus::Won
                } else {
                    GameStatus::InProgress
                },
                ..self
            }
        }
    }

    /// The game after the player toggles the flag of the cell `i`: a
    /// covered cell gets a flag, a flagged cell loses it, a revealed cell
    /// stays as it is. The state of the game does not matter and does not
    /// change.
    pub open spec fn toggle_flag(self, i: int) -> BoardView {
        match self.cells[i].status() {
            CellStatus::Hidden => BoardView {
                cells: self.cells.update(i, self.cells[i].with_status(CellStatus::Flagged)),
                flag_count: self.flag_count + 1,
                ..self
            },
            CellStatus::Flagged => BoardView {
                cells: self.cells.update(i, self.cells[i].with_status(CellStatus::Hidden)),
                flag_count: (self.flag_count - 1) as nat,
                ..self
            },
            CellStatus::Revealed => self,
        }
    }
}

} // verus!
