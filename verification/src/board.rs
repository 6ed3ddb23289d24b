//! The game engine: a board that is dealt at random and then played by
//! revealing cells and setting flags.

use crate::cascade::{
    lemma_reached_is_hidden, lemma_reaches_extend, lemma_reaches_inside, lemma_reaches_start,
};
use crate::cell::{Cell, CellStatus, GameStatus};
use crate::chance::{fresh_key, shuffle_layout, KEY_FIXED_BITS, KEY_FIXED_VALUE};
use crate::deal::{deal_fault, first_mined, lemma_first_mined, lemma_rearranged_layout};
use crate::grid::{
    adjacent, cell_if, col_of, in_grid, index_of, lemma_adjacent_iff_listed,
    lemma_coord_roundtrip, lemma_index_in_range, lemma_index_roundtrip,
    lemma_neighbor_coords_contains, lemma_neighbor_coords_len, neighbor_coords, row_of,
    Coordinate,
};
use crate::hints::lemma_adjacent_mines_same_kinds;
use crate::laws::{lemma_click_keeps_wf, lemma_status_change};
use crate::model::{adjacent_mines, hidden_count, is_won, layout_mines, mines_among, BoardView};
use crate::params::{BoardError, BoardParams};
use crate::tally::{lemma_tally_pointwise, lemma_tally_push, lemma_tally_update, lemma_tally_zero};
use vstd::prelude::*;

verus! {

/// A list of positions as the contracts see it.
pub open spec fn coords_of(list: Seq<(usize, usize)>) -> Seq<(int, int)> {
    Seq::new(list.len(), |k: int| (list[k].0 as int, list[k].1 as int))
}

/// The button of the pointer that sets and clears flags.
pub const SECONDARY_BUTTON: i16 = 2;

/// A cell as it is laid down before the hints are known: covered, with
/// its index and key, and with a hint of zero if it is safe.
pub open spec fn undealt_cell(mined: bool, index: usize, key: u128) -> Cell {
    if mined {
        Cell::Mine { cell_status: CellStatus::Hidden, id: index, uuid: key }
    } else {
        Cell::Empty { cell_status: CellStatus::Hidden, mines: 0, id: index, uuid: key }
    }
}

/// The value `v + d - 1` if it lies below `bound` and is not negative.
fn offset_within(v: usize, d: u8, bound: usize) -> (moved: Option<usize>)
    requires
        v < bound,
        d <= 2,
    ensures
        match moved {
            Some(n) => n == v + d - 1 && n < bound,
            None => !(0 <= v + d - 1 < bound),
        },
{
    if d == 0 {
        if v == 0 {
            None
        } else {
            Some(v - 1)
        }
    } else if d == 1 {
        Some(v)
    } else if v + 1 < bound {
        Some(v + 1)
    } else {
        None
    }
}

/// One game: the grid, the parameters it was dealt with, the state of the
/// game and the number of flags set.
#[derive(Debug, Clone)]
pub struct BoardState {
    cells: Vec<Cell>,
    params: BoardParams,
    game_status: GameStatus,
    flag_count: usize,
}

impl View for BoardState {
    type V = BoardView;

    closed spec fn view(&self) -> BoardView {
        BoardView {
            params: self.params,
            cells: self.cells@,
            game_status: self.game_status,
            flag_count: self.flag_count as nat,
        }
    }
}

impl BoardState {
    /// Deals a new board: the mines are laid on the first cells, the cells
    /// are shuffled, each cell gets its index and a fresh key, and each
    /// safe cell its hint.
    ///
    /// Invalid parameters are turned down. Where the mines fall is left to
    /// chance, and so are the keys; the board is well formed and untouched
    /// wherever they fall.
    pub fn new(params: BoardParams) -> (outcome: Result<BoardState, BoardError>)
        ensures
            match outcome {
                Ok(board) => {
                    &&& params.fault() is None
                    &&& board@.params == params
                    &&& board@.wf()
                    &&& board@.fresh()
                    &&& forall|i: int|
                        0 <= i < board@.cells.len() ==> (#[trigger] board@.cells[i]).instance()
                            & KEY_FIXED_BITS == KEY_FIXED_VALUE
                },
                Err(error) => params.fault() == Some(error),
            },
    {
        let count = match params.validate() {
            Ok(count) => count,
            Err(error) => {
                return Err(error);
            },
        };
        let mut layout: Vec<bool> = Vec::new();
        let mut i: usize = 0;
        while i < count
            invariant
                i <= count,
                layout@ =~= first_mined(i as int, params.mines as int),
            decreases count - i,
        {
            layout.push(i < params.mines);
            i += 1;
        }
        let ghost unshuffled = layout@;
        shuffle_layout(&mut layout);
        proof {
            lemma_first_mined(count as int, params.mines as int);
            lemma_rearranged_layout(unshuffled, layout@);
        }
        let mut keys: Vec<u128> = Vec::new();
        let mut i: usize = 0;
        while i < count
            invariant
                i <= count,
                keys.len() == i,
                forall|j: int| 0 <= j < i ==> (#[trigger] keys@[j]) & KEY_FIXED_BITS == KEY_FIXED_VALUE,
            decreases count - i,
        {
            let key = fresh_key();
            keys.push(key);
            i += 1;
        }
        Self::assemble(params, layout, keys)
    }

    /// Deals the board that has its mines where `layout` says and whose
    /// cells have the keys `keys`, position by position.
    ///
    /// This is the part of dealing that is not left to chance: the board
    /// is well formed and untouched, so every cell is covered, knows its
    /// index and, where it is safe, carries the number of mines around it.
    pub fn assemble(params: BoardParams, layout: Vec<bool>, keys: Vec<u128>) -> (outcome: Result<
        BoardState,
        BoardError,
    >)
        ensures
            match outcome {
                Ok(board) => {
                    &&& deal_fault(params, layout@, keys@) is None
                    &&& board@.params == params
                    &&& board@.wf()
                    &&& board@.fresh()
                    &&& forall|i: int|
                        0 <= i < board@.cells.len() ==> ((#[trigger] board@.cells[i]) is Mine)
                            == layout@[i] && board@.cells[i].instance() == keys@[i]
                },
                Err(error) => deal_fault(params, layout@, keys@) == Some(error),
            },
    {
        let count = match params.validate() {
            Ok(count) => count,
            Err(error) => {
                return Err(error);
            },
        };
        if layout.len() != count || keys.len() != count {
            return Err(BoardError::LayoutMismatch);
        }
        let mut cells: Vec<Cell> = Vec::new();
        let mut found: usize = 0;
        let mut i: usize = 0;
        assert(layout@.take(0) =~= Seq::<bool>::empty());
        while i < count
            invariant
                i <= count,
                layout.len() == count,
                keys.len() == count,
                cells.len() == i,
                found == layout_mines(layout@.take(i as int)),
                found <= i,
                forall|j: int|
                    0 <= j < i ==> (#[trigger] cells@[j]) == undealt_cell(
                        layout@[j],
                        j as usize,
                        keys@[j],
                    ),
            decreases count - i,
        {
            proof {
                assert(layout@.take(i + 1) =~= layout@.take(i as int).push(layout@[i as int]));
                lemma_tally_push(layout@.take(i as int), |b: bool| b, layout@[i as int]);
            }
            if layout[i] {
                found += 1;
                cells.push(Cell::Mine { cell_status: CellStatus::Hidden, id: i, uuid: keys[i] });
            } else {
                cells.push(
                    Cell::Empty { cell_status: CellStatus::Hidden, mines: 0, id: i, uuid: keys[i] },
                );
            }
            i += 1;
        }
        assert(layout@.take(count as int) =~= layout@);
        if found != params.mines {
            return Err(BoardError::LayoutMismatch);
        }
        let mut board = BoardState {
            cells,
            params,
            game_status: GameStatus::InProgress,
            flag_count: 0,
        };
        let mut i: usize = 0;
        while i < count
            invariant
                i <= count,
                params.valid(),
                count == params.cell_count(),
                board.params == params,
                board.cells.len() == count,
                board.game_status == GameStatus::InProgress,
                board.flag_count == 0,
                layout.len() == count,
                keys.len() == count,
                forall|j: int|
                    0 <= j < count ==> {
                        &&& ((#[trigger] board.cells@[j]) is Mine) == layout@[j]
                        &&& board.cells@[j].index() == j
                        &&& board.cells@[j].instance() == keys@[j]
                        &&& board.cells@[j].is_hidden()
                    },
                forall|j: int|
                    0 <= j < i ==> ((#[trigger] board.cells@[j]) matches Cell::Empty { mines, .. }
                        ==> mines == adjacent_mines(
                        board.cells@,
                        params.width as int,
                        params.height as int,
                        j,
                    )),
            decreases count - i,
        {
            if let Cell::Empty { uuid, .. } = board.cells[i] {
                let adjacent_bombs = board.get_adjacent_bombs(i);
                let ghost before = board.cells@;
                board.cells.set(
                    i,
                    Cell::Empty {
                        cell_status: CellStatus::Hidden,
                        mines: adjacent_bombs,
                        id: i,
                        uuid,
                    },
                );
                proof {
                    assert forall|j: int| 0 <= j <= i implies adjacent_mines(
                        board.cells@,
                        params.width as int,
                        params.height as int,
                        j,
                    ) == adjacent_mines(before, params.width as int, params.height as int, j) by {
                        lemma_adjacent_mines_same_kinds(
                            before,
                            board.cells@,
                            params.width as int,
                            params.height as int,
                            j,
                        );
                    }
                }
            }
            i += 1;
        }
        proof {
            lemma_tally_pointwise(board.cells@, |c: Cell| c is Mine, layout@, |b: bool| b);
            lemma_tally_zero(board.cells@, |c: Cell| c.status() == CellStatus::Flagged);
        }
        Ok(board)
    }

    /// Throws the game away and deals a new one with `params`: no flag is
    /// set, every cell is covered and the game is in progress. Invalid
    /// parameters are turned down and leave the game as it is.
    pub fn reset(&mut self, params: &BoardParams) -> (outcome: Result<(), BoardError>)
        ensures
            match outcome {
                Ok(()) => {
                    &&& params.fault() is None
                    &&& final(self)@.params == *params
                    &&& final(self)@.wf()
                    &&& final(self)@.fresh()
                    &&& forall|i: int|
                        0 <= i < final(self)@.cells.len() ==> (#[trigger] final(self)@.cells[i])
                            .instance() & KEY_FIXED_BITS == KEY_FIXED_VALUE
                },
                Err(error) => params.fault() == Some(error) && *final(self) == *old(self),
            },
    {
        match Self::new(*params) {
            Ok(board) => {
                *self = board;
                Ok(())
            },
            Err(error) => Err(error),
        }
    }

    /// The player asks to reveal the cell `index`.
    ///
    /// An index outside the grid is turned down. A game that is over stays
    /// as it is. Otherwise a covered cell is revealed, and with a blank
    /// cell all that the cascade reaches; a cell that is revealed or
    /// flagged stays as it is. The game is lost if the cell was a covered
    /// mine; if not, it is won once no safe cell is left covered.
    pub fn cell_click(&mut self, index: usize) -> (outcome: Result<(), BoardError>)
        requires
            old(self)@.wf(),
        ensures
            final(self)@.wf(),
            match outcome {
                Ok(()) => index < old(self)@.cells.len() && final(self)@ == old(self)@.click(
                    index as int,
                ),
                Err(error) => error == BoardError::OutOfBounds && index >= old(self)@.cells.len()
                    && *final(self) == *old(self),
            },
    {
        if index >= self.cells.len() {
            return Err(BoardError::OutOfBounds);
        }
        if self.game_status == GameStatus::InProgress {
            let struck = match self.cells[index] {
                Cell::Mine { cell_status: CellStatus::Hidden, .. } => true,
                _ => false,
            };
            proof {
                lemma_click_keeps_wf(self@, index as int);
            }
            self.reveal_cascade(index);
            if struck {
                self.game_status = GameStatus::Lost;
            } else if self.game_won() {
                self.game_status = GameStatus::Won;
            }
        }
        Ok(())
    }

    /// Reveals the cell `index` if it is covered and, from a blank cell,
    /// goes on to the cells around it, until nothing that the cascade
    /// reaches is left covered. The cells still to be looked at wait on a
    /// list, so that a large blank region costs memory on the heap only.
    fn reveal_cascade(&mut self, index: usize)
        requires
            old(self)@.shaped(),
            index < old(self)@.cells.len(),
        ensures
            final(self)@ == (BoardView {
                cells: old(self)@.reveal_from(index as int),
                ..old(self)@
            }),
    {
        let ghost start = self@;
        let mut pending: Vec<usize> = Vec::new();
        pending.push(index);
        proof {
            assert(pending@[0] == index);
            if start.cells[index as int].is_hidden() {
                lemma_reaches_start(start, index as int);
            }
        }
        while pending.len() > 0
            invariant
                start.shaped(),
                index < start.cells.len(),
                self@.params == start.params,
                self@.game_status == start.game_status,
                self@.flag_count == start.flag_count,
                self@.cells.len() == start.cells.len(),
                forall|j: int|
                    0 <= j < start.cells.len() ==> (#[trigger] self@.cells[j]) == start.cells[j]
                        || (start.reaches(index as int, j) && self@.cells[j]
                        == start.cells[j].with_status(CellStatus::Revealed)),
                forall|k: int|
                    0 <= k < pending.len() ==> (#[trigger] pending@[k]) < start.cells.len() && (
                    start.cells[pending@[k] as int].is_hidden() ==> start.reaches(
                        index as int,
                        pending@[k] as int,
                    )),
                forall|a: int, b: int|
                    #[trigger] adjacent(start.width(), start.height(), a, b) && self@.cells[a]
                        != start.cells[a] && start.cells[a].is_blank()
                        && start.cells[b].is_hidden() ==> self@.cells[b] != start.cells[b]
                        || pending@.contains(b as usize),
                self@.cells[index as int] != start.cells[index as int] || pending@.contains(index)
                    || !start.cells[index as int].is_hidden(),
            decreases hidden_count(self@.cells), pending.len(),
        {
            let ghost waiting = pending@;
            let current = pending.pop().unwrap();
            assert(waiting[waiting.len() - 1] == current);
            assert forall|v: usize| waiting.contains(v) implies pending@.contains(v) || v
                == current by {
                let k = choose|k: int| 0 <= k < waiting.len() && waiting[k] == v;
                if k < waiting.len() - 1 {
                    assert(pending@[k] == v);
                }
            }
            let cell = self.cells[current];
            if let CellStatus::Hidden = cell.get_status() {
                let ghost covered = self@.cells;
                assert(cell == start.cells[current as int]);
                assert(start.reaches(index as int, current as int));
                self.cells.set(current, cell.new_status(CellStatus::Revealed));
                proof {
                    lemma_tally_update(
                        covered,
                        |c: Cell| c.is_hidden(),
                        current as int,
                        cell.with_status(CellStatus::Revealed),
                    );
                }
                let blank = match cell {
                    Cell::Empty { mines: 0, .. } => true,
                    _ => false,
                };
                if blank {
                    self.push_neighbors(&mut pending, current, Ghost(start), Ghost(index));
                }
            }
        }
        proof {
            let cells = self@.cells;
            let inside = |j: int| cells[j] != start.cells[j];
            assert forall|j: int| 0 <= j < start.cells.len() implies #[trigger] cells[j]
                == start.reveal_from(index as int)[j] by {
                if start.reaches(index as int, j) {
                    lemma_reached_is_hidden(start, index as int, j);
                    assert(!pending@.contains(index));
                    assert(inside(index as int));
                    assert forall|a: int, b: int|
                        inside(a) && start.cells[a].is_blank() && #[trigger] adjacent(
                            start.width(),
                            start.height(),
                            a,
                            b,
                        ) && start.cells[b].is_hidden() implies inside(b) by {
                        assert(!pending@.contains(b as usize));
                    }
                    lemma_reaches_inside(start, index as int, inside, j);
                }
            }
            assert(self@.cells =~= start.reveal_from(index as int));
        }
    }

    /// Puts the cells around the blank cell `current`, which has just been
    /// revealed, on the list of those still to be looked at.
    fn push_neighbors(
        &self,
        pending: &mut Vec<usize>,
        current: usize,
        Ghost(start): Ghost<BoardView>,
        Ghost(index): Ghost<usize>,
    )
        requires
            start.shaped(),
            self@.params == start.params,
            self@.cells.len() == start.cells.len(),
            current < start.cells.len(),
            start.cells[current as int].is_blank(),
            start.reaches(index as int, current as int),
            self@.cells[current as int] != start.cells[current as int],
            forall|k: int|
                0 <= k < old(pending).len() ==> (#[trigger] old(pending)@[k]) < start.cells.len()
                    && (start.cells[old(pending)@[k] as int].is_hidden() ==> start.reaches(
                    index as int,
                    old(pending)@[k] as int,
                )),
        ensures
            forall|k: int|
                0 <= k < final(pending).len() ==> (#[trigger] final(pending)@[k])
                    < start.cells.len() && (start.cells[final(pending)@[k] as int].is_hidden()
                    ==> start.reaches(index as int, final(pending)@[k] as int)),
            forall|v: usize| old(pending)@.contains(v) ==> final(pending)@.contains(v),
            forall|b: int| #[trigger]
                adjacent(start.width(), start.height(), current as int, b) ==> final(pending)@
                    .contains(b as usize),
    {
        let adjacent_list = self.get_adjacent(current);
        let ghost coords = coords_of(adjacent_list@);
        let ghost width = start.width();
        let ghost height = start.height();
        let ghost earlier = pending@;
        let mut m: usize = 0;
        while m < adjacent_list.len()
            invariant
                m <= adjacent_list.len(),
                start.shaped(),
                self@.shaped(),
                self@.params == start.params,
                width == start.width(),
                height == start.height(),
                current < start.cells.len(),
                start.cells[current as int].is_blank(),
                start.reaches(index as int, current as int),
                coords == coords_of(adjacent_list@),
                coords == neighbor_coords(
                    width,
                    height,
                    col_of(width, current as int),
                    row_of(width, current as int),
                ),
                forall|k: int|
                    0 <= k < pending.len() ==> (#[trigger] pending@[k]) < start.cells.len() && (
                    start.cells[pending@[k] as int].is_hidden() ==> start.reaches(
                        index as int,
                        pending@[k] as int,
                    )),
                forall|v: usize| earlier.contains(v) ==> pending@.contains(v),
                forall|k: int|
                    0 <= k < m ==> pending@.contains(
                        index_of(width, (#[trigger] coords[k]).0, coords[k].1) as usize,
                    ),
            decreases adjacent_list.len() - m,
        {
            let (x, y) = adjacent_list[m];
            proof {
                assert(coords[m as int] == (x as int, y as int));
                lemma_neighbor_coords_contains(
                    width,
                    height,
                    col_of(width, current as int),
                    row_of(width, current as int),
                    (x as int, y as int),
                );
            }
            let adj_idx = self.get_coord_index(&Coordinate(x, y));
            let ghost waiting = pending@;
            if current != adj_idx {
                proof {
                    lemma_adjacent_iff_listed(width, height, current as int, adj_idx as int);
                    if start.cells[adj_idx as int].is_hidden() {
                        lemma_reaches_extend(start, index as int, current as int, adj_idx as int);
                    }
                }
                pending.push(adj_idx);
                assert(pending@[waiting.len() as int] == adj_idx);
                assert forall|v: usize| waiting.contains(v) implies pending@.contains(v) by {
                    let k = choose|k: int| 0 <= k < waiting.len() && waiting[k] == v;
                    assert(pending@[k] == v);
                }
            } else {
                proof {
                    lemma_coord_roundtrip(width, height, current as int);
                }
            }
            m += 1;
        }
        proof {
            assert forall|b: int| #[trigger]
                adjacent(width, height, current as int, b) implies pending@.contains(
                b as usize,
            ) by {
                lemma_adjacent_iff_listed(width, height, current as int, b);
                lemma_coord_roundtrip(width, height, b);
                let c = (col_of(width, b), row_of(width, b));
                let k = choose|k: int| 0 <= k < coords.len() && coords[k] == c;
                assert(index_of(width, coords[k].0, coords[k].1) == b);
            }
        }
    }

    /// The player presses a button of the pointer other than the first on
    /// the cell `index`.
    ///
    /// An index outside the grid is turned down. Only the secondary button
    /// does anything: it sets a flag on a covered cell and clears the flag
    /// of a flagged cell, and the flag counter follows. A revealed cell
    /// stays as it is. Whether the game is over does not matter, and
    /// nothing here wins or loses it.
    pub fn cell_aux_click(&mut self, index: usize, button: i16) -> (outcome: Result<
        (),
        BoardError,
    >)
        requires
            old(self)@.wf(),
        ensures
            final(self)@.wf(),
            match outcome {
                Ok(()) => index < old(self)@.cells.len() && final(self)@ == (if button
                    == SECONDARY_BUTTON {
                    old(self)@.toggle_flag(index as int)
                } else {
                    old(self)@
                }),
                Err(error) => error == BoardError::OutOfBounds && index >= old(self)@.cells.len()
                    && *final(self) == *old(self),
            },
    {
        if index >= self.cells.len() {
            return Err(BoardError::OutOfBounds);
        }
        if button != SECONDARY_BUTTON {
            return Ok(());
        }
        let cell = self.cells[index];
        let ghost before = self@;
        match cell.get_status() {
            CellStatus::Flagged => {
                proof {
                    lemma_status_change(before, index as int, CellStatus::Hidden);
                }
                self.cells.set(index, cell.new_status(CellStatus::Hidden));
                self.flag_count = self.flag_count - 1;
            },
            CellStatus::Hidden => {
                proof {
                    lemma_status_change(before, index as int, CellStatus::Flagged);
                }
                self.cells.set(index, cell.new_status(CellStatus::Flagged));
                self.flag_count = self.flag_count + 1;
            },
            CellStatus::Revealed => {},
        }
        Ok(())
    }

    /// The flat index of the cell at `coordinate`.
    pub fn get_coord_index(&self, coordinate: &Coordinate) -> (index: usize)
        requires
            self@.shaped(),
            in_grid(self@.width(), self@.height(), coordinate.0 as int, coordinate.1 as int),
        ensures
            index == index_of(self@.width(), coordinate.0 as int, coordinate.1 as int),
            index < self@.cells.len(),
            col_of(self@.width(), index as int) == coordinate.0,
            row_of(self@.width(), index as int) == coordinate.1,
    {
        proof {
            lemma_index_in_range(
                self@.width(),
                self@.height(),
                coordinate.0 as int,
                coordinate.1 as int,
            );
            lemma_index_roundtrip(self@.width(), coordinate.0 as int, coordinate.1 as int);
            assert(0 <= coordinate.1 * self.params.width <= coordinate.1 * self.params.width
                + coordinate.0) by (nonlinear_arith);
        }
        coordinate.1 * self.params.width + coordinate.0
    }

    /// The position of the cell with flat index `index`.
    pub fn get_coord_from_index(&self, index: usize) -> (coordinate: Coordinate)
        requires
            self@.shaped(),
        ensures
            coordinate.0 == col_of(self@.width(), index as int),
            coordinate.1 == row_of(self@.width(), index as int),
            index < self@.cells.len() ==> in_grid(
                self@.width(),
                self@.height(),
                coordinate.0 as int,
                coordinate.1 as int,
            ) && index_of(self@.width(), coordinate.0 as int, coordinate.1 as int) == index,
    {
        proof {
            if index < self@.cells.len() {
                lemma_coord_roundtrip(self@.width(), self@.height(), index as int);
            }
        }
        let x = index % self.params.width;
        let y = index / self.params.width;
        Coordinate(x, y)
    }

    /// Appends the position `(x + dx - 1, y + dy - 1)` to `list` if it lies
    /// in the grid.
    fn push_if_inside(&self, list: &mut Vec<(usize, usize)>, x: usize, y: usize, dx: u8, dy: u8)
        requires
            self@.shaped(),
            in_grid(self@.width(), self@.height(), x as int, y as int),
            dx <= 2,
            dy <= 2,
        ensures
            coords_of(final(list)@) == coords_of(old(list)@) + cell_if(
                self@.width(),
                self@.height(),
                x + dx - 1,
                y + dy - 1,
            ),
    {
        let ghost before = coords_of(list@);
        let column = offset_within(x, dx, self.params.width);
        let row = offset_within(y, dy, self.params.height);
        match (column, row) {
            (Some(nx), Some(ny)) => {
                list.push((nx, ny));
                assert(coords_of(list@) =~= before + seq![(x + dx - 1, y + dy - 1)]);
            },
            _ => {
                assert(coords_of(list@) =~= before + Seq::<(int, int)>::empty());
            },
        }
    }

    /// The positions around the cell with flat index `i` that lie in the
    /// grid, row by row and from left to right.
    pub fn get_adjacent(&self, i: usize) -> (list: Vec<(usize, usize)>)
        requires
            self@.shaped(),
            i < self@.cells.len(),
        ensures
            coords_of(list@) == neighbor_coords(
                self@.width(),
                self@.height(),
                col_of(self@.width(), i as int),
                row_of(self@.width(), i as int),
            ),
    {
        let Coordinate(x, y) = self.get_coord_from_index(i);
        let mut list: Vec<(usize, usize)> = Vec::new();
        assert(coords_of(list@) =~= Seq::<(int, int)>::empty());
        self.push_if_inside(&mut list, x, y, 0, 0);
        self.push_if_inside(&mut list, x, y, 1, 0);
        self.push_if_inside(&mut list, x, y, 2, 0);
        self.push_if_inside(&mut list, x, y, 0, 1);
        self.push_if_inside(&mut list, x, y, 2, 1);
        self.push_if_inside(&mut list, x, y, 0, 2);
        self.push_if_inside(&mut list, x, y, 1, 2);
        self.push_if_inside(&mut list, x, y, 2, 2);
        assert(coords_of(list@) =~= neighbor_coords(
            self@.width(),
            self@.height(),
            x as int,
            y as int,
        ));
        list
    }

    /// The number of mines around the cell with flat index `i`.
    pub fn get_adjacent_bombs(&self, i: usize) -> (count: u32)
        requires
            self@.shaped(),
            i < self@.cells.len(),
        ensures
            count == adjacent_mines(self@.cells, self@.width(), self@.height(), i as int),
            count <= 8,
    {
        let adjacent_list = self.get_adjacent(i);
        let ghost coords = coords_of(adjacent_list@);
        let ghost x = col_of(self@.width(), i as int);
        let ghost y = row_of(self@.width(), i as int);
        proof {
            lemma_neighbor_coords_len(self@.width(), self@.height(), x, y);
            assert(coords.take(0) =~= Seq::<(int, int)>::empty());
        }
        let mut count: u32 = 0;
        let mut k: usize = 0;
        while k < adjacent_list.len()
            invariant
                self@.shaped(),
                k <= adjacent_list.len() <= 8,
                coords == coords_of(adjacent_list@),
                coords == neighbor_coords(self@.width(), self@.height(), x, y),
                count == mines_among(self@.cells, self@.width(), coords.take(k as int)),
                count <= k,
            decreases adjacent_list.len() - k,
        {
            let (nx, ny) = adjacent_list[k];
            proof {
                assert(coords[k as int] == (nx as int, ny as int));
                lemma_neighbor_coords_contains(
                    self@.width(),
                    self@.height(),
                    x,
                    y,
                    (nx as int, ny as int),
                );
                assert(coords.take(k + 1).drop_last() =~= coords.take(k as int));
            }
            let c = Coordinate(nx, ny);
            let index = self.get_coord_index(&c);
            if self.cells[index].is_mine() {
                count += 1;
            }
            k += 1;
        }
        assert(coords.take(k as int) =~= coords);
        count
    }

    /// The number of mines that carry no flag yet, if every flag sits on a
    /// mine: the mines of the parameters less the flags set. It is negative
    /// once there are more flags than mines.
    pub fn mines_remaining(&self) -> (left: i128)
        ensures
            left == self@.params.mines - self@.flag_count,
    {
        self.params.mines as i128 - self.flag_count as i128
    }

    /// The cells of the grid, row after row.
    pub fn cells(&self) -> (cells: &Vec<Cell>)
        ensures
            cells@ == self@.cells,
    {
        &self.cells
    }

    /// The cell with flat index `index`, if the grid has one.
    pub fn cell(&self, index: usize) -> (cell: Option<Cell>)
        ensures
            cell == if index < self@.cells.len() {
                Some(self@.cells[index as int])
            } else {
                None
            },
    {
        if index < self.cells.len() {
            Some(self.cells[index])
        } else {
            None
        }
    }

    /// The parameters that the board was dealt with.
    pub fn params(&self) -> (params: BoardParams)
        ensures
            params == self@.params,
    {
        self.params
    }

    /// Whether the game is in progress, won or lost.
    pub fn game_status(&self) -> (status: GameStatus)
        ensures
            status == self@.game_status,
    {
        self.game_status
    }

    /// The number of flags set.
    pub fn flag_count(&self) -> (flags: usize)
        ensures
            flags == self@.flag_count,
    {
        self.flag_count
    }

    /// Whether the game counts as won: no safe cell is still covered.
    pub fn game_won(&self) -> (won: bool)
        ensures
            won == is_won(self@.cells),
    {
        let mut k: usize = 0;
        while k < self.cells.len()
            invariant
                k <= self.cells.len(),
                forall|j: int| 0 <= j < k ==> !((#[trigger] self.cells@[j]) is Empty
                    && self.cells@[j].is_hidden()),
            decreases self.cells.len() - k,
        {
            if let Cell::Empty { cell_status: CellStatus::Hidden, .. } = self.cells[k] {
                return false;
            }
            k += 1;
        }
        true
    }
}

} // verus!
