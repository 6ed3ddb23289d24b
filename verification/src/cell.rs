//! A single grid position: what it holds and how much of it the player sees.

use vstd::prelude::*;

verus! {

/// How much of a cell the player sees.
#[derive(Debug, Clone, Copy, PartialEq, Eq, Hash, Structural)]
pub enum CellStatus {
    Hidden,
    Revealed,
    Flagged,
}

/// The state of a game: it starts in progress and ends won or lost.
#[derive(Debug, Clone, Copy, PartialEq, Eq, PartialOrd, Ord, Structural)]
pub enum GameStatus {
    Won,
    Lost,
    InProgress,
}

/// One cell of the grid.
///
/// `id` is the cell's flat index and `uuid` a key drawn when the board was
/// made; neither changes during play, and neither does the hint `mines` of
/// an empty cell. Only `cell_status` does.
#[derive(Debug, Clone, Copy, PartialEq, Eq, Hash, Structural)]
pub enum Cell {
    Mine { cell_status: CellStatus, id: usize, uuid: u128 },
    Empty { cell_status: CellStatus, mines: u32, id: usize, uuid: u128 },
}

impl Cell {
    /// The status of the cell, whatever its kind.
    pub open spec fn status(self) -> CellStatus {
        match self {
            Cell::Mine { cell_status, .. } => cell_status,
            Cell::Empty { cell_status, .. } => cell_status,
        }
    }

    /// The flat index that the cell was made with.
    pub open spec fn index(self) -> usize {
        match self {
            Cell::Mine { id, .. } => id,
            Cell::Empty { id, .. } => id,
        }
    }

    /// The key that the cell was made with.
    pub open spec fn instance(self) -> u128 {
        match self {
            Cell::Mine { uuid, .. } => uuid,
            Cell::Empty { uuid, .. } => uuid,
        }
    }

    /// The same cell with another status.
    pub open spec fn with_status(self, status: CellStatus) -> Cell {
        match self {
            Cell::Mine { id, uuid, .. } => Cell::Mine { cell_status: status, id, uuid },
            Cell::Empty { mines, id, uuid, .. } => Cell::Empty {
                cell_status: status,
                mines,
                id,
                uuid,
            },
        }
    }

    /// The cell is still covered and carries no flag.
    pub open spec fn is_hidden(self) -> bool {
        self.status() == CellStatus::Hidden
    }

    /// The cell is safe and none of its neighbours holds a mine, going by
    /// its hint.
    pub open spec fn is_blank(self) -> bool {
        self matches Cell::Empty { mines, .. } && mines == 0
    }

    /// A copy of the cell with `status` in place of its own.
    pub fn new_status(&self, status: CellStatus) -> (cell: Cell)
        ensures
            cell == self.with_status(status),
    {
        match self {
            Cell::Mine { cell_status: _, id, uuid } => Cell::Mine {
                cell_status: status,
                id: *id,
                uuid: *uuid,
            },
            Cell::Empty { cell_status: _, mines, id, uuid } => Cell::Empty {
                cell_status: status,
                mines: *mines,
                id: *id,
                uuid: *uuid,
            },
        }
    }

    /// The flat index of the cell.
    pub fn get_id(&self) -> (id: usize)
        ensures
            id == self.index(),
    {
        match self {
            Cell::Mine { id, .. } => *id,
            Cell::Empty { id, .. } => *id,
        }
    }

    /// The status of the cell.
    pub fn get_status(&self) -> (status: CellStatus)
        ensures
            status == self.status(),
    {
        match self {
            Cell::Mine { cell_status, .. } => *cell_status,
            Cell::Empty { cell_status, .. } => *cell_status,
        }
    }

    /// Whether the cell holds a mine.
    pub fn is_mine(&self) -> (mine: bool)
        ensures
            mine == (self is Mine),
    {
        match self {
            Cell::Mine { .. } => true,
            Cell::Empty { .. } => false,
        }
    }
}

} // verus!
