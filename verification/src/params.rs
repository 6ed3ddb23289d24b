//! The parameters of one game and the errors that the engine reports.

use vstd::prelude::*;

verus! {

/// The size of the grid and the number of mines laid on it.
#[derive(Debug, Clone, Copy, PartialEq, Eq, Structural)]
pub struct BoardParams {
    pub height: usize,
    pub width: usize,
    pub mines: usize,
}

/// Why the engine turned a request down. A request that is turned down
/// changes nothing.
#[derive(Debug, Clone, Copy, PartialEq, Eq, Structural)]
pub enum BoardError {
    /// The grid has no row or no column.
    EmptyGrid,
    /// The number of cells does not fit the machine's index type.
    GridTooLarge,
    /// The mines leave no safe cell.
    TooManyMines,
    /// A layout or a list of keys does not match the parameters.
    LayoutMismatch,
    /// The index names no cell of the grid.
    OutOfBounds,
}

impl BoardParams {
    /// The number of cells of the grid.
    pub open spec fn cell_count(self) -> int {
        self.width * self.height
    }

    /// What is wrong with the parameters, if anything: an empty grid comes
    /// before one that is too large, and that before too many mines.
    pub open spec fn fault(self) -> Option<BoardError> {
        if self.height == 0 || self.width == 0 {
            Some(BoardError::EmptyGrid)
        } else if self.cell_count() > usize::MAX {
            Some(BoardError::GridTooLarge)
        } else if self.mines >= self.cell_count() {
            Some(BoardError::TooManyMines)
        } else {
            None
        }
    }

    /// The parameters describe a grid with at least one safe cell.
    pub open spec fn valid(self) -> bool {
        &&& 0 < self.height
        &&& 0 < self.width
        &&& self.cell_count() <= usize::MAX
        &&& self.mines < self.cell_count()
    }

    /// Valid parameters are those with no fault.
    pub proof fn lemma_valid_iff_no_fault(self)
        ensures
            self.valid() <==> self.fault() is None,
    {
    }

    /// Checks the parameters and gives the number of cells of the grid.
    pub fn validate(&self) -> (outcome: Result<usize, BoardError>)
        ensures
            match outcome {
                Ok(count) => self.fault() is None && count == self.cell_count(),
                Err(error) => self.fault() == Some(error),
            },
    {
        if self.height == 0 || self.width == 0 {
            return Err(BoardError::EmptyGrid);
        }
        match self.width.checked_mul(self.height) {
            None => Err(BoardError::GridTooLarge),
            Some(count) => {
                if self.mines >= count {
                    Err(BoardError::TooManyMines)
                } else {
                    Ok(count)
                }
            },
        }
    }

    /// The largest number of mines that a grid of this size admits, one
    /// less than its number of cells; `None` for a grid that is empty or
    /// too large.
    pub fn max_mines(height: usize, width: usize) -> (limit: Option<usize>)
        ensures
            match limit {
                Some(most) => 0 < height && 0 < width && most == width * height - 1,
                None => height == 0 || width == 0 || width * height > usize::MAX,
            },
    {
        if height == 0 || width == 0 {
            return None;
        }
        match width.checked_mul(height) {
            None => None,
            Some(count) => {
                assert(count >= 1) by (nonlinear_arith)
                    requires
                        count == width * height,
                        width >= 1,
                        height >= 1,
                ;
                Some(count - 1)
            },
        }
    }
}

} // verus!
