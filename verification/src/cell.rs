//! Cell states and the errors of the grid.

use vstd::prelude::*;

verus! {

/// The state of one grid position.
#[derive(Debug, Clone, Copy, PartialEq, Eq, Structural)]
pub enum CellState {
    Dead,
    Alive,
}

impl Default for CellState {
    /// A cell is dead until something brings it to life.
    fn default() -> (state: Self)
        ensures
            state == CellState::Dead,
    {
        CellState::Dead
    }
}

impl CellState {
    /// What a cell becomes when a random draw is applied to it: a draw of
    /// zero brings the cell to life, any other draw leaves it as it was.
    pub open spec fn spec_after_draw(self, draw: u32) -> CellState {
        if draw == 0 {
            CellState::Alive
        } else {
            self
        }
    }

    /// Applies one random draw to the cell.
    pub fn after_draw(self, draw: u32) -> (state: CellState)
        ensures
            state == self.spec_after_draw(draw),
    {
        if draw == 0 {
            CellState::Alive
        } else {
            self
        }
    }

    /// Whether the cell is alive.
    pub fn is_alive(self) -> (alive: bool)
        ensures
            alive == (self == CellState::Alive),
    {
        match self {
            CellState::Alive => true,
            CellState::Dead => false,
        }
    }
}

/// The ways in which a caller can misuse a grid.
#[derive(Debug, Clone, Copy, PartialEq, Eq, Structural)]
pub enum GridError {
    /// A grid was asked for with a width or a height of zero.
    InvalidConfiguration,
    /// A coordinate lies outside the grid.
    OutOfBounds,
}

} // verus!
