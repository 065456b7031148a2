//! The smallest stateful unit of a board: an occupant kind (empty or ship)
//! crossed with a shot status.

use crate::InvalidInputError;
use vstd::prelude::*;

verus! {

/// Whether a cell has already been shot at.  The flag is monotonic: a cell
/// moves from `NonShot` to `Shot` and never back.
#[derive(Debug, Copy, Clone, PartialEq, Eq, Structural)]
pub enum GameBoardCellState {
    NonShot,
    Shot,
}

impl Default for GameBoardCellState {
    fn default() -> (r: Self)
        ensures
            r == GameBoardCellState::NonShot,
    {
        GameBoardCellState::NonShot
    }
}

/// One cell of the grid: empty water or part of a ship, each with its shot
/// status.
#[derive(Debug, Copy, Clone, PartialEq, Eq, Structural)]
pub enum GameBoardCell {
    Empty(GameBoardCellState),
    Ship(GameBoardCellState),
}

impl GameBoardCell {
    /// Whether this cell has been shot at, whatever it holds.
    pub open spec fn spec_shot(self) -> bool {
        match self {
            GameBoardCell::Empty(s) => s is Shot,
            GameBoardCell::Ship(s) => s is Shot,
        }
    }

    /// The same cell with its shot flag raised.
    pub open spec fn spec_after_shot(self) -> GameBoardCell {
        match self {
            GameBoardCell::Empty(_) => GameBoardCell::Empty(GameBoardCellState::Shot),
            GameBoardCell::Ship(_) => GameBoardCell::Ship(GameBoardCellState::Shot),
        }
    }

    /// How the cell prints in a board dump: untouched water `_`, shot water
    /// `O`, untouched ship `#`, shot ship `$`.
    pub open spec fn spec_char(self) -> char {
        match self {
            GameBoardCell::Empty(GameBoardCellState::NonShot) => '_',
            GameBoardCell::Empty(GameBoardCellState::Shot) => 'O',
            GameBoardCell::Ship(GameBoardCellState::NonShot) => '#',
            GameBoardCell::Ship(GameBoardCellState::Shot) => '$',
        }
    }

    pub fn is_empty(self) -> (r: bool)
        ensures
            r == self is Empty,
    {
        match self {
            GameBoardCell::Empty(_) => true,
            _ => false,
        }
    }

    pub fn is_ship(self) -> (r: bool)
        ensures
            r == self is Ship,
    {
        match self {
            GameBoardCell::Ship(_) => true,
            _ => false,
        }
    }

    pub fn is_shot(self) -> (r: bool)
        ensures
            r == self.spec_shot(),
    {
        match self {
            GameBoardCell::Ship(GameBoardCellState::Shot) => true,
            GameBoardCell::Empty(GameBoardCellState::Shot) => true,
            _ => false,
        }
    }

    /// Reads one character of a submitted grid: `_` is empty water, `#` is a
    /// ship cell, anything else is rejected.
    pub fn from_char(c: char) -> (r: Result<GameBoardCell, InvalidInputError>)
        ensures
            r is Ok <==> (c == '_' || c == '#'),
            c == '_' ==> r == Ok::<GameBoardCell, InvalidInputError>(
                GameBoardCell::Empty(GameBoardCellState::NonShot),
            ),
            c == '#' ==> r == Ok::<GameBoardCell, InvalidInputError>(
                GameBoardCell::Ship(GameBoardCellState::NonShot),
            ),
    {
        match c {
            '_' => Ok(GameBoardCell::Empty(GameBoardCellState::NonShot)),
            '#' => Ok(GameBoardCell::Ship(GameBoardCellState::NonShot)),
            _ => Err(InvalidInputError),
        }
    }

    /// The character this cell prints as in a board dump.
    pub fn to_char(self) -> (r: char)
        ensures
            r == self.spec_char(),
    {
        match self {
            GameBoardCell::Empty(GameBoardCellState::NonShot) => '_',
            GameBoardCell::Empty(GameBoardCellState::Shot) => 'O',
            GameBoardCell::Ship(GameBoardCellState::NonShot) => '#',
            GameBoardCell::Ship(GameBoardCellState::Shot) => '$',
        }
    }
}

} // verus!
