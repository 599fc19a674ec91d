//! Coordinates of squares.

use vstd::prelude::*;

use super::movement::direction::{MoveDirection, MoveHorizontal, MoveVertical};
use super::movement::MoveError;

verus! {

/// Why a pair of coordinates names no playable square.
#[derive(Clone, Copy, Debug, PartialEq, Eq, Structural)]
pub enum PositionError {
    OutOfBounds,
    NotBlack,
}

/// A square of the board, by row and column.
#[derive(Clone, Copy, Debug, PartialEq, Eq, Structural)]
pub struct Position {
    pub row: usize,
    pub col: usize,
}

impl Position {
    /// The square lies on the 8x8 grid.
    pub open spec fn on_board(&self) -> bool {
        self.row < 8 && self.col < 8
    }

    /// The square lies on the grid and is dark.
    pub open spec fn valid(&self) -> bool {
        self.on_board() && (self.row + self.col) % 2 == 1
    }

    /// The square at `row` and `col`, or why there is none: coordinates off the grid are
    /// out of bounds, and a light square is not black.
    pub open spec fn setup_spec(row: int, col: int) -> Result<Position, PositionError> {
        if row < 0 || col < 0 || row >= 8 || col >= 8 {
            Err(PositionError::OutOfBounds)
        } else if (row + col) % 2 != 1 {
            Err(PositionError::NotBlack)
        } else {
            Ok(Position { row: row as usize, col: col as usize })
        }
    }

    /// The square reached from this one by `steps` diagonal steps towards `dir`, or why
    /// there is none.
    pub open spec fn moved_spec(&self, dir: MoveDirection, steps: int) -> Result<
        Position,
        PositionError,
    > {
        let row = match dir.ver {
            MoveVertical::Up => self.row - steps,
            MoveVertical::Down => self.row + steps,
        };
        let col = match dir.hor {
            MoveHorizontal::Left => self.col - steps,
            MoveHorizontal::Right => self.col + steps,
        };
        Position::setup_spec(row, col)
    }

    /// Builds the square at `row` and `col`. Only dark squares on the grid can be built.
    pub fn setup(row: isize, col: isize) -> (r: Result<Position, PositionError>)
        ensures
            r == Position::setup_spec(row as int, col as int),
            r matches Ok(p) ==> p.valid(),
    {
        if row < 0 || col < 0 || row >= 8 || col >= 8 {
            return Err(PositionError::OutOfBounds);
        }
        if (row + col) % 2 != 1 {
            return Err(PositionError::NotBlack);
        }
        Ok(Position { row: row as usize, col: col as usize })
    }

    /// Builds the square `steps` diagonal steps away towards `dir`.
    pub fn setup_moved(&self, dir: &MoveDirection, steps: usize) -> (r: Result<
        Position,
        PositionError,
    >)
        ensures
            r == self.moved_spec(*dir, steps as int),
            r matches Ok(p) ==> p.valid(),
    {
        let row = match dir.ver {
            MoveVertical::Up => self.row.checked_sub(steps),
            MoveVertical::Down => self.row.checked_add(steps),
        };
        let col = match dir.hor {
            MoveHorizontal::Left => self.col.checked_sub(steps),
            MoveHorizontal::Right => self.col.checked_add(steps),
        };
        match (row, col) {
            (Some(row), Some(col)) => {
                if row >= 8 || col >= 8 {
                    Err(PositionError::OutOfBounds)
                } else if (row + col) % 2 != 1 {
                    Err(PositionError::NotBlack)
                } else {
                    Ok(Position { row, col })
                }
            },
            _ => Err(PositionError::OutOfBounds),
        }
    }
}

/// Whether `row` and `col` name a dark square on the grid.
pub fn is_valid_position(row: isize, col: isize) -> (r: bool)
    ensures
        r == (Position::setup_spec(row as int, col as int) is Ok),
{
    row >= 0 && col >= 0 && row < 8 && col < 8 && (row + col) % 2 == 1
}

/// The square one diagonal step from `pos` towards `dir`, if that is a dark square of the
/// grid.
pub fn calc_next_pos(pos: &Position, dir: &MoveDirection) -> (r: Result<Position, MoveError>)
    ensures
        r == (match pos.moved_spec(*dir, 1) {
            Ok(next) => Ok::<Position, MoveError>(next),
            Err(_) => Err::<Position, MoveError>(MoveError::IncorrectFinishPosition),
        }),
        r matches Ok(next) ==> next.valid(),
{
    match pos.setup_moved(dir, 1) {
        Ok(next) => Ok(next),
        Err(_) => Err(MoveError::IncorrectFinishPosition),
    }
}

} // verus!
