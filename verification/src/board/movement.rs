//! Moves as values.

use vstd::prelude::*;

pub mod direction;

use super::position::Position;

verus! {

/// A step of one piece from one square to another.
#[derive(Clone, Copy, Debug, PartialEq, Eq, Structural)]
pub struct Move {
    pub from: Position,
    pub to: Position,
    pub move_type: MoveType,
}

/// Whether a move is a plain step or a capture.
#[derive(Clone, Copy, Debug, PartialEq, Eq, Structural)]
pub enum MoveType {
    Move,
    Jump,
}

/// Why the board could not carry out a move.
#[derive(Clone, Copy, Debug, PartialEq, Eq, Structural)]
pub enum MoveError {
    IncorrectStartPosition,
    IncorrectFinishPosition,
    IllegalDirection,
}

impl Move {
    /// Both ends of the move lie on the grid.
    pub open spec fn on_board(&self) -> bool {
        self.from.on_board() && self.to.on_board()
    }

    /// The square halfway between the two ends, rounded towards row 0 and column 0.
    pub open spec fn midpoint(&self) -> Position {
        Position {
            row: ((self.from.row + self.to.row) / 2) as usize,
            col: ((self.from.col + self.to.col) / 2) as usize,
        }
    }
}

} // verus!
