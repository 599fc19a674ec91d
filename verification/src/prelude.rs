//! The names that most users of the library need, in one place.

pub use crate::{
    check_move, decide_move, get_best_move, moves_per_piece, moves_per_side, Board, BoardError,
    GameError, GameManager, Move, MoveDirection, MoveError, MoveHorizontal, MoveType,
    MoveVertical, PieceData, PieceInstance, Position, PositionError, Side,
};
