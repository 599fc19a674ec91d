//! Rules engine and opponent search for a checkers variant on an 8x8 board.
//!
//! The board is modelled as a partial map from squares to pieces. Every function states
//! over that model what it returns and how it changes the board or the game.

pub mod ai;
pub mod board;
pub mod game_manager;
pub mod move_controller;
pub mod prelude;
pub mod ui;

pub use board::{Board, BoardError};

pub use game_manager::{GameError, GameManager};

pub use board::piece::side::Side;
pub use board::piece::{PieceData, PieceInstance};
pub use board::position::{calc_next_pos, is_valid_position, Position, PositionError};

pub use board::movement::direction::{MoveDirection, MoveHorizontal, MoveVertical};
pub use board::movement::{Move, MoveError, MoveType};

pub use move_controller::{check_move, moves_per_piece, moves_per_side};

pub use ai::{decide_move, get_best_move};

pub use ui::{CheckersUI, FollowUp, Message};
