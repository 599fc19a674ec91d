//! The computer opponent.

pub mod minimax;

pub use self::minimax::{decide_move, evaluate_board, get_best_move};
