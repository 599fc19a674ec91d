//! Pieces and the sides that own them.

use vstd::prelude::*;

pub mod side;

use self::side::Side;
use super::position::Position;

verus! {

/// What a square holds: the owner of the piece and whether it has been crowned.
#[derive(Clone, Copy, Debug, PartialEq, Eq, Structural)]
pub struct PieceData {
    pub owner: Side,
    pub is_king: bool,
}

/// A piece together with the square it stands on.
#[derive(Clone, Copy, Debug, PartialEq, Eq, Structural)]
pub struct PieceInstance {
    pub position: Position,
    pub data: PieceData,
}

} // verus!
