//! Diagonal directions.

use vstd::prelude::*;

verus! {

/// One of the four diagonal directions, as a horizontal and a vertical part.
#[derive(Clone, Copy, Debug, PartialEq, Eq, Structural)]
pub struct MoveDirection {
    pub hor: MoveHorizontal,
    pub ver: MoveVertical,
}

/// Towards column 0 or towards column 7.
#[derive(Clone, Copy, Debug, PartialEq, Eq, Structural)]
pub enum MoveHorizontal {
    Left,
    Right,
}

/// Towards row 0 or towards row 7.
#[derive(Clone, Copy, Debug, PartialEq, Eq, Structural)]
pub enum MoveVertical {
    Up,
    Down,
}

} // verus!
