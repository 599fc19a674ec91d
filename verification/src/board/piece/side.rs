//! The two sides of the game.

use vstd::prelude::*;

verus! {

/// One of the two players.
#[derive(Clone, Copy, Debug, PartialEq, Eq, Structural)]
pub enum Side {
    Player,
    AI,
}

impl Side {
    /// The other side.
    pub open spec fn other(&self) -> Side {
        match *self {
            Side::Player => Side::AI,
            Side::AI => Side::Player,
        }
    }

    /// Returns the other side.
    #[verifier::when_used_as_spec(other)]
    pub fn opposite(&self) -> (r: Side)
        ensures
            r == self.other(),
    {
        match self {
            Side::Player => Side::AI,
            Side::AI => Side::Player,
        }
    }
}

/// The other side of the other side is the side itself.
pub proof fn lemma_opposite_involution(side: Side)
    ensures
        side.other().other() == side,
{
}

} // verus!
