//! The two players a game session distinguishes.

use vstd::prelude::*;

verus! {

/// One of the two players.
#[derive(Debug, Clone, Copy, PartialEq, Eq, Structural)]
pub enum PlayerIndex {
    Player1,
    Player2,
}

impl PlayerIndex {
    /// The zero-based slot this player occupies in per-player arrays.
    pub fn index(&self) -> (r: usize)
        ensures
            r == self.spec_index_value(),
    {
        match self {
            PlayerIndex::Player1 => 0,
            PlayerIndex::Player2 => 1,
        }
    }

    /// The slot number as an integer.
    pub open spec fn spec_index_value(self) -> usize {
        match self {
            PlayerIndex::Player1 => 0 as usize,
            PlayerIndex::Player2 => 1 as usize,
        }
    }
}

} // verus!
