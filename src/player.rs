use vstd::prelude::*;

verus! {

/// One of the two players. `Top` starts from row 0, `Bottom` from the last row.
#[derive(Clone, Copy, Debug, PartialEq, Eq, Structural)]
pub enum Player {
    Top,
    Bottom,
}

impl Player {
    /// The other player.
    pub open spec fn opponent(self) -> Player {
        match self {
            Player::Top => Player::Bottom,
            Player::Bottom => Player::Top,
        }
    }

    /// The row step a snake of this player takes as it grows: down for `Top`,
    /// up for `Bottom`.
    pub open spec fn direction(self) -> int {
        match self {
            Player::Top => 1,
            Player::Bottom => -1,
        }
    }

    /// The player whose turn comes after this one.
    pub fn next(&self) -> (r: Player)
        ensures
            r == self.opponent(),
            r != *self,
    {
        match self {
            Player::Top => Player::Bottom,
            Player::Bottom => Player::Top,
        }
    }
}

} // verus!
