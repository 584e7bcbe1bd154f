use vstd::prelude::*;

verus! {

/// One of the two sides of the game.
#[derive(Clone, Copy, Debug, PartialEq, Eq, Structural)]
pub enum Player {
    Light,
    Dark,
}

impl Player {
    /// The opposing side.
    pub open spec fn opponent(self) -> Player {
        match self {
            Player::Light => Player::Dark,
            Player::Dark => Player::Light,
        }
    }

    /// The opposing side.
    pub fn other(self) -> (r: Player)
        ensures
            r == self.opponent(),
    {
        match self {
            Player::Light => Player::Dark,
            Player::Dark => Player::Light,
        }
    }
}

} // verus!
