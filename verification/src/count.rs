//! The number of markers that each player has on the board.

use crate::player::Player;
use vstd::prelude::*;

verus! {

/// A tally of markers, one number for each player.
#[derive(Clone, Copy, Debug)]
pub struct Count {
    one: u64,
    two: u64,
    three: u64,
}

impl Count {
    /// The number of markers counted for `player`.
    pub closed spec fn spec_get(&self, player: Player) -> u64 {
        match player {
            Player::One => self.one,
            Player::Two => self.two,
            Player::Three => self.three,
        }
    }

    /// The number of markers counted for all players together.
    pub open spec fn total(&self) -> int {
        self.spec_get(Player::One) + self.spec_get(Player::Two) + self.spec_get(Player::Three)
    }

    /// The number of markers counted for `player`.
    #[verifier::when_used_as_spec(spec_get)]
    pub fn get(&self, player: Player) -> (n: u64)
        ensures
            n == self.spec_get(player),
    {
        match player {
            Player::One => self.one,
            Player::Two => self.two,
            Player::Three => self.three,
        }
    }

    /// Sets the tally of every player to zero.
    pub fn reset(&mut self)
        ensures
            forall|p: Player| final(self).spec_get(p) == 0,
    {
        self.one = 0;
        self.two = 0;
        self.three = 0;
    }

    /// Counts one marker more for `player`.
    pub fn increment(&mut self, player: Player)
        requires
            old(self).spec_get(player) < u64::MAX,
        ensures
            final(self).spec_get(player) == old(self).spec_get(player) + 1,
            forall|p: Player| p != player ==> final(self).spec_get(p) == old(self).spec_get(p),
    {
        match player {
            Player::One => self.one = self.one + 1,
            Player::Two => self.two = self.two + 1,
            Player::Three => self.three = self.three + 1,
        }
    }

    /// Counts one marker less for `player`.
    pub fn decrement(&mut self, player: Player)
        requires
            old(self).spec_get(player) > 0,
        ensures
            final(self).spec_get(player) == old(self).spec_get(player) - 1,
            forall|p: Player| p != player ==> final(self).spec_get(p) == old(self).spec_get(p),
    {
        match player {
            Player::One => self.one = self.one - 1,
            Player::Two => self.two = self.two - 1,
            Player::Three => self.three = self.three - 1,
        }
    }
}

/// A tally in which nobody has a marker.
impl Default for Count {
    fn default() -> (c: Count)
        ensures
            forall|p: Player| c.spec_get(p) == 0,
    {
        Count { one: 0, two: 0, three: 0 }
    }
}

} // verus!
