//! The three players and their turn order.

use vstd::prelude::*;

verus! {

/// One of the three players of a game.
#[derive(Clone, Copy, Debug, PartialEq, Eq, Structural, Hash)]
pub enum Player {
    One,
    Two,
    Three,
}

impl Player {
    /// The player who moves after `self`: the order is cyclic.
    pub open spec fn next(self) -> Player {
        match self {
            Player::One => Player::Two,
            Player::Two => Player::Three,
            Player::Three => Player::One,
        }
    }

    /// The place of the player in the turn order, counted from zero.
    pub open spec fn spec_index(self) -> usize {
        match self {
            Player::One => 0,
            Player::Two => 1,
            Player::Three => 2,
        }
    }

    /// Hands the turn to the next player.
    pub fn advance(&mut self)
        ensures
            *final(self) == old(self).next(),
    {
        match *self {
            Player::One => *self = Player::Two,
            Player::Two => *self = Player::Three,
            Player::Three => *self = Player::One,
        }
    }

    /// The place of the player in the turn order, counted from zero.
    #[verifier::when_used_as_spec(spec_index)]
    pub fn index(self) -> (i: usize)
        ensures
            i == self.spec_index(),
    {
        match self {
            Player::One => 0,
            Player::Two => 1,
            Player::Three => 2,
        }
    }

    /// The player at a place of the turn order, if there is one.
    pub fn from_index(i: usize) -> (p: Option<Player>)
        ensures
            i < 3 <==> p is Some,
            p matches Some(q) ==> q.spec_index() == i,
    {
        if i == 0 {
            Some(Player::One)
        } else if i == 1 {
            Some(Player::Two)
        } else if i == 2 {
            Some(Player::Three)
        } else {
            None
        }
    }
}

/// The player who opens a game.
impl Default for Player {
    fn default() -> (p: Player)
        ensures
            p == Player::One,
    {
        Player::One
    }
}

/// The turn order is a cycle of length three: after three advances the turn
/// is back with the player it started from, and not before.
pub proof fn lemma_turn_order_is_cyclic(p: Player)
    ensures
        p.next().next().next() == p,
        p.next() != p,
        p.next().next() != p,
{
}

} // verus!
