//! The errors of the crate.

use crate::text::{decimal, decimal_text};
use vstd::prelude::*;
use vstd::string::StringExecFns;

verus! {

/// Why a board or a display could not be made.
#[derive(Debug)]
pub enum TriversiError {
    /// The edge length is below five, or leaves the remainder one when
    /// divided by three.
    InvalidBoardRange(usize),
    /// The distance between neighbouring positions cannot be drawn.
    InvalidBoardDistance(usize),
    /// The text does not name one mark for each player.
    InvalidStringForPlayerMarks(String),
    /// The text does not name each of the players.
    InvalidStringForPlayerNames(String),
}

impl TriversiError {
    /// The error in words.
    pub open spec fn spec_message(&self) -> Seq<char> {
        match self {
            TriversiError::InvalidBoardRange(range) => decimal(*range as nat)
                + " is invalid board range."@,
            TriversiError::InvalidBoardDistance(distance) => decimal(*distance as nat)
                + " is invalid distance."@,
            TriversiError::InvalidStringForPlayerMarks(s) => s@
                + " is an invalid string to get player marks."@,
            TriversiError::InvalidStringForPlayerNames(s) => s@
                + " is an invalid string to get player names."@,
        }
    }

    /// The error in words.
    pub fn message(&self) -> (text: String)
        ensures
            text@ == self.spec_message(),
    {
        match self {
            TriversiError::InvalidBoardRange(range) => {
                let mut text = decimal_text(*range as u64);
                text.append(" is invalid board range.");
                text
            },
            TriversiError::InvalidBoardDistance(distance) => {
                let mut text = decimal_text(*distance as u64);
                text.append(" is invalid distance.");
                text
            },
            TriversiError::InvalidStringForPlayerMarks(s) => {
                let mut text = String::from_str(s.as_str());
                text.append(" is an invalid string to get player marks.");
                text
            },
            TriversiError::InvalidStringForPlayerNames(s) => {
                let mut text = String::from_str(s.as_str());
                text.append(" is an invalid string to get player names.");
                text
            },
        }
    }
}

} // verus!
