//! The marks that stand for the markers of the players when a board is
//! drawn.

use crate::error::TriversiError;
use crate::player::Player;
use vstd::prelude::*;
use vstd::string::StrSliceExecFns;

verus! {

/// Whether the character is one of the 128 of ASCII.
pub open spec fn ascii(c: char) -> bool {
    (c as u32) < 128
}

/// Whether the text names a mark for each player: three ASCII characters,
/// none of them a comma, with a comma after the first and the second.
pub open spec fn names_marks(text: Seq<char>) -> bool {
    &&& text.len() == 5
    &&& text[1] == ','
    &&& text[3] == ','
    &&& text[0] != ',' && ascii(text[0])
    &&& text[2] != ',' && ascii(text[2])
    &&& text[4] != ',' && ascii(text[4])
}

/// One character for each player.
#[derive(Clone, Copy, Debug, PartialEq, Eq)]
pub struct PlayerMark(char, char, char);

impl PlayerMark {
    /// The mark of `player`.
    pub closed spec fn spec_convert(&self, player: Player) -> char {
        match player {
            Player::One => self.0,
            Player::Two => self.1,
            Player::Three => self.2,
        }
    }

    /// The marks of the first, the second and the third player.
    pub fn new(mark_0: char, mark_1: char, mark_2: char) -> (marks: PlayerMark)
        ensures
            marks.spec_convert(Player::One) == mark_0,
            marks.spec_convert(Player::Two) == mark_1,
            marks.spec_convert(Player::Three) == mark_2,
    {
        PlayerMark(mark_0, mark_1, mark_2)
    }

    /// The mark of `player`.
    #[verifier::when_used_as_spec(spec_convert)]
    pub fn convert(&self, player: Player) -> (mark: char)
        ensures
            mark == self.spec_convert(player),
    {
        match player {
            Player::One => self.0,
            Player::Two => self.1,
            Player::Three => self.2,
        }
    }

    /// The marks that the text names: it holds one ASCII character for each
    /// player, with commas between them, as in `1,2,3`. Any other text is
    /// refused.
    pub fn try_from(s: String) -> (res: Result<PlayerMark, TriversiError>)
        ensures
            res is Ok <==> names_marks(s@),
            res matches Ok(marks) ==> {
                &&& marks.spec_convert(Player::One) == s@[0]
                &&& marks.spec_convert(Player::Two) == s@[2]
                &&& marks.spec_convert(Player::Three) == s@[4]
            },
            res matches Err(e) ==> e == TriversiError::InvalidStringForPlayerMarks(s),
    {
        let text = s.as_str();
        if text.unicode_len() != 5 {
            return Err(TriversiError::InvalidStringForPlayerMarks(s));
        }
        let c0 = text.get_char(0);
        let c1 = text.get_char(1);
        let c2 = text.get_char(2);
        let c3 = text.get_char(3);
        let c4 = text.get_char(4);
        if c1 == ',' && c3 == ',' && is_mark(c0) && is_mark(c2) && is_mark(c4) {
            Ok(PlayerMark(c0, c2, c4))
        } else {
            Err(TriversiError::InvalidStringForPlayerMarks(s))
        }
    }
}

/// Whether the character can be a mark: it is of ASCII and no comma.
fn is_mark(c: char) -> (mark: bool)
    ensures
        mark == (c != ',' && ascii(c)),
{
    c != ',' && (c as u32) < 128
}

} // verus!
