//! The names of the players, as they are given in one text.

use crate::error::TriversiError;
use crate::mark::{ascii, PlayerMark};
use crate::player::Player;
use vstd::prelude::*;
use vstd::string::{StrSliceExecFns, StringExecFns};

verus! {

/// Whether the text has exactly two commas, at `i` and at `j`.
pub open spec fn commas_at(text: Seq<char>, i: int, j: int) -> bool {
    &&& 0 <= i < j < text.len()
    &&& text[i] == ','
    &&& text[j] == ','
    &&& forall|k: int| 0 <= k < text.len() && k != i && k != j ==> text[k] != ','
}

/// Whether the text names the three players, with commas at `i` and at
/// `j`: none of the three names is empty, and each starts with an ASCII
/// character, which serves as the mark of the player.
pub open spec fn names_at(text: Seq<char>, i: int, j: int) -> bool {
    &&& commas_at(text, i, j)
    &&& 0 < i
    &&& i + 1 < j
    &&& j + 1 < text.len()
    &&& ascii(text[0])
    &&& ascii(text[i + 1])
    &&& ascii(text[j + 1])
}

/// Whether the text names the three players.
pub open spec fn names_players(text: Seq<char>) -> bool {
    exists|i: int, j: int| names_at(text, i, j)
}

/// A text has its two commas in one place only.
pub proof fn lemma_commas_unique(text: Seq<char>, i: int, j: int, k: int, l: int)
    requires
        commas_at(text, i, j),
        commas_at(text, k, l),
    ensures
        i == k,
        j == l,
{
}

/// The names of the three players, and the marks that stand for them.
#[derive(Debug)]
pub struct PlayerNames {
    one: String,
    two: String,
    three: String,
    marks: PlayerMark,
}

impl PlayerNames {
    /// The name of `player`.
    pub closed spec fn spec_player_name(&self, player: Player) -> Seq<char> {
        match player {
            Player::One => self.one@,
            Player::Two => self.two@,
            Player::Three => self.three@,
        }
    }

    /// The marks of the players.
    pub closed spec fn spec_marks(&self) -> PlayerMark {
        self.marks
    }

    /// The names that the text gives, as in `Ann,Bob,Cy`: three names with
    /// commas between them, none empty, each starting with an ASCII
    /// character. The first character of a name is the mark of the player.
    /// Any other text is refused.
    pub fn try_new(text: &str) -> (res: Result<PlayerNames, TriversiError>)
        ensures
            res is Ok <==> names_players(text@),
            res matches Ok(names) ==> forall|i: int, j: int| #[trigger]
                names_at(text@, i, j) ==> {
                    &&& names.spec_player_name(Player::One) == text@.subrange(0, i)
                    &&& names.spec_player_name(Player::Two) == text@.subrange(i + 1, j)
                    &&& names.spec_player_name(Player::Three) == text@.subrange(
                        j + 1,
                        text@.len() as int,
                    )
                    &&& names.spec_marks().spec_convert(Player::One) == text@[0]
                    &&& names.spec_marks().spec_convert(Player::Two) == text@[i + 1]
                    &&& names.spec_marks().spec_convert(Player::Three) == text@[j + 1]
                },
            res matches Err(e) ==> e matches TriversiError::InvalidStringForPlayerMarks(s) && s@
                == text@,
    {
        let n = text.unicode_len();
        let mut commas: Vec<usize> = Vec::new();
        let mut k: usize = 0;
        while k < n
            invariant
                k <= n,
                n == text@.len(),
                forall|a: int| 0 <= a < commas@.len() ==> commas@[a] < k && text@[commas@[a] as int] == ',',
                forall|a: int, b: int| 0 <= a < b < commas@.len() ==> commas@[a] < commas@[b],
                forall|m: int| 0 <= m < k && text@[m] == ',' ==> commas@.contains(m as usize),
            decreases n - k,
        {
            if text.get_char(k) == ',' {
                let ghost before = commas@;
                commas.push(k);
                proof {
                    assert forall|m: int| 0 <= m < k + 1 && text@[m] == ',' implies commas@.contains(
                        m as usize,
                    ) by {
                        if m < k {
                            let a = choose|a: int| 0 <= a < before.len() && before[a] == m as usize;
                            assert(commas@[a] == m as usize);
                        } else {
                            assert(commas@[before.len() as int] == m as usize);
                        }
                    }
                }
            }
            k = k + 1;
        }
        if commas.len() != 2 {
            proof {
                assert forall|i: int, j: int| !commas_at(text@, i, j) by {
                    if commas_at(text@, i, j) {
                        let a = choose|a: int| 0 <= a < commas@.len() && commas@[a] == i as usize;
                        let b = choose|b: int| 0 <= b < commas@.len() && commas@[b] == j as usize;
                        assert(commas@.contains(i as usize) && commas@.contains(j as usize));
                        assert(a != b);
                        if commas@.len() > 2 {
                            assert(commas@[0] < commas@[1] < commas@[2]);
                            assert(commas@[0] == i || commas@[0] == j);
                            assert(commas@[1] == i || commas@[1] == j);
                            assert(commas@[2] == i || commas@[2] == j);
                        }
                    }
                }
            }
            return Err(TriversiError::InvalidStringForPlayerMarks(String::from_str(text)));
        }
        let i = commas[0];
        let j = commas[1];
        proof {
            assert forall|m: int| 0 <= m < n && m != i && m != j implies text@[m] != ',' by {
                if text@[m] == ',' {
                    let a = choose|a: int| 0 <= a < commas@.len() && commas@[a] == m as usize;
                    assert(a == 0 || a == 1);
                }
            }
            assert(commas_at(text@, i as int, j as int));
            assert forall|k: int, l: int| commas_at(text@, k, l) implies k == i && l == j by {
                lemma_commas_unique(text@, i as int, j as int, k, l);
            }
        }
        if i == 0 || i + 1 == j || j + 1 == n {
            return Err(TriversiError::InvalidStringForPlayerMarks(String::from_str(text)));
        }
        let c0 = text.get_char(0);
        let c1 = text.get_char(i + 1);
        let c2 = text.get_char(j + 1);
        if !is_ascii_char(c0) || !is_ascii_char(c1) || !is_ascii_char(c2) {
            return Err(TriversiError::InvalidStringForPlayerMarks(String::from_str(text)));
        }
        let names = PlayerNames {
            one: String::from_str(text.substring_char(0, i)),
            two: String::from_str(text.substring_char(i + 1, j)),
            three: String::from_str(text.substring_char(j + 1, n)),
            marks: PlayerMark::new(c0, c1, c2),
        };
        proof {
            assert(names_at(text@, i as int, j as int));
        }
        Ok(names)
    }

    /// The name of `player`.
    pub fn player_name(&self, player: Player) -> (name: &str)
        ensures
            name@ == self.spec_player_name(player),
    {
        match player {
            Player::One => self.one.as_str(),
            Player::Two => self.two.as_str(),
            Player::Three => self.three.as_str(),
        }
    }

    /// The marks of the players: the first characters of their names.
    #[verifier::when_used_as_spec(spec_marks)]
    pub fn marks(&self) -> (marks: PlayerMark)
        ensures
            marks == self.spec_marks(),
    {
        self.marks
    }
}

/// Whether the character is one of the 128 of ASCII.
fn is_ascii_char(c: char) -> (is: bool)
    ensures
        is == ascii(c),
{
    (c as u32) < 128
}

} // verus!
