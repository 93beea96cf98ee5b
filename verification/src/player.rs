use vstd::prelude::*;
use crate::text::{all_ascii, ascii_lowercase, spec_to_lowercase, to_lowercase};

verus! {

/// The two sides of a chess game.
#[derive(PartialEq, Eq, Structural, Hash, Copy, Clone, Debug)]
pub enum Player {
    White,
    Black,
}

impl Player {
    /// The opponent of `self`.
    pub open spec fn spec_other(self) -> Player {
        match self {
            Player::White => Player::Black,
            Player::Black => Player::White,
        }
    }

    /// Returns the opponent of this player.
    pub fn other_player(&self) -> (r: Player)
        ensures
            r == self.spec_other(),
    {
        match self {
            Player::Black => Player::White,
            Player::White => Player::Black,
        }
    }
}

/// The error returned when a text names neither player.
#[derive(PartialEq, Eq, Structural, Copy, Clone, Debug)]
pub struct PlayerParseError;

impl PlayerParseError {
    /// The text of the error.
    pub open spec fn spec_message() -> Seq<char> {
        "Specified player is neither \"Black\" nor \"White\""@
    }

    /// Describes the error.
    pub fn message(&self) -> (r: String)
        ensures
            r@ == Self::spec_message(),
    {
        String::from_str("Specified player is neither \"Black\" nor \"White\"")
    }
}

impl Player {
    /// The name of the player as it is written out: `White` or `Black`.
    pub open spec fn spec_name(self) -> Seq<char> {
        match self {
            Player::White => "White"@,
            Player::Black => "Black"@,
        }
    }

    /// Writes the player's name (`White` or `Black`).
    pub fn to_string(&self) -> (r: String)
        ensures
            r@ == self.spec_name(),
    {
        match self {
            Player::White => String::from_str("White"),
            Player::Black => String::from_str("Black"),
        }
    }

    /// The player named by an already lowercased text.
    pub open spec fn spec_from_lowercase(lower: Seq<char>) -> Result<Player, PlayerParseError> {
        if lower == "black"@ {
            Ok(Player::Black)
        } else if lower == "white"@ {
            Ok(Player::White)
        } else {
            Err(PlayerParseError)
        }
    }

    /// Reads a player from its lowercase name: `black` or `white`.
    pub fn from_lowercase(lower: &str) -> (r: Result<Player, PlayerParseError>)
        ensures
            r == Self::spec_from_lowercase(lower@),
    {
        let n = lower.unicode_len();
        let black = "black";
        let white = "white";
        proof {
            reveal_strlit("black");
            reveal_strlit("white");
        }
        if n != 5 {
            proof {
                assert(lower@ != black@);
                assert(lower@ != white@);
            }
            return Err(PlayerParseError);
        }
        if str_equals(lower, black) {
            Ok(Player::Black)
        } else if str_equals(lower, white) {
            Ok(Player::White)
        } else {
            Err(PlayerParseError)
        }
    }

    /// Reads a player from its name in any letter case.
    pub fn from_str(s: &str) -> (r: Result<Player, PlayerParseError>)
        ensures
            r == Self::spec_from_lowercase(spec_to_lowercase(s@)),
            all_ascii(s@) ==> r == Self::spec_from_lowercase(ascii_lowercase(s@)),
    {
        let lower = to_lowercase(s);
        Self::from_lowercase(lower.as_str())
    }
}

/// Compares two string slices character by character.
pub(crate) fn str_equals(a: &str, b: &str) -> (r: bool)
    ensures
        r == (a@ == b@),
{
    let n = a.unicode_len();
    if n != b.unicode_len() {
        return false;
    }
    let mut i: usize = 0;
    while i < n
        invariant
            n == a@.len(),
            n == b@.len(),
            i <= n,
            forall|j: int| 0 <= j < i ==> a@[j] == b@[j],
        decreases n - i,
    {
        if a.get_char(i) != b.get_char(i) {
            return false;
        }
        i = i + 1;
    }
    assert(a@ =~= b@);
    true
}

/// Switching sides twice gives back the same player, and a player is never
/// its own opponent.
pub proof fn law_other_player_involution(p: Player)
    ensures
        p.spec_other().spec_other() == p,
        p.spec_other() != p,
{
}

/// Reading back the written name of a player gives the same player.
pub proof fn law_player_name_roundtrip(p: Player)
    ensures
        all_ascii(p.spec_name()),
        Player::spec_from_lowercase(ascii_lowercase(p.spec_name()))
            == Ok::<Player, PlayerParseError>(p),
{
    reveal_strlit("White");
    reveal_strlit("Black");
    reveal_strlit("white");
    reveal_strlit("black");
    let lower = ascii_lowercase(p.spec_name());
    match p {
        Player::White => {
            assert(lower =~= "white"@);
            assert(lower[0] != "black"@[0]);
        },
        Player::Black => assert(lower =~= "black"@),
    }
}

} // verus!
