use vstd::prelude::*;
use crate::player::str_equals;
use crate::text::push_char;

verus! {

/// A square of the chess board, numbered from `A1` = 0, `B1` = 1, ... to
/// `H8` = 63: the file is `index % 8`, the rank `index / 8`.
#[derive(PartialEq, Eq, Structural, Hash, Copy, Clone, Debug)]
pub struct Square(pub u8);

/// Why a text does not name a square.
#[derive(PartialEq, Eq, Clone, Debug)]
pub enum SquareFormatError {
    /// The text has two characters, but they do not name a file `A`..`H`
    /// followed by a rank `1`..`8`.
    OutOfRange { found: String },
    /// The text does not have exactly two characters.
    InvalidLength { found: String },
}

/// Why a pair of coordinates does not give a square.
#[derive(PartialEq, Eq, Structural, Copy, Clone, Debug)]
pub enum SquareIndexError {
    /// The file index is not below 8.
    InvalidFile,
    /// The rank index is not below 8.
    InvalidRank,
}

/// The letter of a file index: `A` for 0 to `H` for 7.
pub open spec fn file_char(x: int) -> char {
    ((x + 65) as u8) as char
}

/// The digit of a rank index: `1` for 0 to `8` for 7.
pub open spec fn rank_char(y: int) -> char {
    ((y + 49) as u8) as char
}

impl Square {
    /// A square with an index on the board.
    pub open spec fn wf(self) -> bool {
        self.0 < 64
    }

    /// The file index (0 for `A` to 7 for `H`).
    pub open spec fn file(self) -> int {
        self.0 as int % 8
    }

    /// The rank index (0 for `1` to 7 for `8`).
    pub open spec fn rank(self) -> int {
        self.0 as int / 8
    }

    /// The square's name, such as `E4`.
    pub open spec fn spec_name(self) -> Seq<char> {
        seq![file_char(self.file()), rank_char(self.rank())]
    }

    /// The square on file `x` and rank `y`.
    pub open spec fn at(x: int, y: int) -> Square {
        Square((y * 8 + x) as u8)
    }

    /// The square at file `x` and rank `y`, both counted from 0.
    pub fn new(x: usize, y: usize) -> (r: Result<Square, SquareIndexError>)
        ensures
            x >= 8 ==> r == Err::<Square, SquareIndexError>(SquareIndexError::InvalidFile),
            x < 8 && y >= 8 ==> r == Err::<Square, SquareIndexError>(SquareIndexError::InvalidRank),
            x < 8 && y < 8 ==> r == Ok::<Square, SquareIndexError>(Square::at(x as int, y as int)),
            r matches Ok(sq) ==> sq.wf() && sq.file() == x && sq.rank() == y,
    {
        if x >= 8 {
            return Err(SquareIndexError::InvalidFile);
        }
        if y >= 8 {
            return Err(SquareIndexError::InvalidRank);
        }
        let sq = Square((y * 8 + x) as u8);
        Ok(sq)
    }

    /// The file index: 0 for `A` to 7 for `H`.
    pub fn x(&self) -> (r: u8)
        ensures
            r == self.file(),
    {
        self.0 % 8
    }

    /// The rank index: 0 for `1` to 7 for `8`.
    pub fn y(&self) -> (r: u8)
        ensures
            r == self.rank(),
    {
        self.0 / 8
    }

    /// The square named by a text, if it names one.
    pub open spec fn spec_parse(s: Seq<char>) -> Option<Square> {
        if s.len() == 2 && 'A' <= s[0] <= 'H' && '1' <= s[1] <= '8' {
            Some(Square::at(s[0] as int - 65, s[1] as int - 49))
        } else {
            None
        }
    }

    /// Reads a square from its name: an uppercase file letter `A`..`H`
    /// followed by a rank digit `1`..`8`.
    pub fn from_str(s: &str) -> (r: Result<Square, SquareFormatError>)
        ensures
            s@.len() != 2 ==> (r matches Err(SquareFormatError::InvalidLength { found })
                && found@ == s@),
            s@.len() == 2 && Self::spec_parse(s@) is None ==> (r matches Err(
                SquareFormatError::OutOfRange { found },
            ) && found@ == s@),
            Self::spec_parse(s@) matches Some(sq) ==> r == Ok::<Square, SquareFormatError>(sq),
            r matches Ok(sq) ==> sq.wf(),
    {
        let n = s.unicode_len();
        if n != 2 {
            return Err(SquareFormatError::InvalidLength { found: s.to_owned() });
        }
        let f = s.get_char(0);
        let k = s.get_char(1);
        if !('A' <= f && f <= 'H') || !('1' <= k && k <= '8') {
            return Err(SquareFormatError::OutOfRange { found: s.to_owned() });
        }
        let x = (f as u32 - 65) as usize;
        let y = (k as u32 - 49) as usize;
        Ok(Square((y * 8 + x) as u8))
    }

    /// Writes the square's name, such as `E4`.
    pub fn to_string(&self) -> (r: String)
        requires
            self.wf(),
        ensures
            r@ == self.spec_name(),
    {
        let mut s = String::new();
        let f = ((self.0 % 8) + 65) as char;
        let k = ((self.0 / 8) + 49) as char;
        push_char(&mut s, f);
        push_char(&mut s, k);
        proof {
            assert(s@ =~= self.spec_name());
        }
        s
    }
}

/// Reading a square's written name gives back the same square.
pub proof fn law_square_name_roundtrip(sq: Square)
    requires
        sq.wf(),
    ensures
        Square::spec_parse(sq.spec_name()) == Some(sq),
{
    assert(sq.0 == (sq.0 / 8) * 8 + sq.0 % 8);
}

/// Writing out a square read from a text gives back the text.
pub proof fn law_square_parse_roundtrip(s: Seq<char>)
    requires
        Square::spec_parse(s) is Some,
    ensures
        Square::spec_parse(s)->0.spec_name() == s,
        Square::spec_parse(s)->0.wf(),
{
    let sq = Square::spec_parse(s)->0;
    let x = s[0] as int - 65;
    let y = s[1] as int - 49;
    assert((y * 8 + x) / 8 == y);
    assert((y * 8 + x) % 8 == x);
    assert(sq.spec_name() =~= s);
}

} // verus!
