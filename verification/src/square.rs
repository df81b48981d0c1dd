use vstd::prelude::*;
use vstd::string::*;

use crate::error::ChessError;
use crate::piece::Color;

verus! {

/// A square of the board, indexed 0 (a1) to 63 (h8):
/// index = rank * 8 + file, with rank and file counted from 0.
#[derive(Clone, Copy, Debug, PartialEq, Eq, PartialOrd, Ord, Hash, Structural)]
pub struct Square {
    idx: u8,
}

impl View for Square {
    type V = int;

    /// A square is seen as its board index.
    closed spec fn view(&self) -> int {
        self.idx as int
    }
}

impl Square {
    #[verifier::type_invariant]
    spec fn type_inv(self) -> bool {
        self.idx < 64
    }

    /// The square with the given index, for use in specifications.
    pub closed spec fn spec_new(i: int) -> Square {
        Square { idx: i as u8 }
    }

    /// The square `spec_new` builds has the given index, for an index on the
    /// board.
    pub proof fn lemma_spec_new_view(i: int)
        requires
            0 <= i < 64,
        ensures
            Square::spec_new(i)@ == i,
    {
    }

    /// Two squares with one index are one square.
    pub proof fn lemma_view_injective(a: Square, b: Square)
        requires
            a@ == b@,
        ensures
            a == b,
    {
    }

    /// Builds the square with the given index. For internal callers that
    /// already know the index is in range.
    pub(crate) fn from_u8(i: u8) -> (r: Square)
        requires
            i < 64,
        ensures
            r@ == i as int,
            r == Square::spec_new(i as int),
    {
        Square { idx: i }
    }

    /// Builds the square with the given index, 0 (a1) to 63 (h8);
    /// rejects an index above 63.
    pub fn from_index(i: u8) -> (r: Result<Square, ChessError>)
        ensures
            i < 64 ==> (r matches Ok(s) && s@ == i as int),
            i >= 64 ==> r == Err::<Square, ChessError>(ChessError::SquareIndexOutOfRange),
    {
        if i < 64 {
            Ok(Square { idx: i })
        } else {
            Err(ChessError::SquareIndexOutOfRange)
        }
    }

    /// Builds the square on the given rank and file, both counted from 0;
    /// rejects a rank or file above 7.
    pub fn from_rank_file(rank: u8, file: u8) -> (r: Result<Square, ChessError>)
        ensures
            rank < 8 && file < 8 ==> (r matches Ok(s) && s@ == rank * 8 + file),
            !(rank < 8 && file < 8) ==> r == Err::<Square, ChessError>(ChessError::BadRankFile),
    {
        if rank < 8 && file < 8 {
            Ok(Square { idx: rank * 8 + file })
        } else {
            Err(ChessError::BadRankFile)
        }
    }

    /// Returns the square's index, 0 (a1) to 63 (h8).
    pub fn get_index(&self) -> (r: u8)
        ensures
            r as int == self@,
            r < 64,
    {
        proof {
            use_type_invariant(self);
        }
        self.idx
    }

    /// Returns the square's rank, 0 to 7.
    pub fn get_rank(&self) -> (r: u8)
        ensures
            r as int == self@ / 8,
            r < 8,
    {
        proof {
            use_type_invariant(self);
        }
        self.idx / 8
    }

    /// Returns the square's file, 0 to 7.
    pub fn get_file(&self) -> (r: u8)
        ensures
            r as int == self@ % 8,
            r < 8,
    {
        proof {
            use_type_invariant(self);
        }
        self.idx % 8
    }

    /// The color of the square on the board: White (a light square) exactly
    /// when file and rank have the same parity.
    pub open spec fn color_spec(self) -> Color {
        if self@ % 8 % 2 == self@ / 8 % 2 {
            Color::White
        } else {
            Color::Black
        }
    }

    /// Returns the color of the square on the board.
    pub fn get_color(&self) -> (r: Color)
        ensures
            r == self.color_spec(),
    {
        if self.get_file() % 2 == self.get_rank() % 2 {
            Color::White
        } else {
            Color::Black
        }
    }

    /// Returns the square's name, a file letter followed by a rank digit.
    pub fn get_name(&self) -> (r: String)
        ensures
            r@ =~= square_name_spec(self@),
    {
        proof {
            use_type_invariant(self);
        }
        let mut s = String::new();
        s.append(file_str(self.get_file()));
        s.append(rank_str(self.get_rank()));
        s
    }

    /// Builds the square with the given name: a file letter (a to h, either
    /// case) followed by a rank digit (1 to 8). Rejects any other string.
    pub fn from_name(square_name: &str) -> (r: Result<Square, ChessError>)
        ensures
            parse_square_name_spec(square_name@) matches Some(i) ==> (r matches Ok(s) && s@ == i),
            parse_square_name_spec(square_name@) is None ==> r == Err::<Square, ChessError>(
                ChessError::BadSquareName,
            ),
    {
        if square_name.unicode_len() != 2 {
            return Err(ChessError::BadSquareName);
        }
        let f = match file_of_char(square_name.get_char(0)) {
            Some(f) => f,
            None => {
                return Err(ChessError::BadSquareName);
            },
        };
        let rk = match rank_of_char(square_name.get_char(1)) {
            Some(rk) => rk,
            None => {
                return Err(ChessError::BadSquareName);
            },
        };
        Ok(Square { idx: rk * 8 + f })
    }

    /// Returns the set holding just this square.
    pub fn to_bitboard(&self) -> (r: crate::bitboard::Bitboard)
        ensures
            forall|j: int| 0 <= j < 64 ==> (crate::bitboard::bb_has(r@, j) == (j == self@)),
    {
        crate::bitboard::Bitboard::from_square(*self)
    }

    /// Returns the square one rank up, unless the square is on the top rank.
    pub fn up(&self) -> (r: Option<Square>)
        ensures
            self@ / 8 < 7 ==> (r matches Some(s) && s@ == self@ + 8),
            self@ / 8 == 7 ==> r is None,
    {
        proof {
            use_type_invariant(self);
        }
        if self.idx / 8 < 7 {
            Some(Square { idx: self.idx + 8 })
        } else {
            None
        }
    }

    /// Returns the square one rank down, unless the square is on the bottom rank.
    pub fn down(&self) -> (r: Option<Square>)
        ensures
            self@ / 8 > 0 ==> (r matches Some(s) && s@ == self@ - 8),
            self@ / 8 == 0 ==> r is None,
    {
        proof {
            use_type_invariant(self);
        }
        if self.idx / 8 > 0 {
            Some(Square { idx: self.idx - 8 })
        } else {
            None
        }
    }

    /// Returns the square one file to the left, unless the square is on the a-file.
    pub fn left(&self) -> (r: Option<Square>)
        ensures
            self@ % 8 > 0 ==> (r matches Some(s) && s@ == self@ - 1),
            self@ % 8 == 0 ==> r is None,
    {
        proof {
            use_type_invariant(self);
        }
        if self.idx % 8 > 0 {
            Some(Square { idx: self.idx - 1 })
        } else {
            None
        }
    }

    /// Returns the square one file to the right, unless the square is on the h-file.
    pub fn right(&self) -> (r: Option<Square>)
        ensures
            self@ % 8 < 7 ==> (r matches Some(s) && s@ == self@ + 1),
            self@ % 8 == 7 ==> r is None,
    {
        proof {
            use_type_invariant(self);
        }
        if self.idx % 8 < 7 {
            Some(Square { idx: self.idx + 1 })
        } else {
            None
        }
    }
}

/// The lower-case letter of a file, 0 (a) to 7 (h).
pub open spec fn file_char_spec(f: int) -> char {
    if f == 0 {
        'a'
    } else if f == 1 {
        'b'
    } else if f == 2 {
        'c'
    } else if f == 3 {
        'd'
    } else if f == 4 {
        'e'
    } else if f == 5 {
        'f'
    } else if f == 6 {
        'g'
    } else {
        'h'
    }
}

/// The digit of a rank, 0 ('1') to 7 ('8').
pub open spec fn rank_char_spec(r: int) -> char {
    if r == 0 {
        '1'
    } else if r == 1 {
        '2'
    } else if r == 2 {
        '3'
    } else if r == 3 {
        '4'
    } else if r == 4 {
        '5'
    } else if r == 5 {
        '6'
    } else if r == 6 {
        '7'
    } else {
        '8'
    }
}

/// The file a letter names, accepted in either case.
pub open spec fn file_of_char_spec(c: char) -> Option<int> {
    if c == 'a' || c == 'A' {
        Some(0int)
    } else if c == 'b' || c == 'B' {
        Some(1int)
    } else if c == 'c' || c == 'C' {
        Some(2int)
    } else if c == 'd' || c == 'D' {
        Some(3int)
    } else if c == 'e' || c == 'E' {
        Some(4int)
    } else if c == 'f' || c == 'F' {
        Some(5int)
    } else if c == 'g' || c == 'G' {
        Some(6int)
    } else if c == 'h' || c == 'H' {
        Some(7int)
    } else {
        None
    }
}

/// The rank a digit names.
pub open spec fn rank_of_char_spec(c: char) -> Option<int> {
    if c == '1' {
        Some(0int)
    } else if c == '2' {
        Some(1int)
    } else if c == '3' {
        Some(2int)
    } else if c == '4' {
        Some(3int)
    } else if c == '5' {
        Some(4int)
    } else if c == '6' {
        Some(5int)
    } else if c == '7' {
        Some(6int)
    } else if c == '8' {
        Some(7int)
    } else {
        None
    }
}

/// The name of the square with the given index: its file letter followed by
/// its rank digit.
pub open spec fn square_name_spec(sq: int) -> Seq<char> {
    seq![file_char_spec(sq % 8), rank_char_spec(sq / 8)]
}

/// The index of the square a two-character name names, if the string is such
/// a name.
pub open spec fn parse_square_name_spec(cs: Seq<char>) -> Option<int> {
    if cs.len() == 2 {
        match (file_of_char_spec(cs[0]), rank_of_char_spec(cs[1])) {
            (Some(f), Some(rk)) => Some(rk * 8 + f),
            _ => None,
        }
    } else {
        None
    }
}

/// Rebuilding a square from its index gives back the square: `from_index`
/// inverts `get_index` on every square.
pub proof fn lemma_square_index_round_trip(s: Square)
    requires
        0 <= s@ < 64,
    ensures
        Square::spec_new(s@) == s,
        Square::spec_new(s@)@ == s@,
{
    Square::lemma_spec_new_view(s@);
    Square::lemma_view_injective(Square::spec_new(s@), s);
}

/// Decoding a square's name gives back the square: `from_name` inverts
/// `get_name` on every square index.
pub proof fn lemma_square_name_round_trip(sq: int)
    requires
        0 <= sq < 64,
    ensures
        parse_square_name_spec(square_name_spec(sq)) == Some(sq),
{
    assert(0 <= sq % 8 < 8 && 0 <= sq / 8 < 8);
    assert(sq / 8 * 8 + sq % 8 == sq);
}

/// The file a lower-case letter names. The FEN fields only accept this form,
/// so that decoding and encoding a position are inverse to each other.
pub open spec fn file_of_lower_char_spec(c: char) -> Option<int> {
    if c == 'a' {
        Some(0int)
    } else if c == 'b' {
        Some(1int)
    } else if c == 'c' {
        Some(2int)
    } else if c == 'd' {
        Some(3int)
    } else if c == 'e' {
        Some(4int)
    } else if c == 'f' {
        Some(5int)
    } else if c == 'g' {
        Some(6int)
    } else {
        if c == 'h' {
            Some(7int)
        } else {
            None
        }
    }
}

/// The index of the square a strictly lower-case two-character name names.
pub open spec fn parse_square_name_strict_spec(cs: Seq<char>) -> Option<int> {
    if cs.len() == 2 {
        match (file_of_lower_char_spec(cs[0]), rank_of_char_spec(cs[1])) {
            (Some(f), Some(rk)) => Some(rk * 8 + f),
            _ => None,
        }
    } else {
        None
    }
}

/// Encoding a parsed lower-case square name gives back the name.
pub proof fn lemma_square_name_canonical(cs: Seq<char>)
    requires
        parse_square_name_strict_spec(cs) is Some,
    ensures
        square_name_spec(parse_square_name_strict_spec(cs)->Some_0) =~= cs,
        0 <= parse_square_name_strict_spec(cs)->Some_0 < 64,
{
    let f = file_of_lower_char_spec(cs[0])->Some_0;
    let rk = rank_of_char_spec(cs[1])->Some_0;
    assert((rk * 8 + f) % 8 == f && (rk * 8 + f) / 8 == rk) by (nonlinear_arith)
        requires
            0 <= f < 8 && 0 <= rk < 8,
    ;
}

/// Decodes a strictly lower-case square name.
pub(crate) fn parse_square_name_strict(c0: char, c1: char) -> (r: Option<u8>)
    ensures
        r matches Some(i) ==> (parse_square_name_strict_spec(seq![c0, c1]) == Some(i as int) && i < 64),
        r is None ==> parse_square_name_strict_spec(seq![c0, c1]) is None,
{
    let f = if c0 == 'a' {
        0u8
    } else if c0 == 'b' {
        1u8
    } else if c0 == 'c' {
        2u8
    } else if c0 == 'd' {
        3u8
    } else if c0 == 'e' {
        4u8
    } else if c0 == 'f' {
        5u8
    } else if c0 == 'g' {
        6u8
    } else if c0 == 'h' {
        7u8
    } else {
        return None;
    };
    match rank_of_char(c1) {
        Some(rk) => Some(rk * 8 + f),
        None => None,
    }
}

/// Returns the lower-case letter of a file as a one-character string.
pub(crate) fn file_str(f: u8) -> (r: &'static str)
    requires
        f < 8,
    ensures
        r@ =~= seq![file_char_spec(f as int)],
{
    if f == 0 {
        proof {
            reveal_strlit("a");
        }
        "a"
    } else if f == 1 {
        proof {
            reveal_strlit("b");
        }
        "b"
    } else if f == 2 {
        proof {
            reveal_strlit("c");
        }
        "c"
    } else if f == 3 {
        proof {
            reveal_strlit("d");
        }
        "d"
    } else if f == 4 {
        proof {
            reveal_strlit("e");
        }
        "e"
    } else if f == 5 {
        proof {
            reveal_strlit("f");
        }
        "f"
    } else if f == 6 {
        proof {
            reveal_strlit("g");
        }
        "g"
    } else {
        proof {
            reveal_strlit("h");
        }
        "h"
    }
}

/// Returns the digit of a rank as a one-character string.
pub(crate) fn rank_str(rk: u8) -> (r: &'static str)
    requires
        rk < 8,
    ensures
        r@ =~= seq![rank_char_spec(rk as int)],
{
    if rk == 0 {
        proof {
            reveal_strlit("1");
        }
        "1"
    } else if rk == 1 {
        proof {
            reveal_strlit("2");
        }
        "2"
    } else if rk == 2 {
        proof {
            reveal_strlit("3");
        }
        "3"
    } else if rk == 3 {
        proof {
            reveal_strlit("4");
        }
        "4"
    } else if rk == 4 {
        proof {
            reveal_strlit("5");
        }
        "5"
    } else if rk == 5 {
        proof {
            reveal_strlit("6");
        }
        "6"
    } else if rk == 6 {
        proof {
            reveal_strlit("7");
        }
        "7"
    } else {
        proof {
            reveal_strlit("8");
        }
        "8"
    }
}

/// Decodes a file letter, either case.
pub(crate) fn file_of_char(c: char) -> (r: Option<u8>)
    ensures
        r matches Some(f) ==> (file_of_char_spec(c) == Some(f as int) && f < 8),
        r is None ==> file_of_char_spec(c) is None,
{
    if c == 'a' || c == 'A' {
        Some(0)
    } else if c == 'b' || c == 'B' {
        Some(1)
    } else if c == 'c' || c == 'C' {
        Some(2)
    } else if c == 'd' || c == 'D' {
        Some(3)
    } else if c == 'e' || c == 'E' {
        Some(4)
    } else if c == 'f' || c == 'F' {
        Some(5)
    } else if c == 'g' || c == 'G' {
        Some(6)
    } else if c == 'h' || c == 'H' {
        Some(7)
    } else {
        None
    }
}

/// Decodes a rank digit.
pub(crate) fn rank_of_char(c: char) -> (r: Option<u8>)
    ensures
        r matches Some(rk) ==> (rank_of_char_spec(c) == Some(rk as int) && rk < 8),
        r is None ==> rank_of_char_spec(c) is None,
{
    if c == '1' {
        Some(0)
    } else if c == '2' {
        Some(1)
    } else if c == '3' {
        Some(2)
    } else if c == '4' {
        Some(3)
    } else if c == '5' {
        Some(4)
    } else if c == '6' {
        Some(5)
    } else if c == '7' {
        Some(6)
    } else if c == '8' {
        Some(7)
    } else {
        None
    }
}

} // verus!
