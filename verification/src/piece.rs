use vstd::prelude::*;

verus! {

/// A side of the game. White moves first.
#[derive(Clone, Copy, Debug, PartialEq, Eq, PartialOrd, Hash, Structural)]
pub enum Color {
    White,
    Black,
}

impl Color {
    /// The opposing side.
    pub open spec fn flip_spec(self) -> Color {
        match self {
            Color::White => Color::Black,
            Color::Black => Color::White,
        }
    }

    /// Returns the opposing side.
    pub fn opposite(&self) -> (r: Color)
        ensures
            r == self.flip_spec(),
    {
        match self {
            Color::White => Color::Black,
            Color::Black => Color::White,
        }
    }

    /// Returns the side's name, upper case.
    pub fn get_string(&self) -> (r: &'static str)
        ensures
            self == Color::White ==> r@ == "WHITE"@,
            self == Color::Black ==> r@ == "BLACK"@,
    {
        match self {
            Color::White => "WHITE",
            Color::Black => "BLACK",
        }
    }
}

/// A kind of chessman, without its color. The kinds are ordered
/// Pawn < Knight < Bishop < Rook < Queen < King, indexed 0 to 5.
#[derive(Clone, Copy, Debug, PartialEq, Eq, PartialOrd, Ord, Hash, Structural)]
pub enum PieceType {
    Pawn,
    Knight,
    Bishop,
    Rook,
    Queen,
    King,
}

impl PieceType {
    /// The index of the kind, 0 (Pawn) to 5 (King).
    pub open spec fn index_spec(self) -> int {
        match self {
            PieceType::Pawn => 0,
            PieceType::Knight => 1,
            PieceType::Bishop => 2,
            PieceType::Rook => 3,
            PieceType::Queen => 4,
            PieceType::King => 5,
        }
    }

    /// The kind with the given index.
    pub open spec fn from_index_spec(i: int) -> PieceType {
        if i == 0 {
            PieceType::Pawn
        } else if i == 1 {
            PieceType::Knight
        } else if i == 2 {
            PieceType::Bishop
        } else if i == 3 {
            PieceType::Rook
        } else if i == 4 {
            PieceType::Queen
        } else {
            PieceType::King
        }
    }

    /// Returns the index of the kind, 0 (Pawn) to 5 (King).
    pub fn get_index(&self) -> (r: u8)
        ensures
            r as int == self.index_spec(),
            r < 6,
    {
        match self {
            PieceType::Pawn => 0,
            PieceType::Knight => 1,
            PieceType::Bishop => 2,
            PieceType::Rook => 3,
            PieceType::Queen => 4,
            PieceType::King => 5,
        }
    }

    /// Returns the kind with the given index.
    pub fn from_index(i: u8) -> (r: PieceType)
        requires
            i < 6,
        ensures
            r == PieceType::from_index_spec(i as int),
            r.index_spec() == i as int,
    {
        if i == 0 {
            PieceType::Pawn
        } else if i == 1 {
            PieceType::Knight
        } else if i == 2 {
            PieceType::Bishop
        } else if i == 3 {
            PieceType::Rook
        } else if i == 4 {
            PieceType::Queen
        } else {
            PieceType::King
        }
    }

    /// Returns the one-letter string for the kind: upper case for White,
    /// lower case for Black, as the kind appears in a FEN placement field.
    pub fn get_string(&self, color: Color) -> (r: &'static str)
        ensures
            r@ =~= seq![fen_char_spec(Piece { piece_type: *self, color })],
    {
        let p = Piece { piece_type: *self, color };
        piece_fen_str(&p)
    }
}

/// A chessman: a kind together with a color. White pieces order before
/// black pieces of the same kind.
#[derive(Clone, Copy, Debug, PartialEq, Eq, PartialOrd, Hash, Structural)]
pub struct Piece {
    pub piece_type: PieceType,
    pub color: Color,
}

impl Piece {
    /// Builds a piece from a kind and a color.
    pub fn new(piece_type: PieceType, color: Color) -> (r: Piece)
        ensures
            r == (Piece { piece_type, color }),
    {
        Piece { piece_type, color }
    }

    /// Returns the index of the piece's kind, 0 to 5.
    pub fn get_index(&self) -> (r: u8)
        ensures
            r as int == self.piece_type.index_spec(),
            r < 6,
    {
        self.piece_type.get_index()
    }

    /// Returns the piece's kind.
    pub fn get_piece_type(&self) -> (r: PieceType)
        ensures
            r == self.piece_type,
    {
        self.piece_type
    }

    /// Returns the piece's color.
    pub fn get_color(&self) -> (r: Color)
        ensures
            r == self.color,
    {
        self.color
    }

    /// Returns the piece's one-letter string, as in a FEN placement field.
    pub fn get_string(&self) -> (r: &'static str)
        ensures
            r@ =~= seq![fen_char_spec(*self)],
    {
        piece_fen_str(self)
    }
}

/// The FEN letter of a piece: upper case for White, lower case for Black.
pub open spec fn fen_char_spec(p: Piece) -> char {
    match p.color {
        Color::White => match p.piece_type {
            PieceType::Pawn => 'P',
            PieceType::Knight => 'N',
            PieceType::Bishop => 'B',
            PieceType::Rook => 'R',
            PieceType::Queen => 'Q',
            PieceType::King => 'K',
        },
        Color::Black => match p.piece_type {
            PieceType::Pawn => 'p',
            PieceType::Knight => 'n',
            PieceType::Bishop => 'b',
            PieceType::Rook => 'r',
            PieceType::Queen => 'q',
            PieceType::King => 'k',
        },
    }
}

/// The piece a FEN letter stands for, if any.
pub open spec fn piece_of_char_spec(c: char) -> Option<Piece> {
    if c == 'P' {
        Some(Piece { piece_type: PieceType::Pawn, color: Color::White })
    } else if c == 'N' {
        Some(Piece { piece_type: PieceType::Knight, color: Color::White })
    } else if c == 'B' {
        Some(Piece { piece_type: PieceType::Bishop, color: Color::White })
    } else if c == 'R' {
        Some(Piece { piece_type: PieceType::Rook, color: Color::White })
    } else if c == 'Q' {
        Some(Piece { piece_type: PieceType::Queen, color: Color::White })
    } else if c == 'K' {
        Some(Piece { piece_type: PieceType::King, color: Color::White })
    } else if c == 'p' {
        Some(Piece { piece_type: PieceType::Pawn, color: Color::Black })
    } else if c == 'n' {
        Some(Piece { piece_type: PieceType::Knight, color: Color::Black })
    } else if c == 'b' {
        Some(Piece { piece_type: PieceType::Bishop, color: Color::Black })
    } else if c == 'r' {
        Some(Piece { piece_type: PieceType::Rook, color: Color::Black })
    } else if c == 'q' {
        Some(Piece { piece_type: PieceType::Queen, color: Color::Black })
    } else if c == 'k' {
        Some(Piece { piece_type: PieceType::King, color: Color::Black })
    } else {
        None
    }
}

/// Decoding a piece's FEN letter gives back the piece.
pub proof fn lemma_piece_char_round_trip(p: Piece)
    ensures
        piece_of_char_spec(fen_char_spec(p)) == Some(p),
{
}

/// Encoding the piece a FEN letter stands for gives back the letter.
pub proof fn lemma_char_piece_round_trip(c: char)
    requires
        piece_of_char_spec(c) is Some,
    ensures
        fen_char_spec(piece_of_char_spec(c)->Some_0) == c,
{
}

/// Returns the FEN letter of a piece as a one-character string.
pub fn piece_fen_str(p: &Piece) -> (r: &'static str)
    ensures
        r@ =~= seq![fen_char_spec(*p)],
{
    match p.color {
        Color::White => match p.piece_type {
            PieceType::Pawn => {
                proof {
                    reveal_strlit("P");
                }
                "P"
            },
            PieceType::Knight => {
                proof {
                    reveal_strlit("N");
                }
                "N"
            },
            PieceType::Bishop => {
                proof {
                    reveal_strlit("B");
                }
                "B"
            },
            PieceType::Rook => {
                proof {
                    reveal_strlit("R");
                }
                "R"
            },
            PieceType::Queen => {
                proof {
                    reveal_strlit("Q");
                }
                "Q"
            },
            PieceType::King => {
                proof {
                    reveal_strlit("K");
                }
                "K"
            },
        },
        Color::Black => match p.piece_type {
            PieceType::Pawn => {
                proof {
                    reveal_strlit("p");
                }
                "p"
            },
            PieceType::Knight => {
                proof {
                    reveal_strlit("n");
                }
                "n"
            },
            PieceType::Bishop => {
                proof {
                    reveal_strlit("b");
                }
                "b"
            },
            PieceType::Rook => {
                proof {
                    reveal_strlit("r");
                }
                "r"
            },
            PieceType::Queen => {
                proof {
                    reveal_strlit("q");
                }
                "q"
            },
            PieceType::King => {
                proof {
                    reveal_strlit("k");
                }
                "k"
            },
        },
    }
}

/// Decodes a FEN piece letter.
pub fn piece_of_char(c: char) -> (r: Option<Piece>)
    ensures
        r == piece_of_char_spec(c),
{
    if c == 'P' {
        Some(Piece { piece_type: PieceType::Pawn, color: Color::White })
    } else if c == 'N' {
        Some(Piece { piece_type: PieceType::Knight, color: Color::White })
    } else if c == 'B' {
        Some(Piece { piece_type: PieceType::Bishop, color: Color::White })
    } else if c == 'R' {
        Some(Piece { piece_type: PieceType::Rook, color: Color::White })
    } else if c == 'Q' {
        Some(Piece { piece_type: PieceType::Queen, color: Color::White })
    } else if c == 'K' {
        Some(Piece { piece_type: PieceType::King, color: Color::White })
    } else if c == 'p' {
        Some(Piece { piece_type: PieceType::Pawn, color: Color::Black })
    } else if c == 'n' {
        Some(Piece { piece_type: PieceType::Knight, color: Color::Black })
    } else if c == 'b' {
        Some(Piece { piece_type: PieceType::Bishop, color: Color::Black })
    } else if c == 'r' {
        Some(Piece { piece_type: PieceType::Rook, color: Color::Black })
    } else if c == 'q' {
        Some(Piece { piece_type: PieceType::Queen, color: Color::Black })
    } else if c == 'k' {
        Some(Piece { piece_type: PieceType::King, color: Color::Black })
    } else {
        None
    }
}

} // verus!
