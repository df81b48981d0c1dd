use vstd::prelude::*;
use vstd::string::*;

use crate::error::ChessError;
use crate::piece::PieceType;
use crate::square::{
    parse_square_name_spec, square_name_spec, Square, file_of_char, rank_of_char,
};

verus! {

/// A candidate move: a source square, a destination square, and an optional
/// promotion kind. Construction does not check legality; whether the move is
/// playable in a position is decided separately.
#[derive(Clone, Copy, Debug, PartialEq, Eq, PartialOrd, Hash)]
pub struct Move {
    pub source: Square,
    pub dest: Square,
    pub promotion: Option<PieceType>,
}

/// The lower-case letter a promotion kind is written with in a move string.
pub open spec fn promo_char_spec(pt: PieceType) -> char {
    match pt {
        PieceType::Pawn => 'p',
        PieceType::Knight => 'n',
        PieceType::Bishop => 'b',
        PieceType::Rook => 'r',
        PieceType::Queen => 'q',
        PieceType::King => 'k',
    }
}

/// The promotion kind a letter names, accepted in either case; only the four
/// kinds a pawn may promote to are accepted.
pub open spec fn promo_of_char_spec(c: char) -> Option<PieceType> {
    if c == 'n' || c == 'N' {
        Some(PieceType::Knight)
    } else if c == 'b' || c == 'B' {
        Some(PieceType::Bishop)
    } else if c == 'r' || c == 'R' {
        Some(PieceType::Rook)
    } else if c == 'q' || c == 'Q' {
        Some(PieceType::Queen)
    } else {
        None
    }
}

/// The move string of a move: source square name, destination square name,
/// and the promotion letter if the move promotes.
pub open spec fn uci_spec(m: Move) -> Seq<char> {
    square_name_spec(m.source@) + square_name_spec(m.dest@) + (match m.promotion {
        None => Seq::<char>::empty(),
        Some(pt) => seq![promo_char_spec(pt)],
    })
}

/// The (source index, destination index, promotion) a move string describes,
/// if the string is 4 or 5 characters of two square names and an optional
/// promotion letter, either case.
pub open spec fn parse_uci_spec(cs: Seq<char>) -> Option<(int, int, Option<PieceType>)> {
    if cs.len() == 4 || cs.len() == 5 {
        match (
            parse_square_name_spec(cs.subrange(0, 2)),
            parse_square_name_spec(cs.subrange(2, 4)),
        ) {
            (Some(s), Some(d)) => {
                if cs.len() == 4 {
                    Some((s, d, None))
                } else {
                    match promo_of_char_spec(cs[4]) {
                        Some(pt) => Some((s, d, Some(pt))),
                        None => None,
                    }
                }
            },
            _ => None,
        }
    } else {
        None
    }
}

impl Move {
    /// Builds a move from a source, a destination, and an optional promotion
    /// kind.
    pub fn new(source: Square, dest: Square, promotion: Option<PieceType>) -> (r: Move)
        ensures
            r == (Move { source, dest, promotion }),
    {
        Move { source, dest, promotion }
    }

    /// Builds the move a 4- or 5-character move string describes, such as
    /// "e2e4" or "e7e8q"; accepts either case and rejects any other string.
    pub fn from_uci(uci: &str) -> (r: Result<Move, ChessError>)
        ensures
            parse_uci_spec(uci@) matches Some(t) ==> (r matches Ok(m) && m.source@ == t.0
                && m.dest@ == t.1 && m.promotion == t.2),
            parse_uci_spec(uci@) is None ==> r == Err::<Move, ChessError>(ChessError::BadUciMove),
    {
        let n = uci.unicode_len();
        if n != 4 && n != 5 {
            return Err(ChessError::BadUciMove);
        }
        let c0 = uci.get_char(0);
        let c1 = uci.get_char(1);
        let c2 = uci.get_char(2);
        let c3 = uci.get_char(3);
        proof {
            assert(uci@.subrange(0, 2) =~= seq![uci@[0], uci@[1]]);
            assert(uci@.subrange(2, 4) =~= seq![uci@[2], uci@[3]]);
        }
        let sf = match file_of_char(c0) {
            Some(f) => f,
            None => {
                return Err(ChessError::BadUciMove);
            },
        };
        let sr = match rank_of_char(c1) {
            Some(rk) => rk,
            None => {
                return Err(ChessError::BadUciMove);
            },
        };
        let df = match file_of_char(c2) {
            Some(f) => f,
            None => {
                return Err(ChessError::BadUciMove);
            },
        };
        let dr = match rank_of_char(c3) {
            Some(rk) => rk,
            None => {
                return Err(ChessError::BadUciMove);
            },
        };
        let promotion: Option<PieceType> = if n == 5 {
            let c4 = uci.get_char(4);
            if c4 == 'n' || c4 == 'N' {
                Some(PieceType::Knight)
            } else if c4 == 'b' || c4 == 'B' {
                Some(PieceType::Bishop)
            } else if c4 == 'r' || c4 == 'R' {
                Some(PieceType::Rook)
            } else if c4 == 'q' || c4 == 'Q' {
                Some(PieceType::Queen)
            } else {
                return Err(ChessError::BadUciMove);
            }
        } else {
            None
        };
        Ok(
            Move {
                source: Square::from_u8(sr * 8 + sf),
                dest: Square::from_u8(dr * 8 + df),
                promotion,
            },
        )
    }

    /// Returns the move string of the move: source square name, destination
    /// square name, and the promotion letter if the move promotes, all lower
    /// case.
    pub fn get_uci(&self) -> (r: String)
        ensures
            r@ =~= uci_spec(*self),
    {
        let mut s = self.source.get_name();
        let d = self.dest.get_name();
        s.append(d.as_str());
        match self.promotion {
            None => {},
            Some(pt) => {
                let c = match pt {
                    PieceType::Pawn => {
                        proof {
                            reveal_strlit("p");
                        }
                        "p"
                    },
                    PieceType::Knight => {
                        proof {
                            reveal_strlit("n");
                        }
                        "n"
                    },
                    PieceType::Bishop => {
                        proof {
                            reveal_strlit("b");
                        }
                        "b"
                    },
                    PieceType::Rook => {
                        proof {
                            reveal_strlit("r");
                        }
                        "r"
                    },
                    PieceType::Queen => {
                        proof {
                            reveal_strlit("q");
                        }
                        "q"
                    },
                    PieceType::King => {
                        proof {
                            reveal_strlit("k");
                        }
                        "k"
                    },
                };
                s.append(c);
            },
        }
        s
    }

    /// Returns the source square of the move.
    pub fn get_source(&self) -> (r: Square)
        ensures
            r == self.source,
    {
        self.source
    }

    /// Returns the destination square of the move.
    pub fn get_dest(&self) -> (r: Square)
        ensures
            r == self.dest,
    {
        self.dest
    }

    /// Returns the promotion kind of the move, if the move promotes.
    pub fn get_promotion(&self) -> (r: Option<PieceType>)
        ensures
            r == self.promotion,
    {
        self.promotion
    }
}

/// Decoding a move's move string gives back the move, for every move whose
/// promotion, if any, is one of the four kinds a pawn may promote to.
pub proof fn lemma_uci_round_trip(m: Move)
    requires
        0 <= m.source@ < 64,
        0 <= m.dest@ < 64,
        m.promotion matches Some(pt) ==> (pt == PieceType::Knight || pt == PieceType::Bishop || pt
            == PieceType::Rook || pt == PieceType::Queen),
    ensures
        parse_uci_spec(uci_spec(m)) == Some((m.source@, m.dest@, m.promotion)),
{
    let cs = uci_spec(m);
    assert(cs.subrange(0, 2) =~= square_name_spec(m.source@));
    assert(cs.subrange(2, 4) =~= square_name_spec(m.dest@));
    crate::square::lemma_square_name_round_trip(m.source@);
    crate::square::lemma_square_name_round_trip(m.dest@);
}

} // verus!
