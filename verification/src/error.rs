use vstd::prelude::*;

verus! {

/// Every failure the engine reports to a caller: malformed input is a
/// rejected construction, an illegal move is a rejected transition.
#[derive(Clone, Copy, Debug, PartialEq, Eq, Structural)]
pub enum ChessError {
    /// A square index above 63.
    SquareIndexOutOfRange,
    /// A square name that is not a file letter followed by a rank digit.
    BadSquareName,
    /// A rank or file index above 7.
    BadRankFile,
    /// A move string that is not 4 or 5 characters of squares plus an
    /// optional promotion letter.
    BadUciMove,
    /// A FEN string whose field count is not 6.
    FenBadFieldCount,
    /// A FEN piece-placement field that does not describe 8 ranks of 8 squares.
    FenBadPlacement,
    /// A FEN side-to-move field other than "w" or "b".
    FenBadSideToMove,
    /// A FEN castling field that is not "-" or an ordered subset of "KQkq".
    FenBadCastling,
    /// A FEN en-passant field that is not "-" or a square name.
    FenBadEnPassant,
    /// A FEN halfmove-clock field that is not a canonical decimal u8.
    FenBadHalfmoveClock,
    /// A FEN fullmove-number field that is not a canonical decimal u8.
    FenBadFullmoveNumber,
    /// A FEN placement that does not give each side exactly one king.
    FenBadKingCount,
    /// A move rejected by the legality check.
    IllegalMove,
}

impl ChessError {
    /// A short description of the failure.
    pub fn message(&self) -> (r: &'static str)
        ensures
            r@.len() > 0,
    {
        proof {
            reveal_strlit("square index must be between 0 and 63");
        }
        match self {
            ChessError::SquareIndexOutOfRange => "square index must be between 0 and 63",
            ChessError::BadSquareName => {
                proof {
                    reveal_strlit("invalid square name");
                }
                "invalid square name"
            },
            ChessError::BadRankFile => {
                proof {
                    reveal_strlit("rank and file must be between 0 and 7");
                }
                "rank and file must be between 0 and 7"
            },
            ChessError::BadUciMove => {
                proof {
                    reveal_strlit("invalid UCI move");
                }
                "invalid UCI move"
            },
            ChessError::FenBadFieldCount => {
                proof {
                    reveal_strlit("FEN string must have exactly 6 parts");
                }
                "FEN string must have exactly 6 parts"
            },
            ChessError::FenBadPlacement => {
                proof {
                    reveal_strlit("invalid FEN piece placement");
                }
                "invalid FEN piece placement"
            },
            ChessError::FenBadSideToMove => {
                proof {
                    reveal_strlit("invalid FEN side to move");
                }
                "invalid FEN side to move"
            },
            ChessError::FenBadCastling => {
                proof {
                    reveal_strlit("invalid FEN castling rights");
                }
                "invalid FEN castling rights"
            },
            ChessError::FenBadEnPassant => {
                proof {
                    reveal_strlit("invalid FEN en-passant target");
                }
                "invalid FEN en-passant target"
            },
            ChessError::FenBadHalfmoveClock => {
                proof {
                    reveal_strlit("invalid halfmove clock");
                }
                "invalid halfmove clock"
            },
            ChessError::FenBadFullmoveNumber => {
                proof {
                    reveal_strlit("invalid fullmove number");
                }
                "invalid fullmove number"
            },
            ChessError::FenBadKingCount => {
                proof {
                    reveal_strlit("FEN placement must give each side exactly one king");
                }
                "FEN placement must give each side exactly one king"
            },
            ChessError::IllegalMove => {
                proof {
                    reveal_strlit("illegal move");
                }
                "illegal move"
            },
        }
    }
}

} // verus!
