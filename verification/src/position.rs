use vstd::prelude::*;

use crate::bitboard::{
    bb_clear, bb_has, bb_set, lemma_bb_clear_has, lemma_bb_empty, lemma_bb_set_has, bit_test,
};
use crate::piece::{Color, Piece, PieceType};
use crate::square::Square;

verus! {

/// The board state proper: one bitboard per color and kind, the side to
/// move, the four castling-rights flags, and the en-passant target square.
/// The halfmove clock and the fullmove number are tracked beside the
/// position, not in it.
#[derive(Clone, Copy, Debug, PartialEq, Eq)]
pub struct Position {
    /// White pawns.
    pub wp: u64,
    /// White knights.
    pub wn: u64,
    /// White bishops.
    pub wb: u64,
    /// White rooks.
    pub wr: u64,
    /// White queens.
    pub wq: u64,
    /// White king.
    pub wk: u64,
    /// Black pawns.
    pub bp: u64,
    /// Black knights.
    pub bn: u64,
    /// Black bishops.
    pub bb: u64,
    /// Black rooks.
    pub br: u64,
    /// Black queens.
    pub bq: u64,
    /// Black king.
    pub bk: u64,
    /// The side to move.
    pub side: Color,
    /// White may still castle king-side.
    pub castle_wk: bool,
    /// White may still castle queen-side.
    pub castle_wq: bool,
    /// Black may still castle king-side.
    pub castle_bk: bool,
    /// Black may still castle queen-side.
    pub castle_bq: bool,
    /// The square a pawn skipped on a double push the move before, if any.
    pub ep: Option<Square>,
}

impl Position {
    /// The bitboard of the given color and kind.
    pub open spec fn bb_of(self, c: Color, pt: PieceType) -> u64 {
        match c {
            Color::White => match pt {
                PieceType::Pawn => self.wp,
                PieceType::Knight => self.wn,
                PieceType::Bishop => self.wb,
                PieceType::Rook => self.wr,
                PieceType::Queen => self.wq,
                PieceType::King => self.wk,
            },
            Color::Black => match pt {
                PieceType::Pawn => self.bp,
                PieceType::Knight => self.bn,
                PieceType::Bishop => self.bb,
                PieceType::Rook => self.br,
                PieceType::Queen => self.bq,
                PieceType::King => self.bk,
            },
        }
    }

    /// The piece on a square, if any: the piece whose bitboard holds the
    /// square. On a position whose bitboards overlap, the first match in
    /// the fixed order below is reported.
    pub open spec fn piece_at(self, sq: int) -> Option<Piece> {
        if bb_has(self.wp, sq) {
            Some(Piece { piece_type: PieceType::Pawn, color: Color::White })
        } else if bb_has(self.wn, sq) {
            Some(Piece { piece_type: PieceType::Knight, color: Color::White })
        } else if bb_has(self.wb, sq) {
            Some(Piece { piece_type: PieceType::Bishop, color: Color::White })
        } else if bb_has(self.wr, sq) {
            Some(Piece { piece_type: PieceType::Rook, color: Color::White })
        } else if bb_has(self.wq, sq) {
            Some(Piece { piece_type: PieceType::Queen, color: Color::White })
        } else if bb_has(self.wk, sq) {
            Some(Piece { piece_type: PieceType::King, color: Color::White })
        } else if bb_has(self.bp, sq) {
            Some(Piece { piece_type: PieceType::Pawn, color: Color::Black })
        } else if bb_has(self.bn, sq) {
            Some(Piece { piece_type: PieceType::Knight, color: Color::Black })
        } else if bb_has(self.bb, sq) {
            Some(Piece { piece_type: PieceType::Bishop, color: Color::Black })
        } else if bb_has(self.br, sq) {
            Some(Piece { piece_type: PieceType::Rook, color: Color::Black })
        } else if bb_has(self.bq, sq) {
            Some(Piece { piece_type: PieceType::Queen, color: Color::Black })
        } else if bb_has(self.bk, sq) {
            Some(Piece { piece_type: PieceType::King, color: Color::Black })
        } else {
            None
        }
    }

    /// Whether a square holds a piece.
    pub open spec fn occupied(self, sq: int) -> bool {
        self.piece_at(sq) is Some
    }

    /// The union of a side's six bitboards: every square one of them holds.
    pub open spec fn color_bb(self, c: Color) -> u64 {
        match c {
            Color::White => self.wp | self.wn | self.wb | self.wr | self.wq | self.wk,
            Color::Black => self.bp | self.bn | self.bb | self.br | self.bq | self.bk,
        }
    }

    /// Whether a square holds a piece of the given color.
    pub open spec fn color_occupies(self, c: Color, sq: int) -> bool {
        match self.piece_at(sq) {
            Some(p) => p.color == c,
            None => false,
        }
    }

    /// The number of squares below `n` holding the given piece.
    pub open spec fn count_piece_below(self, p: Piece, n: int) -> nat
        decreases n,
    {
        if n <= 0 {
            0
        } else {
            self.count_piece_below(p, n - 1) + if self.piece_at(n - 1) == Some(p) {
                1nat
            } else {
                0nat
            }
        }
    }

    /// The number of squares holding the given piece.
    pub open spec fn count_piece(self, p: Piece) -> nat {
        self.count_piece_below(p, 64)
    }

    /// A position is well formed when each side has exactly one king.
    pub open spec fn wf(self) -> bool {
        &&& self.count_piece(Piece { piece_type: PieceType::King, color: Color::White }) == 1
        &&& self.count_piece(Piece { piece_type: PieceType::King, color: Color::Black }) == 1
    }

    /// The empty board with White to move and no castling rights.
    pub open spec fn empty_spec() -> Position {
        Position {
            wp: 0,
            wn: 0,
            wb: 0,
            wr: 0,
            wq: 0,
            wk: 0,
            bp: 0,
            bn: 0,
            bb: 0,
            br: 0,
            bq: 0,
            bk: 0,
            side: Color::White,
            castle_wk: false,
            castle_wq: false,
            castle_bk: false,
            castle_bq: false,
            ep: None,
        }
    }

    /// Builds the empty board with White to move and no castling rights.
    pub fn empty() -> (r: Position)
        ensures
            r == Position::empty_spec(),
    {
        Position {
            wp: 0,
            wn: 0,
            wb: 0,
            wr: 0,
            wq: 0,
            wk: 0,
            bp: 0,
            bn: 0,
            bb: 0,
            br: 0,
            bq: 0,
            bk: 0,
            side: Color::White,
            castle_wk: false,
            castle_wq: false,
            castle_bk: false,
            castle_bq: false,
            ep: None,
        }
    }

    /// The empty board holds no piece on any square.
    pub proof fn lemma_empty_piece_at(sq: int)
        ensures
            Position::empty_spec().piece_at(sq) is None,
    {
        lemma_bb_empty(sq);
    }

    /// Returns the piece on a square, if any.
    pub fn piece_on(&self, sq: u8) -> (r: Option<Piece>)
        requires
            sq < 64,
        ensures
            r == self.piece_at(sq as int),
    {
        if bit_test(self.wp, sq) {
            Some(Piece { piece_type: PieceType::Pawn, color: Color::White })
        } else if bit_test(self.wn, sq) {
            Some(Piece { piece_type: PieceType::Knight, color: Color::White })
        } else if bit_test(self.wb, sq) {
            Some(Piece { piece_type: PieceType::Bishop, color: Color::White })
        } else if bit_test(self.wr, sq) {
            Some(Piece { piece_type: PieceType::Rook, color: Color::White })
        } else if bit_test(self.wq, sq) {
            Some(Piece { piece_type: PieceType::Queen, color: Color::White })
        } else if bit_test(self.wk, sq) {
            Some(Piece { piece_type: PieceType::King, color: Color::White })
        } else if bit_test(self.bp, sq) {
            Some(Piece { piece_type: PieceType::Pawn, color: Color::Black })
        } else if bit_test(self.bn, sq) {
            Some(Piece { piece_type: PieceType::Knight, color: Color::Black })
        } else if bit_test(self.bb, sq) {
            Some(Piece { piece_type: PieceType::Bishop, color: Color::Black })
        } else if bit_test(self.br, sq) {
            Some(Piece { piece_type: PieceType::Rook, color: Color::Black })
        } else if bit_test(self.bq, sq) {
            Some(Piece { piece_type: PieceType::Queen, color: Color::Black })
        } else if bit_test(self.bk, sq) {
            Some(Piece { piece_type: PieceType::King, color: Color::Black })
        } else {
            None
        }
    }

    /// The position with every piece removed from a square.
    pub open spec fn clear_square_spec(self, sq: int) -> Position {
        Position {
            wp: bb_clear(self.wp, sq),
            wn: bb_clear(self.wn, sq),
            wb: bb_clear(self.wb, sq),
            wr: bb_clear(self.wr, sq),
            wq: bb_clear(self.wq, sq),
            wk: bb_clear(self.wk, sq),
            bp: bb_clear(self.bp, sq),
            bn: bb_clear(self.bn, sq),
            bb: bb_clear(self.bb, sq),
            br: bb_clear(self.br, sq),
            bq: bb_clear(self.bq, sq),
            bk: bb_clear(self.bk, sq),
            ..self
        }
    }

    /// Clears every bitboard's bit for a square.
    pub fn clear_square(&mut self, sq: u8)
        requires
            sq < 64,
        ensures
            *final(self) == old(self).clear_square_spec(sq as int),
    {
        let m: u64 = !(1u64 << (sq as u64));
        self.wp = self.wp & m;
        self.wn = self.wn & m;
        self.wb = self.wb & m;
        self.wr = self.wr & m;
        self.wq = self.wq & m;
        self.wk = self.wk & m;
        self.bp = self.bp & m;
        self.bn = self.bn & m;
        self.bb = self.bb & m;
        self.br = self.br & m;
        self.bq = self.bq & m;
        self.bk = self.bk & m;
    }

    /// The position with the given piece put on a square, replacing whatever
    /// the square held.
    pub open spec fn put_piece_spec(self, sq: int, p: Piece) -> Position {
        let c = self.clear_square_spec(sq);
        match p.color {
            Color::White => match p.piece_type {
                PieceType::Pawn => Position { wp: bb_set(c.wp, sq), ..c },
                PieceType::Knight => Position { wn: bb_set(c.wn, sq), ..c },
                PieceType::Bishop => Position { wb: bb_set(c.wb, sq), ..c },
                PieceType::Rook => Position { wr: bb_set(c.wr, sq), ..c },
                PieceType::Queen => Position { wq: bb_set(c.wq, sq), ..c },
                PieceType::King => Position { wk: bb_set(c.wk, sq), ..c },
            },
            Color::Black => match p.piece_type {
                PieceType::Pawn => Position { bp: bb_set(c.bp, sq), ..c },
                PieceType::Knight => Position { bn: bb_set(c.bn, sq), ..c },
                PieceType::Bishop => Position { bb: bb_set(c.bb, sq), ..c },
                PieceType::Rook => Position { br: bb_set(c.br, sq), ..c },
                PieceType::Queen => Position { bq: bb_set(c.bq, sq), ..c },
                PieceType::King => Position { bk: bb_set(c.bk, sq), ..c },
            },
        }
    }

    /// Puts a piece on a square, replacing whatever the square held.
    pub fn put_piece(&mut self, sq: u8, p: Piece)
        requires
            sq < 64,
        ensures
            *final(self) == old(self).put_piece_spec(sq as int, p),
    {
        self.clear_square(sq);
        let b: u64 = 1u64 << (sq as u64);
        match p.color {
            Color::White => match p.piece_type {
                PieceType::Pawn => {
                    self.wp = self.wp | b;
                },
                PieceType::Knight => {
                    self.wn = self.wn | b;
                },
                PieceType::Bishop => {
                    self.wb = self.wb | b;
                },
                PieceType::Rook => {
                    self.wr = self.wr | b;
                },
                PieceType::Queen => {
                    self.wq = self.wq | b;
                },
                PieceType::King => {
                    self.wk = self.wk | b;
                },
            },
            Color::Black => match p.piece_type {
                PieceType::Pawn => {
                    self.bp = self.bp | b;
                },
                PieceType::Knight => {
                    self.bn = self.bn | b;
                },
                PieceType::Bishop => {
                    self.bb = self.bb | b;
                },
                PieceType::Rook => {
                    self.br = self.br | b;
                },
                PieceType::Queen => {
                    self.bq = self.bq | b;
                },
                PieceType::King => {
                    self.bk = self.bk | b;
                },
            },
        }
    }

    /// Clearing a square empties it and leaves every other square as it was.
    pub proof fn lemma_clear_square_piece_at(self, sq: int, j: int)
        requires
            0 <= sq < 64,
            0 <= j < 64,
        ensures
            self.clear_square_spec(sq).piece_at(j) == if j == sq {
                None::<Piece>
            } else {
                self.piece_at(j)
            },
    {
        lemma_bb_clear_has(self.wp, sq, j);
        lemma_bb_clear_has(self.wn, sq, j);
        lemma_bb_clear_has(self.wb, sq, j);
        lemma_bb_clear_has(self.wr, sq, j);
        lemma_bb_clear_has(self.wq, sq, j);
        lemma_bb_clear_has(self.wk, sq, j);
        lemma_bb_clear_has(self.bp, sq, j);
        lemma_bb_clear_has(self.bn, sq, j);
        lemma_bb_clear_has(self.bb, sq, j);
        lemma_bb_clear_has(self.br, sq, j);
        lemma_bb_clear_has(self.bq, sq, j);
        lemma_bb_clear_has(self.bk, sq, j);
    }

    /// Putting a piece fills its square and leaves every other square as it
    /// was.
    pub proof fn lemma_put_piece_piece_at(self, sq: int, p: Piece, j: int)
        requires
            0 <= sq < 64,
            0 <= j < 64,
        ensures
            self.put_piece_spec(sq, p).piece_at(j) == if j == sq {
                Some(p)
            } else {
                self.piece_at(j)
            },
    {
        self.lemma_clear_square_piece_at(sq, j);
        let c = self.clear_square_spec(sq);
        lemma_bb_set_has(c.wp, sq, j);
        lemma_bb_set_has(c.wn, sq, j);
        lemma_bb_set_has(c.wb, sq, j);
        lemma_bb_set_has(c.wr, sq, j);
        lemma_bb_set_has(c.wq, sq, j);
        lemma_bb_set_has(c.wk, sq, j);
        lemma_bb_set_has(c.bp, sq, j);
        lemma_bb_set_has(c.bn, sq, j);
        lemma_bb_set_has(c.bb, sq, j);
        lemma_bb_set_has(c.br, sq, j);
        lemma_bb_set_has(c.bq, sq, j);
        lemma_bb_set_has(c.bk, sq, j);
    }

    /// Piece counts below a bound grow with the bound.
    pub proof fn lemma_count_monotone(self, p: Piece, m: int, n: int)
        requires
            m <= n,
        ensures
            self.count_piece_below(p, m) <= self.count_piece_below(p, n),
        decreases n - m,
    {
        if m < n {
            self.lemma_count_monotone(p, m, n - 1);
        }
    }

    /// A square holding the piece pushes the count above any bound past it.
    pub proof fn lemma_count_at_least_one(self, p: Piece, i: int, n: int)
        requires
            0 <= i < n,
            self.piece_at(i) == Some(p),
        ensures
            self.count_piece_below(p, n) >= 1,
    {
        self.lemma_count_monotone(p, i + 1, n);
    }

    /// Two distinct squares holding the piece push the count to two.
    pub proof fn lemma_count_at_least_two(self, p: Piece, i: int, j: int, n: int)
        requires
            0 <= i < j < n,
            self.piece_at(i) == Some(p),
            self.piece_at(j) == Some(p),
        ensures
            self.count_piece_below(p, n) >= 2,
    {
        self.lemma_count_at_least_one(p, i, j);
        self.lemma_count_monotone(p, j + 1, n);
    }

    /// With a count of one, the square holding the piece is unique.
    pub proof fn lemma_count_one_unique(self, p: Piece, i: int, j: int)
        requires
            self.count_piece(p) == 1,
            0 <= i < 64,
            0 <= j < 64,
            self.piece_at(i) == Some(p),
            self.piece_at(j) == Some(p),
        ensures
            i == j,
    {
        if i < j {
            self.lemma_count_at_least_two(p, i, j, 64);
        } else if j < i {
            self.lemma_count_at_least_two(p, j, i, 64);
        }
    }

    /// A count of at least one yields a square holding the piece.
    pub proof fn lemma_count_exists(self, p: Piece, n: int)
        requires
            self.count_piece_below(p, n) >= 1,
        ensures
            exists|j: int| 0 <= j < n && self.piece_at(j) == Some(p),
        decreases n,
    {
        if n > 0 {
            if self.piece_at(n - 1) == Some(p) {
                assert(0 <= n - 1 < n && self.piece_at(n - 1) == Some(p));
            } else {
                self.lemma_count_exists(p, n - 1);
            }
        }
    }

    /// A piece standing on exactly one square has a count of one.
    pub proof fn lemma_count_one_of_unique(self, p: Piece, i: int)
        requires
            0 <= i < 64,
            self.piece_at(i) == Some(p),
            forall|j: int| 0 <= j < 64 && j != i ==> self.piece_at(j) != Some(p),
        ensures
            self.count_piece(p) == 1,
    {
        self.lemma_count_unique_below(p, i, 64);
    }

    /// Below any bound, a piece standing on exactly one square counts once
    /// where the bound passes the square and not at all where it does not.
    proof fn lemma_count_unique_below(self, p: Piece, i: int, n: int)
        requires
            0 <= i < 64,
            n <= 64,
            self.piece_at(i) == Some(p),
            forall|j: int| 0 <= j < 64 && j != i ==> self.piece_at(j) != Some(p),
        ensures
            self.count_piece_below(p, n) == if i < n {
                1nat
            } else {
                0nat
            },
        decreases n,
    {
        if n > 0 {
            self.lemma_count_unique_below(p, i, n - 1);
        }
    }

    /// Where no square below the bound holds the piece, the count is zero.
    pub proof fn lemma_count_zero(self, p: Piece, n: int)
        requires
            forall|j: int| 0 <= j < n ==> self.piece_at(j) != Some(p),
        ensures
            self.count_piece_below(p, n) == 0,
        decreases n,
    {
        if n > 0 {
            self.lemma_count_zero(p, n - 1);
        }
    }

    /// Counts the squares holding the given piece.
    pub fn count_piece_on_board(&self, p: Piece) -> (r: u8)
        ensures
            r as nat == self.count_piece(p),
    {
        let mut c: u8 = 0;
        let mut i: u8 = 0;
        while i < 64
            invariant
                i <= 64,
                c as nat == self.count_piece_below(p, i as int),
                c <= i,
            decreases 64 - i,
        {
            let here = match self.piece_on(i) {
                Some(q) => q.piece_type.get_index() == p.piece_type.get_index() && matches!(
                    (q.color, p.color),
                    (Color::White, Color::White) | (Color::Black, Color::Black)
                ),
                None => false,
            };
            if here {
                c = c + 1;
            }
            i = i + 1;
        }
        c
    }

    /// Returns the en-passant target square, if any.
    pub fn get_ep(&self) -> (r: Option<Square>)
        ensures
            r == self.ep,
    {
        self.ep
    }

    /// Returns a square holding the given piece.
    pub fn find_piece(&self, p: Piece) -> (r: Square)
        requires
            self.count_piece(p) >= 1,
        ensures
            self.piece_at(r@) == Some(p),
    {
        let mut i: u8 = 0;
        while i < 64
            invariant
                i <= 64,
                self.count_piece(p) >= 1,
                forall|j: int| 0 <= j < i ==> self.piece_at(j) != Some(p),
            decreases 64 - i,
        {
            let found = match self.piece_on(i) {
                Some(q) => q.piece_type.get_index() == p.piece_type.get_index() && matches!(
                    (q.color, p.color),
                    (Color::White, Color::White) | (Color::Black, Color::Black)
                ),
                None => false,
            };
            if found {
                return Square::from_u8(i);
            }
            i = i + 1;
        }
        proof {
            self.lemma_count_zero(p, 64);
        }
        Square::from_u8(0)
    }

    /// Returns the square of the given side's king.
    pub fn find_king(&self, c: Color) -> (r: Square)
        requires
            self.wf(),
        ensures
            self.piece_at(r@) == Some(Piece { piece_type: PieceType::King, color: c }),
    {
        let king = Piece { piece_type: PieceType::King, color: c };
        let mut i: u8 = 0;
        while i < 64
            invariant
                i <= 64,
                self.wf(),
                forall|j: int|
                    0 <= j < i ==> self.piece_at(j) != Some(
                        Piece { piece_type: PieceType::King, color: c },
                    ),
            decreases 64 - i,
        {
            let found = match self.piece_on(i) {
                Some(q) => matches!(q.piece_type, PieceType::King) && matches!(
                    (q.color, c),
                    (Color::White, Color::White) | (Color::Black, Color::Black)
                ),
                None => false,
            };
            if found {
                return Square::from_u8(i);
            }
            i = i + 1;
        }
        proof {
            self.lemma_count_zero(Piece { piece_type: PieceType::King, color: c }, 64);
        }
        Square::from_u8(0)
    }
}

} // verus!
