use vstd::prelude::*;

use crate::attacks::{in_check, in_check_spec};
use crate::error::ChessError;
use crate::fen::{fen_error_spec, fen_string, parse_fen, parse_fen_spec, ser_fen_spec};
use crate::movegen::{
    all_legal_moves, all_legal_vec, find_match, find_move, has_any_legal, lemma_enumerated_legal,
    lemma_no_moves, matching_moves, remaining_moves, MoveGenerator,
};
use crate::moves::Move;
use crate::piece::{Color, Piece, PieceType};
use crate::position::Position;
use crate::rules::{apply_move, apply_move_spec, legal, legal_spec, lemma_apply_preserves_wf};
use crate::square::Square;
use crate::bitboard::{bb_has, lemma_bb_or_has};

verus! {

/// What a position together with its halfmove clock amounts to: play goes
/// on, or the game is over and why.
#[derive(Clone, Copy, Debug, PartialEq, Eq, PartialOrd, Structural)]
pub enum BoardStatus {
    /// Play goes on.
    Ongoing,
    /// The same position arose five times. Never reported: repetition
    /// tracking is a known limitation and always reports false.
    FiveFoldRepetition,
    /// The halfmove clock reached 150 plies with moves still available.
    SeventyFiveMoves,
    /// Neither side can ever deliver mate with the material left.
    InsufficientMaterial,
    /// The side to move has no legal move and is not in check.
    Stalemate,
    /// The side to move has no legal move and is in check.
    Checkmate,
}

/// Whether a move resets the halfmove clock: a pawn moves or a piece is
/// captured on the destination square.
pub open spec fn is_zeroing_spec(pos: Position, m: Move) -> bool {
    (match pos.piece_at(m.source@) {
        Some(p) => p.piece_type == PieceType::Pawn,
        None => false,
    }) || pos.piece_at(m.dest@) is Some
}

/// The number of squares below `n` holding a piece other than a king.
pub open spec fn count_nonking_below(pos: Position, n: int) -> nat
    decreases n,
{
    if n <= 0 {
        0
    } else {
        count_nonking_below(pos, n - 1) + (match pos.piece_at(n - 1) {
            Some(p) => if p.piece_type != PieceType::King {
                1nat
            } else {
                0nat
            },
            None => 0nat,
        })
    }
}

/// The number of squares below `n` holding a knight or a bishop.
pub open spec fn count_minor_below(pos: Position, n: int) -> nat
    decreases n,
{
    if n <= 0 {
        0
    } else {
        count_minor_below(pos, n - 1) + (match pos.piece_at(n - 1) {
            Some(p) => if p.piece_type == PieceType::Knight || p.piece_type == PieceType::Bishop {
                1nat
            } else {
                0nat
            },
            None => 0nat,
        })
    }
}

/// Whether two squares have the same color on the board.
pub open spec fn same_square_color(i: int, j: int) -> bool {
    (i % 8 % 2 == i / 8 % 2) == (j % 8 % 2 == j / 8 % 2)
}

/// Whether the material can never deliver mate, kings set aside: bare
/// kings; one lone knight or bishop; or one bishop each on squares of one
/// color.
pub open spec fn insufficient_material_spec(pos: Position) -> bool {
    let nk = count_nonking_below(pos, 64);
    ||| nk == 0
    ||| (nk == 1 && count_minor_below(pos, 64) == 1)
    ||| (nk == 2 && pos.count_piece(Piece { piece_type: PieceType::Bishop, color: Color::White })
        == 1 && pos.count_piece(Piece { piece_type: PieceType::Bishop, color: Color::Black }) == 1
        && (exists|i: int, j: int|
        0 <= i < 64 && 0 <= j < 64 && pos.piece_at(i) == Some(
            Piece { piece_type: PieceType::Bishop, color: Color::White },
        ) && pos.piece_at(j) == Some(
            Piece { piece_type: PieceType::Bishop, color: Color::Black },
        ) && same_square_color(i, j)))
}

/// The status of a position with its halfmove clock, first match wins: no
/// legal move means mate or stalemate; then insufficient material; then
/// the 150-ply rule; five-fold repetition is never detected (a preserved
/// limitation); else play goes on.
pub open spec fn board_status_spec(pos: Position, halfmove: int) -> BoardStatus {
    if !has_any_legal(pos) {
        if in_check_spec(pos, pos.side) {
            BoardStatus::Checkmate
        } else {
            BoardStatus::Stalemate
        }
    } else if insufficient_material_spec(pos) {
        BoardStatus::InsufficientMaterial
    } else if halfmove >= 150 {
        BoardStatus::SeventyFiveMoves
    } else {
        BoardStatus::Ongoing
    }
}

/// The piece standing on a square when a game begins.
pub open spec fn start_cell_spec(sq: int) -> Option<Piece> {
    let r = sq / 8;
    let f = sq % 8;
    if r == 1 {
        Some(Piece { piece_type: PieceType::Pawn, color: Color::White })
    } else if r == 6 {
        Some(Piece { piece_type: PieceType::Pawn, color: Color::Black })
    } else if r == 0 {
        Some(Piece { piece_type: back_rank_type(f), color: Color::White })
    } else if r == 7 {
        Some(Piece { piece_type: back_rank_type(f), color: Color::Black })
    } else {
        None
    }
}

/// The kind standing on a back-rank file when a game begins.
pub open spec fn back_rank_type(f: int) -> PieceType {
    if f == 0 || f == 7 {
        PieceType::Rook
    } else if f == 1 || f == 6 {
        PieceType::Knight
    } else if f == 2 || f == 5 {
        PieceType::Bishop
    } else if f == 3 {
        PieceType::Queen
    } else {
        PieceType::King
    }
}

/// Returns the piece standing on a square when a game begins.
fn start_cell(sq: u8) -> (r: Option<Piece>)
    requires
        sq < 64,
    ensures
        r == start_cell_spec(sq as int),
{
    let rank = sq / 8;
    let f = sq % 8;
    if rank == 1 {
        Some(Piece { piece_type: PieceType::Pawn, color: Color::White })
    } else if rank == 6 {
        Some(Piece { piece_type: PieceType::Pawn, color: Color::Black })
    } else if rank == 0 || rank == 7 {
        let pt = if f == 0 || f == 7 {
            PieceType::Rook
        } else if f == 1 || f == 6 {
            PieceType::Knight
        } else if f == 2 || f == 5 {
            PieceType::Bishop
        } else if f == 3 {
            PieceType::Queen
        } else {
            PieceType::King
        };
        let color = if rank == 0 {
            Color::White
        } else {
            Color::Black
        };
        Some(Piece { piece_type: pt, color })
    } else {
        None
    }
}

/// The state of a game: the position, the halfmove clock, the fullmove
/// number, and the move generator for the position. Applying a move
/// produces the same position and counters whether it replaces the board
/// in place or yields a fresh board. The board owns its one generator, so
/// every caller that iterates, removes or resets moves through the board
/// observes the same exhaustion state.
pub struct Board {
    /// The position proper.
    pub pos: Position,
    /// Plies since the last pawn move or capture.
    pub halfmove_clock: u8,
    /// The move count, starting at 1, raised after each Black move.
    pub fullmove_number: u8,
    /// The pending legal moves of `pos`.
    pub gen: MoveGenerator,
}

impl Board {
    /// A board is well formed when its position is and every pending
    /// generator move is legal in it.
    pub open spec fn wf(self) -> bool {
        &&& self.pos.wf()
        &&& forall|i: int|
            0 <= i < self.gen.moves@.len() ==> legal_spec(self.pos, self.gen.moves@[i])
    }

    /// Builds the starting position, with its full castling rights, White
    /// to move, and both counters fresh.
    pub fn new() -> (r: Board)
        ensures
            r.wf(),
            forall|sq: int| 0 <= sq < 64 ==> r.pos.piece_at(sq) == start_cell_spec(sq),
            r.pos.side == Color::White,
            r.pos.castle_wk && r.pos.castle_wq && r.pos.castle_bk && r.pos.castle_bq,
            r.pos.ep is None,
            r.halfmove_clock == 0,
            r.fullmove_number == 1,
            r.gen.moves@ == all_legal_moves(r.pos),
            r.gen.mask == 0xffff_ffff_ffff_ffffu64,
    {
        let mut pos = Position::empty();
        pos.castle_wk = true;
        pos.castle_wq = true;
        pos.castle_bk = true;
        pos.castle_bq = true;
        let ghost base = pos;
        let ghost cells = Seq::new(64, |sq: int| start_cell_spec(sq));
        let mut sq: u8 = 0;
        while sq < 64
            invariant
                sq <= 64,
                cells == Seq::new(64, |s: int| start_cell_spec(s)),
                pos == crate::fen::place_cells(base, cells, sq as int),
            decreases 64 - sq,
        {
            match start_cell(sq) {
                Some(p) => {
                    pos.put_piece(sq, p);
                },
                None => {},
            }
            sq = sq + 1;
        }
        proof {
            assert forall|j: int| 0 <= j < 64 implies pos.piece_at(j) == start_cell_spec(j) by {
                crate::fen::lemma_place_cells(base, cells, 64, j);
                Position::lemma_empty_piece_at(j);
                assert(base.piece_at(j) == Position::empty_spec().piece_at(j));
            }
            crate::fen::lemma_place_cells_fields(base, cells, 64);
            let wking = Piece { piece_type: PieceType::King, color: Color::White };
            let bking = Piece { piece_type: PieceType::King, color: Color::Black };
            assert(pos.piece_at(4) == start_cell_spec(4));
            assert(pos.piece_at(60) == start_cell_spec(60));
            assert(pos.piece_at(4) == Some(wking));
            assert forall|j: int| 0 <= j < 64 && j != 4 implies pos.piece_at(j) != Some(wking) by {
                assert(pos.piece_at(j) == start_cell_spec(j));
            }
            pos.lemma_count_one_of_unique(wking, 4);
            assert(pos.piece_at(60) == Some(bking));
            assert forall|j: int| 0 <= j < 64 && j != 60 implies pos.piece_at(j) != Some(
                bking,
            ) by {
                assert(pos.piece_at(j) == start_cell_spec(j));
            }
            pos.lemma_count_one_of_unique(bking, 60);
        }
        let gen = MoveGenerator::new_legal(&pos);
        let r = Board { pos, halfmove_clock: 0, fullmove_number: 1, gen };
        proof {
            assert forall|i: int| 0 <= i < r.gen.moves@.len() implies legal_spec(
                r.pos,
                r.gen.moves@[i],
            ) by {
                lemma_enumerated_legal(r.pos, crate::movegen::move_code_count(), i);
            }
        }
        r
    }

    /// Builds the board a FEN string describes; rejects an ill-formed
    /// string and reports its first failure.
    pub fn from_fen(fen: &str) -> (r: Result<Board, ChessError>)
        ensures
            parse_fen_spec(fen@) matches Some(t) ==> (r matches Ok(b) && b.pos == t.0
                && b.halfmove_clock == t.1 && b.fullmove_number == t.2 && b.gen.moves@
                == all_legal_moves(t.0) && b.gen.mask == 0xffff_ffff_ffff_ffffu64 && b.wf()),
            parse_fen_spec(fen@) is None ==> r == Err::<Board, ChessError>(fen_error_spec(fen@)),
    {
        match parse_fen(fen) {
            Ok((pos, halfmove_clock, fullmove_number)) => {
                let gen = MoveGenerator::new_legal(&pos);
                let b = Board { pos, halfmove_clock, fullmove_number, gen };
                proof {
                    assert forall|i: int| 0 <= i < b.gen.moves@.len() implies legal_spec(
                        b.pos,
                        b.gen.moves@[i],
                    ) by {
                        lemma_enumerated_legal(b.pos, crate::movegen::move_code_count(), i);
                    }
                }
                Ok(b)
            },
            Err(e) => Err(e),
        }
    }

    /// Returns the FEN string of the board: the position's four fields
    /// with the two counters the board tracks spliced in behind them.
    pub fn get_fen(&self) -> (r: String)
        ensures
            r@ == ser_fen_spec(self.pos, self.halfmove_clock as int, self.fullmove_number as int),
    {
        fen_string(&self.pos, self.halfmove_clock, self.fullmove_number)
    }

    /// Returns the side to move.
    pub fn get_turn(&self) -> (r: Color)
        ensures
            r == self.pos.side,
    {
        self.pos.side
    }

    /// Returns the en-passant target square, if any.
    pub fn get_en_passant(&self) -> (r: Option<Square>)
        ensures
            r == self.pos.ep,
    {
        self.pos.get_ep()
    }

    /// Returns the kind of the piece on a square, if any.
    pub fn get_piece_type_on(&self, square: Square) -> (r: Option<PieceType>)
        ensures
            r == (match self.pos.piece_at(square@) {
                Some(p) => Some(p.piece_type),
                None => None::<PieceType>,
            }),
    {
        match self.pos.piece_on(square.get_index()) {
            Some(p) => Some(p.piece_type),
            None => None,
        }
    }

    /// Returns the color of the piece on a square, if any.
    pub fn get_color_on(&self, square: Square) -> (r: Option<Color>)
        ensures
            r == (match self.pos.piece_at(square@) {
                Some(p) => Some(p.color),
                None => None::<Color>,
            }),
    {
        match self.pos.piece_on(square.get_index()) {
            Some(p) => Some(p.color),
            None => None,
        }
    }

    /// Returns the piece on a square, color included, if any.
    pub fn get_piece_on(&self, square: Square) -> (r: Option<Piece>)
        ensures
            r == self.pos.piece_at(square@),
    {
        self.pos.piece_on(square.get_index())
    }

    /// Reports whether a move would reset the halfmove clock: a pawn moves
    /// or a piece is captured. Legality is not checked.
    pub fn is_zeroing(&self, chess_move: Move) -> (r: bool)
        ensures
            r == is_zeroing_spec(self.pos, chess_move),
    {
        let src_pawn = match self.pos.piece_on(chess_move.source.get_index()) {
            Some(p) => matches!(p.piece_type, PieceType::Pawn),
            None => false,
        };
        src_pawn || self.pos.piece_on(chess_move.dest.get_index()).is_some()
    }

    /// Reports whether a move is legal on this board: the full check, for
    /// moves that did not come from the generator.
    pub fn is_legal_move(&self, chess_move: Move) -> (r: bool)
        requires
            self.wf(),
        ensures
            r == legal_spec(self.pos, chess_move),
    {
        legal(&self.pos, &chess_move)
    }

    /// The halfmove clock after a move: zero after a zeroing move, one
    /// more otherwise.
    pub open spec fn next_halfmove(self, m: Move) -> int {
        if is_zeroing_spec(self.pos, m) {
            0
        } else {
            self.halfmove_clock + 1
        }
    }

    /// The fullmove number after a move: one more after Black moved.
    pub open spec fn next_fullmove(self, m: Move) -> int {
        if self.pos.side == Color::Black {
            self.fullmove_number + 1
        } else {
            self.fullmove_number as int
        }
    }

    /// What a completed move application yields: the position after the
    /// move with both counters stepped, and the generator rebuilt for the
    /// new position.
    pub open spec fn moved_board_spec(self, m: Move, b: Board) -> bool {
        &&& b.pos == apply_move_spec(self.pos, m)
        &&& b.halfmove_clock as int == self.next_halfmove(m)
        &&& b.fullmove_number as int == self.next_fullmove(m)
        &&& b.gen.moves@ == all_legal_moves(b.pos)
        &&& b.gen.mask == 0xffff_ffff_ffff_ffffu64
        &&& b.wf()
    }

    /// Applies a move and returns the resulting board, leaving this one
    /// untouched. With `check_legality` the move is first checked and an
    /// illegal move is rejected; without it the caller must pass a legal
    /// move, as the generator yields them.
    pub fn make_move_new(&self, chess_move: Move, check_legality: bool) -> (r: Result<
        Board,
        ChessError,
    >)
        requires
            self.wf(),
            !check_legality ==> legal_spec(self.pos, chess_move),
            is_zeroing_spec(self.pos, chess_move) || self.halfmove_clock < 255,
            self.pos.side == Color::Black ==> self.fullmove_number < 255,
        ensures
            legal_spec(self.pos, chess_move) ==> (r matches Ok(b) && self.moved_board_spec(
                chess_move,
                b,
            )),
            !legal_spec(self.pos, chess_move) ==> r == Err::<Board, ChessError>(
                ChessError::IllegalMove,
            ),
    {
        if check_legality && !legal(&self.pos, &chess_move) {
            return Err(ChessError::IllegalMove);
        }
        let zeroing = self.is_zeroing(chess_move);
        let new_pos = apply_move(&self.pos, &chess_move);
        proof {
            lemma_apply_preserves_wf(self.pos, chess_move);
        }
        let halfmove_clock: u8 = if zeroing {
            0
        } else {
            self.halfmove_clock + 1
        };
        let fullmove_number: u8 = match self.pos.side {
            Color::Black => self.fullmove_number + 1,
            Color::White => self.fullmove_number,
        };
        let gen = MoveGenerator::new_legal(&new_pos);
        let b = Board { pos: new_pos, halfmove_clock, fullmove_number, gen };
        proof {
            assert forall|i: int| 0 <= i < b.gen.moves@.len() implies legal_spec(
                b.pos,
                b.gen.moves@[i],
            ) by {
                lemma_enumerated_legal(b.pos, crate::movegen::move_code_count(), i);
            }
        }
        Ok(b)
    }

    /// Applies a move to this board in place: the same transition as
    /// `make_move_new`, and a rejected move leaves the board exactly as it
    /// was.
    pub fn make_move(&mut self, chess_move: Move, check_legality: bool) -> (r: Result<
        (),
        ChessError,
    >)
        requires
            old(self).wf(),
            !check_legality ==> legal_spec(old(self).pos, chess_move),
            is_zeroing_spec(old(self).pos, chess_move) || old(self).halfmove_clock < 255,
            old(self).pos.side == Color::Black ==> old(self).fullmove_number < 255,
        ensures
            legal_spec(old(self).pos, chess_move) ==> (r == Ok::<(), ChessError>(())
                && old(self).moved_board_spec(chess_move, *final(self))),
            !legal_spec(old(self).pos, chess_move) ==> (r == Err::<(), ChessError>(
                ChessError::IllegalMove,
            ) && *final(self) == *old(self)),
    {
        match self.make_move_new(chess_move, check_legality) {
            Ok(b) => {
                *self = b;
                Ok(())
            },
            Err(e) => Err(e),
        }
    }

    /// Removes a move from the pending generator moves, so it is not
    /// yielded again.
    pub fn remove_move(&mut self, chess_move: Move)
        requires
            old(self).wf(),
        ensures
            final(self).pos == old(self).pos,
            final(self).halfmove_clock == old(self).halfmove_clock,
            final(self).fullmove_number == old(self).fullmove_number,
            final(self).gen.mask == old(self).gen.mask,
            find_move(old(self).gen.moves@, chess_move) < 0 ==> final(self).gen.moves@
                == old(self).gen.moves@,
            find_move(old(self).gen.moves@, chess_move) >= 0 ==> final(self).gen.moves@
                == old(self).gen.moves@.remove(find_move(old(self).gen.moves@, chess_move)),
            final(self).wf(),
    {
        let ghost ms = self.gen.moves@;
        self.gen.remove_move(chess_move);
        proof {
            if find_move(ms, chess_move) >= 0 {
                let k = find_move(ms, chess_move);
                crate::movegen::lemma_find_move_bounds(ms, chess_move);
                assert forall|i: int| 0 <= i < self.gen.moves@.len() implies legal_spec(
                    self.pos,
                    self.gen.moves@[i],
                ) by {
                    assert(self.gen.moves@[i] == if i < k {
                        ms[i]
                    } else {
                        ms[i + 1]
                    });
                }
            }
        }
    }

    /// Rebuilds the move generator for the current position, with the mask
    /// admitting every square.
    pub fn reset_move_generator(&mut self)
        requires
            old(self).wf(),
        ensures
            final(self).pos == old(self).pos,
            final(self).halfmove_clock == old(self).halfmove_clock,
            final(self).fullmove_number == old(self).fullmove_number,
            final(self).gen.moves@ == all_legal_moves(old(self).pos),
            final(self).gen.mask == 0xffff_ffff_ffff_ffffu64,
            final(self).wf(),
    {
        self.gen = MoveGenerator::new_legal(&self.pos);
        proof {
            assert forall|i: int| 0 <= i < self.gen.moves@.len() implies legal_spec(
                self.pos,
                self.gen.moves@[i],
            ) by {
                lemma_enumerated_legal(self.pos, crate::movegen::move_code_count(), i);
            }
        }
    }

    /// Yields the next pending generator move whose destination the mask
    /// admits, removing it, or nothing when none is left. Every yielded
    /// move is legal.
    pub fn next_move(&mut self) -> (r: Option<Move>)
        requires
            old(self).wf(),
        ensures
            final(self).pos == old(self).pos,
            final(self).halfmove_clock == old(self).halfmove_clock,
            final(self).fullmove_number == old(self).fullmove_number,
            final(self).gen.mask == old(self).gen.mask,
            find_match(old(self).gen.moves@, old(self).gen.mask) < 0 ==> (r is None
                && final(self).gen.moves@ == old(self).gen.moves@),
            find_match(old(self).gen.moves@, old(self).gen.mask) >= 0 ==> (r == Some(
                old(self).gen.moves@[find_match(old(self).gen.moves@, old(self).gen.mask)],
            ) && final(self).gen.moves@ == old(self).gen.moves@.remove(
                find_match(old(self).gen.moves@, old(self).gen.mask),
            )),
            r matches Some(m) ==> legal_spec(old(self).pos, m),
            final(self).wf(),
    {
        let ghost ms = self.gen.moves@;
        let r = self.gen.next();
        proof {
            if find_match(ms, old(self).gen.mask) >= 0 {
                let k = find_match(ms, old(self).gen.mask);
                crate::movegen::lemma_find_match_bounds(ms, old(self).gen.mask);
                assert forall|i: int| 0 <= i < self.gen.moves@.len() implies legal_spec(
                    self.pos,
                    self.gen.moves@[i],
                ) by {
                    assert(self.gen.moves@[i] == if i < k {
                        ms[i]
                    } else {
                        ms[i + 1]
                    });
                }
            }
        }
        r
    }

    /// Restricts the generator to every square and yields all its pending
    /// moves in order, leaving it exhausted until a move is made or it is
    /// reset. On a fresh or reset board this is every legal move of the
    /// position.
    pub fn generate_legal_moves(&mut self) -> (r: Vec<Move>)
        requires
            old(self).wf(),
        ensures
            final(self).pos == old(self).pos,
            final(self).halfmove_clock == old(self).halfmove_clock,
            final(self).fullmove_number == old(self).fullmove_number,
            r@ == matching_moves(old(self).gen.moves@, 0xffff_ffff_ffff_ffffu64),
            final(self).gen.moves@ == remaining_moves(
                old(self).gen.moves@,
                0xffff_ffff_ffff_ffffu64,
            ),
            final(self).gen.mask == 0xffff_ffff_ffff_ffffu64,
            forall|i: int| 0 <= i < r@.len() ==> legal_spec(old(self).pos, r@[i]),
            final(self).wf(),
    {
        self.gen.set_mask(0xffff_ffff_ffff_ffff);
        let ghost ms = self.gen.moves@;
        let r = self.gen.drain_matching();
        proof {
            crate::movegen::lemma_split_legal(self.pos, ms, 0xffff_ffff_ffff_ffffu64);
        }
        r
    }

    /// Restricts the generator to the squares the other side occupies and
    /// yields the pending capturing moves in order; quieter moves stay
    /// pending. On a fresh or reset board this is every legal capture of
    /// the position.
    pub fn generate_legal_captures(&mut self) -> (r: Vec<Move>)
        requires
            old(self).wf(),
        ensures
            final(self).pos == old(self).pos,
            final(self).halfmove_clock == old(self).halfmove_clock,
            final(self).fullmove_number == old(self).fullmove_number,
            final(self).gen.mask == old(self).pos.color_bb(old(self).pos.side.flip_spec()),
            forall|j: int|
                0 <= j < 64 ==> (old(self).pos.color_occupies(old(self).pos.side.flip_spec(), j)
                    ==> bb_has(final(self).gen.mask, j)),
            forall|j: int|
                0 <= j < 64 ==> (bb_has(final(self).gen.mask, j) ==> old(self).pos.occupied(j)),
            r@ == matching_moves(old(self).gen.moves@, final(self).gen.mask),
            final(self).gen.moves@ == remaining_moves(old(self).gen.moves@, final(self).gen.mask),
            forall|i: int| 0 <= i < r@.len() ==> legal_spec(old(self).pos, r@[i]),
            final(self).wf(),
    {
        let enemy_occ: u64 = match self.pos.side {
            Color::White => self.pos.bp | self.pos.bn | self.pos.bb | self.pos.br | self.pos.bq
                | self.pos.bk,
            Color::Black => self.pos.wp | self.pos.wn | self.pos.wb | self.pos.wr | self.pos.wq
                | self.pos.wk,
        };
        proof {
            let pos = self.pos;
            assert forall|j: int|
                0 <= j < 64 implies ((pos.color_occupies(pos.side.flip_spec(), j) ==> bb_has(
                    enemy_occ,
                    j,
                )) && (bb_has(enemy_occ, j) ==> pos.occupied(j))) by {
                lemma_bb_or_has(pos.bp | pos.bn | pos.bb | pos.br | pos.bq, pos.bk, j);
                lemma_bb_or_has(pos.bp | pos.bn | pos.bb | pos.br, pos.bq, j);
                lemma_bb_or_has(pos.bp | pos.bn | pos.bb, pos.br, j);
                lemma_bb_or_has(pos.bp | pos.bn, pos.bb, j);
                lemma_bb_or_has(pos.bp, pos.bn, j);
                lemma_bb_or_has(pos.wp | pos.wn | pos.wb | pos.wr | pos.wq, pos.wk, j);
                lemma_bb_or_has(pos.wp | pos.wn | pos.wb | pos.wr, pos.wq, j);
                lemma_bb_or_has(pos.wp | pos.wn | pos.wb, pos.wr, j);
                lemma_bb_or_has(pos.wp | pos.wn, pos.wb, j);
                lemma_bb_or_has(pos.wp, pos.wn, j);
            }
        }
        self.gen.set_mask(enemy_occ);
        let ghost ms = self.gen.moves@;
        let r = self.gen.drain_matching();
        proof {
            crate::movegen::lemma_split_legal(self.pos, ms, enemy_occ);
        }
        r
    }

    /// Reports whether the side to move is in check.
    pub fn is_check(&self) -> (r: bool)
        requires
            self.wf(),
        ensures
            r == in_check_spec(self.pos, self.pos.side),
    {
        in_check(&self.pos, self.pos.side)
    }

    /// Reports whether any legal move exists.
    fn has_legal_move(&self) -> (r: bool)
        requires
            self.wf(),
        ensures
            r == has_any_legal(self.pos),
    {
        let moves = all_legal_vec(&self.pos);
        if moves.len() > 0 {
            proof {
                lemma_enumerated_legal(self.pos, crate::movegen::move_code_count(), 0);
            }
            true
        } else {
            proof {
                lemma_no_moves(self.pos);
            }
            false
        }
    }

    /// Reports whether the side to move has no legal move while not in
    /// check.
    pub fn is_stalemate(&self) -> (r: bool)
        requires
            self.wf(),
        ensures
            r == (!has_any_legal(self.pos) && !in_check_spec(self.pos, self.pos.side)),
    {
        !self.has_legal_move() && !self.is_check()
    }

    /// Reports whether the side to move has no legal move while in check.
    pub fn is_checkmate(&self) -> (r: bool)
        requires
            self.wf(),
        ensures
            r == (!has_any_legal(self.pos) && in_check_spec(self.pos, self.pos.side)),
    {
        !self.has_legal_move() && self.is_check()
    }

    /// Reports whether the material on the board can never deliver mate.
    pub fn is_insufficient_material(&self) -> (r: bool)
        ensures
            r == insufficient_material_spec(self.pos),
    {
        let pos = &self.pos;
        let mut nonking: u8 = 0;
        let mut minors: u8 = 0;
        let mut i: u8 = 0;
        while i < 64
            invariant
                i <= 64,
                nonking as nat == count_nonking_below(self.pos, i as int),
                minors as nat == count_minor_below(self.pos, i as int),
                nonking <= i,
                minors <= i,
            decreases 64 - i,
        {
            match self.pos.piece_on(i) {
                Some(p) => {
                    match p.piece_type {
                        PieceType::King => {},
                        PieceType::Knight | PieceType::Bishop => {
                            nonking = nonking + 1;
                            minors = minors + 1;
                        },
                        _ => {
                            nonking = nonking + 1;
                        },
                    }
                },
                None => {},
            }
            i = i + 1;
        }
        if nonking == 0 {
            return true;
        }
        if nonking == 1 && minors == 1 {
            return true;
        }
        let wbishop = Piece { piece_type: PieceType::Bishop, color: Color::White };
        let bbishop = Piece { piece_type: PieceType::Bishop, color: Color::Black };
        if nonking == 2 && pos.count_piece_on_board(wbishop) == 1 && pos.count_piece_on_board(
            bbishop,
        ) == 1 {
            let wb_sq = pos.find_piece(wbishop);
            let bb_sq = pos.find_piece(bbishop);
            let same = (wb_sq.get_file() % 2 == wb_sq.get_rank() % 2) == (bb_sq.get_file() % 2
                == bb_sq.get_rank() % 2);
            proof {
                if same {
                    assert(same_square_color(wb_sq@, bb_sq@));
                    assert(insufficient_material_spec(self.pos));
                } else {
                    if insufficient_material_spec(self.pos) {
                        let (i2, j2) = choose|i2: int, j2: int|
                            0 <= i2 < 64 && 0 <= j2 < 64 && self.pos.piece_at(i2) == Some(wbishop)
                                && self.pos.piece_at(j2) == Some(bbishop) && same_square_color(
                                i2,
                                j2,
                            );
                        self.pos.lemma_count_one_unique(wbishop, i2, wb_sq@);
                        self.pos.lemma_count_one_unique(bbishop, j2, bb_sq@);
                    }
                }
            }
            return same;
        }
        proof {
            if insufficient_material_spec(self.pos) {
                assert(nonking as nat == count_nonking_below(self.pos, 64));
            }
        }
        false
    }

    /// Reports whether the halfmove clock has reached the 100-ply warning
    /// threshold with moves still available: an advisory flag, not a
    /// terminal status.
    pub fn is_fifty_moves(&self) -> (r: bool)
        requires
            self.wf(),
        ensures
            r == (self.halfmove_clock >= 100 && has_any_legal(self.pos)),
    {
        self.halfmove_clock >= 100 && self.has_legal_move()
    }

    /// Reports whether the halfmove clock has reached the 150-ply forced
    /// threshold with moves still available.
    pub fn is_seventy_five_moves(&self) -> (r: bool)
        requires
            self.wf(),
        ensures
            r == (self.halfmove_clock >= 150 && has_any_legal(self.pos)),
    {
        self.halfmove_clock >= 150 && self.has_legal_move()
    }

    /// Reports whether the same position arose five times. Repetition
    /// tracking is a preserved limitation: this always reports false.
    pub fn is_fivefold_repetition(&self) -> (r: bool)
        ensures
            r == false,
    {
        false
    }

    /// Classifies the board: checkmate or stalemate when no legal move is
    /// left, else insufficient material, the 150-ply rule, or ongoing
    /// play, in that order.
    pub fn get_status(&self) -> (r: BoardStatus)
        requires
            self.wf(),
        ensures
            r == board_status_spec(self.pos, self.halfmove_clock as int),
    {
        if !self.has_legal_move() {
            if self.is_check() {
                BoardStatus::Checkmate
            } else {
                BoardStatus::Stalemate
            }
        } else if self.is_insufficient_material() {
            BoardStatus::InsufficientMaterial
        } else if self.halfmove_clock >= 150 {
            BoardStatus::SeventyFiveMoves
        } else {
            BoardStatus::Ongoing
        }
    }
}

} // verus!
