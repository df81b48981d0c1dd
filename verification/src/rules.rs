use vstd::prelude::*;

use crate::attacks::{
    attacks, bishop_line, clear_path, forward, iabs, in_check, in_check_spec, king_step,
    knight_jump, pawn_attack, rook_line, sq_file, sq_rank, square_attacked, square_attacked_spec,
};
use crate::moves::Move;
use crate::piece::{Color, Piece, PieceType};
use crate::position::Position;
use crate::square::Square;

verus! {

/// The rank a side's pawns start on.
pub open spec fn start_rank(c: Color) -> int {
    match c {
        Color::White => 1,
        Color::Black => 6,
    }
}

/// The rank a side's pawns promote on.
pub open spec fn last_rank(c: Color) -> int {
    match c {
        Color::White => 7,
        Color::Black => 0,
    }
}

/// Whether a kind is one a pawn may promote to.
pub open spec fn is_promo_kind(pt: PieceType) -> bool {
    pt == PieceType::Knight || pt == PieceType::Bishop || pt == PieceType::Rook || pt
        == PieceType::Queen
}

/// Whether the promotion field fits the destination: a pawn reaching the far
/// rank must name a promotion kind, and no other pawn move may.
pub open spec fn promo_ok(c: Color, to: int, promo: Option<PieceType>) -> bool {
    if sq_rank(to) == last_rank(c) {
        match promo {
            Some(pt) => is_promo_kind(pt),
            None => false,
        }
    } else {
        promo is None
    }
}

/// Whether moving a pawn of color `c` from `from` to `to` takes a pawn en
/// passant: the destination is the en-passant target, the capture moves
/// diagonally forward onto an empty square, and the skipped-over square
/// holds the enemy pawn to take.
pub open spec fn ep_capture_spec(pos: Position, c: Color, from: int, to: int) -> bool {
    &&& match pos.ep {
        Some(t) => t@ == to,
        None => false,
    }
    &&& pawn_attack(c, from, to)
    &&& pos.piece_at(to) is None
    &&& pos.piece_at(to - 8 * forward(c)) == Some(
        Piece { piece_type: PieceType::Pawn, color: c.flip_spec() },
    )
}

/// Whether a pawn of color `c` may move from `from` to `to`: a single push
/// onto an empty square, a double push from the start rank over an empty
/// square, a diagonal capture of an enemy piece, or an en-passant capture.
pub open spec fn pawn_move_ok(pos: Position, c: Color, from: int, to: int) -> bool {
    let d = forward(c);
    ||| (to == from + 8 * d && pos.piece_at(to) is None)
    ||| (sq_rank(from) == start_rank(c) && to == from + 16 * d && pos.piece_at(from + 8 * d)
        is None && pos.piece_at(to) is None)
    ||| (pawn_attack(c, from, to) && (match pos.piece_at(to) {
        Some(q) => q.color != c,
        None => false,
    }))
    ||| ep_capture_spec(pos, c, from, to)
}

/// Whether the move from `from` to `to` castles: the right is still held,
/// the king and the rook stand on their home squares, the squares between
/// them are empty, and neither the king's square nor the two squares it
/// crosses is attacked.
pub open spec fn castle_move_spec(pos: Position, c: Color, from: int, to: int) -> bool {
    let home: int = match c {
        Color::White => 4,
        Color::Black => 60,
    };
    let enemy = c.flip_spec();
    &&& from == home
    &&& {
        ||| (to == home + 2 && (match c {
            Color::White => pos.castle_wk,
            Color::Black => pos.castle_bk,
        }) && pos.piece_at(home + 3) == Some(Piece { piece_type: PieceType::Rook, color: c })
            && pos.piece_at(home + 1) is None && pos.piece_at(home + 2) is None
            && !square_attacked_spec(pos, home, enemy) && !square_attacked_spec(
            pos,
            home + 1,
            enemy,
        ) && !square_attacked_spec(pos, home + 2, enemy))
        ||| (to == home - 2 && (match c {
            Color::White => pos.castle_wq,
            Color::Black => pos.castle_bq,
        }) && pos.piece_at(home - 4) == Some(Piece { piece_type: PieceType::Rook, color: c })
            && pos.piece_at(home - 1) is None && pos.piece_at(home - 2) is None && pos.piece_at(
            home - 3,
        ) is None && !square_attacked_spec(pos, home, enemy) && !square_attacked_spec(
            pos,
            home - 1,
            enemy,
        ) && !square_attacked_spec(pos, home - 2, enemy))
    }
}

/// Whether a move follows the movement rules in a position: the moved piece
/// belongs to the side to move, the destination does not hold a friendly
/// piece and never a king, and the piece moves by its pattern. Whether the
/// mover's king is left attacked is checked separately.
pub open spec fn pseudo_legal_spec(pos: Position, m: Move) -> bool {
    let from = m.source@;
    let to = m.dest@;
    &&& 0 <= from < 64
    &&& 0 <= to < 64
    &&& from != to
    &&& match pos.piece_at(from) {
        None => false,
        Some(p) => {
            &&& p.color == pos.side
            &&& match pos.piece_at(to) {
                Some(q) => q.color != pos.side && q.piece_type != PieceType::King,
                None => true,
            }
            &&& match p.piece_type {
                PieceType::Pawn => pawn_move_ok(pos, p.color, from, to) && promo_ok(
                    p.color,
                    to,
                    m.promotion,
                ),
                PieceType::Knight => knight_jump(from, to) && m.promotion is None,
                PieceType::Bishop => bishop_line(from, to) && clear_path(pos, from, to)
                    && m.promotion is None,
                PieceType::Rook => rook_line(from, to) && clear_path(pos, from, to)
                    && m.promotion is None,
                PieceType::Queen => (bishop_line(from, to) || rook_line(from, to)) && clear_path(
                    pos,
                    from,
                    to,
                ) && m.promotion is None,
                PieceType::King => (king_step(from, to) || castle_move_spec(
                    pos,
                    p.color,
                    from,
                    to,
                )) && m.promotion is None,
            }
        },
    }
}

/// The piece set down on the destination: the promotion kind for a
/// promoting pawn, the moved piece otherwise.
pub open spec fn placed_piece(p: Piece, promo: Option<PieceType>) -> Piece {
    if p.piece_type == PieceType::Pawn && promo is Some {
        Piece { piece_type: promo->Some_0, color: p.color }
    } else {
        p
    }
}

/// Whether applying the move takes a pawn en passant: the moved piece is a
/// pawn stepping diagonally onto the empty en-passant target.
pub open spec fn ep_trigger(pos: Position, p: Piece, from: int, to: int) -> bool {
    &&& p.piece_type == PieceType::Pawn
    &&& match pos.ep {
        Some(t) => t@ == to,
        None => false,
    }
    &&& pos.piece_at(to) is None
    &&& iabs(sq_file(to) - sq_file(from)) == 1
}

/// Whether applying the move castles king-side.
pub open spec fn castle_k_trigger(p: Piece, from: int, to: int) -> bool {
    p.piece_type == PieceType::King && (from == 4 || from == 60) && to == from + 2
}

/// Whether applying the move castles queen-side.
pub open spec fn castle_q_trigger(p: Piece, from: int, to: int) -> bool {
    p.piece_type == PieceType::King && (from == 4 || from == 60) && to == from - 2
}

/// The position after a move is applied: the moved piece (or its promotion)
/// replaces whatever stood on the destination, the source empties, an
/// en-passant capture or castling also moves its second square or rook, the
/// castling rights drop with any move of or onto a king or rook home
/// square, the en-passant target is set by a double pawn push and cleared
/// otherwise, and the turn passes. The move is not judged here: this is the
/// total transition the legality check itself builds on.
pub open spec fn apply_move_spec(pos: Position, m: Move) -> Position {
    let from = m.source@;
    let to = m.dest@;
    match pos.piece_at(from) {
        None => Position { side: pos.side.flip_spec(), ep: None, ..pos },
        Some(p) => {
            let placed = placed_piece(p, m.promotion);
            let s1 = if ep_trigger(pos, p, from, to) {
                pos.clear_square_spec(to - 8 * forward(p.color))
            } else {
                pos
            };
            let s2 = if castle_k_trigger(p, from, to) {
                s1.clear_square_spec(from + 3).put_piece_spec(
                    from + 1,
                    Piece { piece_type: PieceType::Rook, color: p.color },
                )
            } else if castle_q_trigger(p, from, to) {
                s1.clear_square_spec(from - 4).put_piece_spec(
                    from - 1,
                    Piece { piece_type: PieceType::Rook, color: p.color },
                )
            } else {
                s1
            };
            let s3 = s2.clear_square_spec(from).put_piece_spec(to, placed);
            let new_ep: Option<Square> = if p.piece_type == PieceType::Pawn && (to == from + 16
                || to == from - 16) {
                Some(Square::spec_new((from + to) / 2))
            } else {
                None
            };
            Position {
                side: pos.side.flip_spec(),
                castle_wk: pos.castle_wk && from != 4 && from != 7 && to != 7,
                castle_wq: pos.castle_wq && from != 4 && from != 0 && to != 0,
                castle_bk: pos.castle_bk && from != 60 && from != 63 && to != 63,
                castle_bq: pos.castle_bq && from != 60 && from != 56 && to != 56,
                ep: new_ep,
                ..s3
            }
        },
    }
}

/// What each square holds after a move is applied, square by square.
pub open spec fn moved_piece_at(pos: Position, m: Move, j: int) -> Option<Piece> {
    let from = m.source@;
    let to = m.dest@;
    match pos.piece_at(from) {
        None => pos.piece_at(j),
        Some(p) => {
            if j == to {
                Some(placed_piece(p, m.promotion))
            } else if j == from {
                None
            } else if ep_trigger(pos, p, from, to) && j == to - 8 * forward(p.color) {
                None
            } else if castle_k_trigger(p, from, to) && j == from + 3 {
                None
            } else if castle_k_trigger(p, from, to) && j == from + 1 {
                Some(Piece { piece_type: PieceType::Rook, color: p.color })
            } else if castle_q_trigger(p, from, to) && j == from - 4 {
                None
            } else if castle_q_trigger(p, from, to) && j == from - 1 {
                Some(Piece { piece_type: PieceType::Rook, color: p.color })
            } else {
                pos.piece_at(j)
            }
        },
    }
}

/// Whether a move is legal: it follows the movement rules and does not
/// leave the mover's own king on an attacked square.
pub open spec fn legal_spec(pos: Position, m: Move) -> bool {
    pseudo_legal_spec(pos, m) && !in_check_spec(apply_move_spec(pos, m), pos.side)
}

/// A movement-legal move never steps off the board, and its source holds
/// the mover's piece.
pub proof fn lemma_pseudo_legal_bounds(pos: Position, m: Move)
    requires
        pseudo_legal_spec(pos, m),
    ensures
        0 <= m.source@ < 64,
        0 <= m.dest@ < 64,
        pos.piece_at(m.source@) is Some,
        pos.piece_at(m.source@)->Some_0.color == pos.side,
{
}

/// Under the movement rules, an en-passant trigger is a full en-passant
/// capture, with the taken pawn on the board.
proof fn lemma_ep_trigger_full(pos: Position, m: Move)
    requires
        pseudo_legal_spec(pos, m),
        pos.piece_at(m.source@) matches Some(p) && ep_trigger(pos, p, m.source@, m.dest@),
    ensures
        ep_capture_spec(
            pos,
            pos.piece_at(m.source@)->Some_0.color,
            m.source@,
            m.dest@,
        ),
        0 <= m.dest@ - 8 * forward(pos.piece_at(m.source@)->Some_0.color) < 64,
{
    let from = m.source@;
    let to = m.dest@;
    let p = pos.piece_at(from)->Some_0;
    let c = p.color;
    let d = forward(c);
    assert(sq_file(from + 8 * d) == sq_file(from));
    assert(sq_file(from + 16 * d) == sq_file(from));
    assert(ep_capture_spec(pos, c, from, to));
    let cap = to - 8 * d;
    assert(pos.piece_at(cap) is Some);
}

/// Under the movement rules, a castling trigger is a full castling move.
proof fn lemma_castle_trigger_full(pos: Position, m: Move)
    requires
        pseudo_legal_spec(pos, m),
    ensures
        (pos.piece_at(m.source@) is Some && castle_k_trigger(
            pos.piece_at(m.source@)->Some_0,
            m.source@,
            m.dest@,
        )) ==> castle_move_spec(pos, pos.piece_at(m.source@)->Some_0.color, m.source@, m.dest@),
        (pos.piece_at(m.source@) is Some && castle_q_trigger(
            pos.piece_at(m.source@)->Some_0,
            m.source@,
            m.dest@,
        )) ==> castle_move_spec(pos, pos.piece_at(m.source@)->Some_0.color, m.source@, m.dest@),
{
    let from = m.source@;
    let to = m.dest@;
    let p = pos.piece_at(from)->Some_0;
    if castle_k_trigger(p, from, to) || castle_q_trigger(p, from, to) {
        assert(from == 4 || from == 60);
        assert(!king_step(from, to));
    }
}

/// Applying a move changes the board square by square as `moved_piece_at`
/// says.
pub proof fn lemma_apply_piece_at(pos: Position, m: Move, j: int)
    requires
        pseudo_legal_spec(pos, m),
        0 <= j < 64,
    ensures
        apply_move_spec(pos, m).piece_at(j) == moved_piece_at(pos, m, j),
{
    let from = m.source@;
    let to = m.dest@;
    let p = pos.piece_at(from)->Some_0;
    let placed = placed_piece(p, m.promotion);
    let s1 = if ep_trigger(pos, p, from, to) {
        pos.clear_square_spec(to - 8 * forward(p.color))
    } else {
        pos
    };
    let s2 = if castle_k_trigger(p, from, to) {
        s1.clear_square_spec(from + 3).put_piece_spec(
            from + 1,
            Piece { piece_type: PieceType::Rook, color: p.color },
        )
    } else if castle_q_trigger(p, from, to) {
        s1.clear_square_spec(from - 4).put_piece_spec(
            from - 1,
            Piece { piece_type: PieceType::Rook, color: p.color },
        )
    } else {
        s1
    };
    let s3 = s2.clear_square_spec(from).put_piece_spec(to, placed);
    if ep_trigger(pos, p, from, to) {
        lemma_ep_trigger_full(pos, m);
        pos.lemma_clear_square_piece_at(to - 8 * forward(p.color), j);
    }
    if castle_k_trigger(p, from, to) {
        s1.lemma_clear_square_piece_at(from + 3, j);
        s1.clear_square_spec(from + 3).lemma_put_piece_piece_at(
            from + 1,
            Piece { piece_type: PieceType::Rook, color: p.color },
            j,
        );
    }
    if castle_q_trigger(p, from, to) {
        s1.lemma_clear_square_piece_at(from - 4, j);
        s1.clear_square_spec(from - 4).lemma_put_piece_piece_at(
            from - 1,
            Piece { piece_type: PieceType::Rook, color: p.color },
            j,
        );
    }
    s2.lemma_clear_square_piece_at(from, j);
    s2.clear_square_spec(from).lemma_put_piece_piece_at(to, placed, j);
    assert(apply_move_spec(pos, m).piece_at(j) == s3.piece_at(j));
}

/// Applying a movement-legal move to a well-formed position leaves each
/// side exactly one king.
pub proof fn lemma_apply_preserves_wf(pos: Position, m: Move)
    requires
        pos.wf(),
        pseudo_legal_spec(pos, m),
    ensures
        apply_move_spec(pos, m).wf(),
{
    lemma_apply_king_count(pos, m, Color::White);
    lemma_apply_king_count(pos, m, Color::Black);
}

/// Applying a movement-legal move keeps the given side's king count at one.
proof fn lemma_apply_king_count(pos: Position, m: Move, c: Color)
    requires
        pos.wf(),
        pseudo_legal_spec(pos, m),
    ensures
        apply_move_spec(pos, m).count_piece(Piece { piece_type: PieceType::King, color: c }) == 1,
{
    let a = apply_move_spec(pos, m);
    let from = m.source@;
    let to = m.dest@;
    let p = pos.piece_at(from)->Some_0;
    let placed = placed_piece(p, m.promotion);
    let king = Piece { piece_type: PieceType::King, color: c };
    assert(pos.count_piece(king) == 1);
    pos.lemma_count_exists(king, 64);
    let k = choose|j: int| 0 <= j < 64 && pos.piece_at(j) == Some(king);
    assert forall|j: int| 0 <= j < 64 implies a.piece_at(j) == moved_piece_at(pos, m, j) by {
        lemma_apply_piece_at(pos, m, j);
    }
    if ep_trigger(pos, p, from, to) {
        lemma_ep_trigger_full(pos, m);
    }
    lemma_castle_trigger_full(pos, m);
    assert(placed.piece_type == PieceType::King ==> placed == p);
    if p == king {
        pos.lemma_count_one_unique(king, k, from);
        assert(a.piece_at(to) == Some(king));
        assert forall|j: int| 0 <= j < 64 && j != to implies a.piece_at(j) != Some(king) by {
            if moved_piece_at(pos, m, j) == Some(king) {
                assert(pos.piece_at(j) == Some(king));
                pos.lemma_count_one_unique(king, j, from);
            }
        }
        a.lemma_count_one_of_unique(king, to);
    } else {
        assert(k != from);
        assert(a.piece_at(k) == Some(king));
        assert forall|j: int| 0 <= j < 64 && j != k implies a.piece_at(j) != Some(king) by {
            if moved_piece_at(pos, m, j) == Some(king) {
                assert(pos.piece_at(j) == Some(king));
                pos.lemma_count_one_unique(king, j, k);
            }
        }
        a.lemma_count_one_of_unique(king, k);
    }
}

/// Reports whether a move follows the movement rules in a position.
pub fn pseudo_legal(pos: &Position, m: &Move) -> (r: bool)
    ensures
        r == pseudo_legal_spec(*pos, *m),
{
    let from = m.source.get_index();
    let to = m.dest.get_index();
    if from == to {
        return false;
    }
    let p = match pos.piece_on(from) {
        Some(p) => p,
        None => {
            return false;
        },
    };
    if !color_eq(p.color, pos.side) {
        return false;
    }
    match pos.piece_on(to) {
        Some(q) => {
            if color_eq(q.color, pos.side) || matches!(q.piece_type, PieceType::King) {
                return false;
            }
        },
        None => {},
    }
    let promo_none = m.promotion.is_none();
    match p.piece_type {
        PieceType::Pawn => pawn_move(pos, p.color, from, to) && promo_ok_exec(
            p.color,
            to,
            m.promotion,
        ),
        PieceType::King => (attacks(pos, from, to) || castle_move(pos, p.color, from, to))
            && promo_none,
        _ => attacks(pos, from, to) && promo_none,
    }
}

/// Reports whether two colors are one color.
fn color_eq(a: Color, b: Color) -> (r: bool)
    ensures
        r == (a == b),
{
    matches!((a, b), (Color::White, Color::White) | (Color::Black, Color::Black))
}

/// Reports whether the promotion field fits the destination.
fn promo_ok_exec(c: Color, to: u8, promo: Option<PieceType>) -> (r: bool)
    requires
        to < 64,
    ensures
        r == promo_ok(c, to as int, promo),
{
    let lr: u8 = match c {
        Color::White => 7,
        Color::Black => 0,
    };
    if to / 8 == lr {
        match promo {
            Some(pt) => matches!(
                pt,
                PieceType::Knight | PieceType::Bishop | PieceType::Rook | PieceType::Queen
            ),
            None => false,
        }
    } else {
        promo.is_none()
    }
}

/// Reports whether a pawn of the given color may move between the squares.
fn pawn_move(pos: &Position, c: Color, from: u8, to: u8) -> (r: bool)
    requires
        from < 64,
        to < 64,
    ensures
        r == pawn_move_ok(*pos, c, from as int, to as int),
{
    let d: i32 = match c {
        Color::White => 1,
        Color::Black => -1,
    };
    let fi = from as i32;
    let ti = to as i32;
    let dst_empty = pos.piece_on(to).is_none();
    // single push
    if ti == fi + 8 * d && dst_empty {
        return true;
    }
    // double push
    let sr: i32 = match c {
        Color::White => 1,
        Color::Black => 6,
    };
    if fi / 8 == sr && ti == fi + 16 * d && dst_empty {
        let mid = (from + to) / 2;
        if pos.piece_on(mid).is_none() {
            proof {
                assert(to as int == from as int + 16 * forward(c));
                assert(mid as int == from as int + 8 * forward(c));
            }
            return true;
        }
    }
    // diagonal step
    let diag = (ti / 8 - fi / 8 == d) && {
        let df = ti % 8 - fi % 8;
        df == 1 || df == -1
    };
    if diag {
        match pos.piece_on(to) {
            Some(q) => {
                // ordinary capture
                if !color_eq(q.color, c) {
                    return true;
                }
            },
            None => {
                // en-passant capture
                let ep_match = match pos.get_ep() {
                    Some(t) => t.get_index() == to,
                    None => false,
                };
                if ep_match {
                    let cap_i = ti - 8 * d;
                    if 0 <= cap_i && cap_i < 64 {
                        let cap = cap_i as u8;
                        match pos.piece_on(cap) {
                            Some(q) => {
                                if matches!(q.piece_type, PieceType::Pawn) && !color_eq(q.color, c) {
                                    return true;
                                }
                            },
                            None => {},
                        }
                    }
                }
            },
        }
    }
    false
}

/// Reports whether the move castles, with every condition of the castling
/// rule checked.
fn castle_move(pos: &Position, c: Color, from: u8, to: u8) -> (r: bool)
    requires
        from < 64,
        to < 64,
    ensures
        r == castle_move_spec(*pos, c, from as int, to as int),
{
    let home: u8 = match c {
        Color::White => 4,
        Color::Black => 60,
    };
    if from != home {
        return false;
    }
    let enemy = c.opposite();
    if to == home + 2 {
        let right = match c {
            Color::White => pos.castle_wk,
            Color::Black => pos.castle_bk,
        };
        let rook_home = match pos.piece_on(home + 3) {
            Some(q) => matches!(q.piece_type, PieceType::Rook) && color_eq(q.color, c),
            None => false,
        };
        right && rook_home && pos.piece_on(home + 1).is_none() && pos.piece_on(home + 2).is_none()
            && !square_attacked(pos, home, enemy) && !square_attacked(pos, home + 1, enemy)
            && !square_attacked(pos, home + 2, enemy)
    } else if to == home - 2 {
        let right = match c {
            Color::White => pos.castle_wq,
            Color::Black => pos.castle_bq,
        };
        let rook_home = match pos.piece_on(home - 4) {
            Some(q) => matches!(q.piece_type, PieceType::Rook) && color_eq(q.color, c),
            None => false,
        };
        right && rook_home && pos.piece_on(home - 1).is_none() && pos.piece_on(home - 2).is_none()
            && pos.piece_on(home - 3).is_none() && !square_attacked(pos, home, enemy)
            && !square_attacked(pos, home - 1, enemy) && !square_attacked(pos, home - 2, enemy)
    } else {
        false
    }
}

/// Applies a movement-legal move and returns the resulting position.
pub fn apply_move(pos: &Position, m: &Move) -> (r: Position)
    requires
        pseudo_legal_spec(*pos, *m),
    ensures
        r == apply_move_spec(*pos, *m),
{
    let from = m.source.get_index();
    let to = m.dest.get_index();
    let p = match pos.piece_on(from) {
        Some(p) => p,
        None => {
            proof {
                assert(false);
            }
            return *pos;
        },
    };
    let placed = if matches!(p.piece_type, PieceType::Pawn) {
        match m.promotion {
            Some(pt) => Piece { piece_type: pt, color: p.color },
            None => p,
        }
    } else {
        p
    };
    let mut r = *pos;
    // en-passant capture: remove the taken pawn
    let is_pawn = matches!(p.piece_type, PieceType::Pawn);
    let ep_hit = is_pawn && (match pos.get_ep() {
        Some(t) => t.get_index() == to,
        None => false,
    }) && pos.piece_on(to).is_none() && {
        let df = (to % 8) as i32 - (from % 8) as i32;
        df == 1 || df == -1
    };
    if ep_hit {
        proof {
            lemma_ep_trigger_full(*pos, *m);
        }
        let cap = match p.color {
            Color::White => to - 8,
            Color::Black => to + 8,
        };
        r.clear_square(cap);
    }
    // castling: move the rook
    let is_king = matches!(p.piece_type, PieceType::King);
    if is_king && (from == 4 || from == 60) && to == from + 2 {
        r.clear_square(from + 3);
        r.put_piece(from + 1, Piece { piece_type: PieceType::Rook, color: p.color });
    } else if is_king && (from == 4 || from == 60) && to == from - 2 {
        r.clear_square(from - 4);
        r.put_piece(from - 1, Piece { piece_type: PieceType::Rook, color: p.color });
    }
    // the move itself
    r.clear_square(from);
    r.put_piece(to, placed);
    // castling rights, en-passant target, side to move
    r.castle_wk = pos.castle_wk && from != 4 && from != 7 && to != 7;
    r.castle_wq = pos.castle_wq && from != 4 && from != 0 && to != 0;
    r.castle_bk = pos.castle_bk && from != 60 && from != 63 && to != 63;
    r.castle_bq = pos.castle_bq && from != 60 && from != 56 && to != 56;
    r.ep = if is_pawn && (to == from + 16 || from == to + 16) {
        Some(Square::from_u8((from + to) / 2))
    } else {
        None
    };
    r.side = pos.side.opposite();
    r
}

/// Reports whether a move is legal in a position: it follows the movement
/// rules and does not leave the mover's own king on an attacked square.
pub fn legal(pos: &Position, m: &Move) -> (r: bool)
    requires
        pos.wf(),
    ensures
        r == legal_spec(*pos, *m),
{
    if !pseudo_legal(pos, m) {
        return false;
    }
    let mover = pos.side;
    let applied = apply_move(pos, m);
    proof {
        lemma_apply_preserves_wf(*pos, *m);
    }
    !in_check(&applied, mover)
}

} // verus!
