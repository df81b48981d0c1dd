use vstd::prelude::*;

use crate::piece::{Color, Piece, PieceType};
use crate::position::Position;

verus! {

/// The rank of a square index, 0 to 7.
pub open spec fn sq_rank(sq: int) -> int {
    sq / 8
}

/// The file of a square index, 0 to 7.
pub open spec fn sq_file(sq: int) -> int {
    sq % 8
}

/// The square index on a rank and file.
pub open spec fn sq_of(r: int, f: int) -> int {
    r * 8 + f
}

/// The absolute value of an integer.
pub open spec fn iabs(x: int) -> int {
    if x < 0 {
        -x
    } else {
        x
    }
}

/// The sign of an integer: -1, 0 or 1.
pub open spec fn isign(x: int) -> int {
    if x > 0 {
        1
    } else if x < 0 {
        -1
    } else {
        0
    }
}

/// The direction a side's pawns advance in: White up the ranks, Black down.
pub open spec fn forward(c: Color) -> int {
    match c {
        Color::White => 1,
        Color::Black => -1,
    }
}

/// Whether a knight on `from` reaches `to`: one rank and two files away, or
/// two ranks and one file away.
pub open spec fn knight_jump(from: int, to: int) -> bool {
    let dr = iabs(sq_rank(to) - sq_rank(from));
    let df = iabs(sq_file(to) - sq_file(from));
    (dr == 1 && df == 2) || (dr == 2 && df == 1)
}

/// Whether a king on `from` reaches `to`: at most one rank and one file
/// away, and not standing still.
pub open spec fn king_step(from: int, to: int) -> bool {
    let dr = iabs(sq_rank(to) - sq_rank(from));
    let df = iabs(sq_file(to) - sq_file(from));
    dr <= 1 && df <= 1 && (dr != 0 || df != 0)
}

/// Whether a pawn of the given color on `from` attacks `to`: one square
/// diagonally forward.
pub open spec fn pawn_attack(c: Color, from: int, to: int) -> bool {
    sq_rank(to) - sq_rank(from) == forward(c) && iabs(sq_file(to) - sq_file(from)) == 1
}

/// Whether `from` and `to` are distinct squares on a common rank or file.
pub open spec fn rook_line(from: int, to: int) -> bool {
    from != to && (sq_rank(from) == sq_rank(to) || sq_file(from) == sq_file(to))
}

/// Whether `from` and `to` are distinct squares on a common diagonal.
pub open spec fn bishop_line(from: int, to: int) -> bool {
    from != to && iabs(sq_rank(to) - sq_rank(from)) == iabs(sq_file(to) - sq_file(from))
}

/// Whether the square on rank `r` and file `f` exists and holds a piece.
pub open spec fn occupied_rf(pos: Position, r: int, f: int) -> bool {
    0 <= r < 8 && 0 <= f < 8 && pos.occupied(sq_of(r, f))
}

/// Whether the `n` squares after (`r`, `f`), walking one (`sr`, `sf`) step
/// at a time, are all empty.
pub open spec fn path_clear_n(pos: Position, r: int, f: int, sr: int, sf: int, n: nat) -> bool
    decreases n,
{
    if n == 0 {
        true
    } else {
        !occupied_rf(pos, r + sr, f + sf) && path_clear_n(pos, r + sr, f + sf, sr, sf, (n - 1) as nat)
    }
}

/// Whether every square strictly between `from` and `to` is empty, walking
/// from `from` toward `to` along their common line.
pub open spec fn clear_path(pos: Position, from: int, to: int) -> bool {
    let dr = sq_rank(to) - sq_rank(from);
    let df = sq_file(to) - sq_file(from);
    let steps = if iabs(dr) >= iabs(df) {
        iabs(dr)
    } else {
        iabs(df)
    };
    path_clear_n(pos, sq_rank(from), sq_file(from), isign(dr), isign(df), (steps - 1) as nat)
}

/// Whether the piece on `from` attacks the square `to`: the piece moves to
/// `to` by its capture pattern, with every square between empty. A pawn's
/// forward pushes are not attacks.
pub open spec fn attacks_spec(pos: Position, from: int, to: int) -> bool {
    match pos.piece_at(from) {
        None => false,
        Some(p) => 0 <= to < 64 && to != from && match p.piece_type {
            PieceType::Pawn => pawn_attack(p.color, from, to),
            PieceType::Knight => knight_jump(from, to),
            PieceType::King => king_step(from, to),
            PieceType::Bishop => bishop_line(from, to) && clear_path(pos, from, to),
            PieceType::Rook => rook_line(from, to) && clear_path(pos, from, to),
            PieceType::Queen => (bishop_line(from, to) || rook_line(from, to)) && clear_path(
                pos,
                from,
                to,
            ),
        },
    }
}

/// Whether any piece of the given color attacks the square.
pub open spec fn square_attacked_spec(pos: Position, to: int, by: Color) -> bool {
    exists|from: int|
        0 <= from < 64 && pos.color_occupies(by, from) && attacks_spec(pos, from, to)
}

/// Whether the given side's king stands on a square the other side attacks.
pub open spec fn in_check_spec(pos: Position, c: Color) -> bool {
    exists|k: int|
        0 <= k < 64 && pos.piece_at(k) == Some(Piece { piece_type: PieceType::King, color: c })
            && square_attacked_spec(pos, k, c.flip_spec())
}

/// Returns the absolute value of a small integer.
fn iabs_exec(x: i32) -> (r: i32)
    requires
        -100 <= x <= 100,
    ensures
        r as int == iabs(x as int),
{
    if x < 0 {
        -x
    } else {
        x
    }
}

/// Returns the sign of a small integer.
fn isign_exec(x: i32) -> (r: i32)
    ensures
        r as int == isign(x as int),
{
    if x > 0 {
        1
    } else if x < 0 {
        -1
    } else {
        0
    }
}

/// Walks `n` steps of (`sr`, `sf`) from (`r0`, `f0`) and reports whether
/// every square walked over is empty.
fn path_clear_exec(pos: &Position, r0: i32, f0: i32, sr: i32, sf: i32, n0: u8) -> (res: bool)
    requires
        0 <= r0 < 8,
        0 <= f0 < 8,
        -1 <= sr <= 1,
        -1 <= sf <= 1,
        n0 <= 7,
    ensures
        res == path_clear_n(*pos, r0 as int, f0 as int, sr as int, sf as int, n0 as nat),
{
    let mut r = r0;
    let mut f = f0;
    let mut n = n0;
    while n > 0
        invariant
            -1 <= sr <= 1,
            -1 <= sf <= 1,
            n <= n0 <= 7,
            r0 - (n0 - n) <= r <= r0 + (n0 - n),
            f0 - (n0 - n) <= f <= f0 + (n0 - n),
            0 <= r0 < 8,
            0 <= f0 < 8,
            path_clear_n(*pos, r0 as int, f0 as int, sr as int, sf as int, n0 as nat)
                == path_clear_n(*pos, r as int, f as int, sr as int, sf as int, n as nat),
        decreases n,
    {
        let nr = r + sr;
        let nf = f + sf;
        let occ = if 0 <= nr && nr < 8 && 0 <= nf && nf < 8 {
            let sq: u8 = (nr * 8 + nf) as u8;
            pos.piece_on(sq).is_some()
        } else {
            false
        };
        proof {
            assert(occ == occupied_rf(*pos, r + sr, f + sf));
        }
        if occ {
            return false;
        }
        r = nr;
        f = nf;
        n = n - 1;
    }
    true
}

/// Reports whether the piece on `from` attacks the square `to`.
pub fn attacks(pos: &Position, from: u8, to: u8) -> (r: bool)
    requires
        from < 64,
        to < 64,
    ensures
        r == attacks_spec(*pos, from as int, to as int),
{
    let p = match pos.piece_on(from) {
        Some(p) => p,
        None => {
            return false;
        },
    };
    if to == from {
        return false;
    }
    let fr = (from / 8) as i32;
    let ff = (from % 8) as i32;
    let tr = (to / 8) as i32;
    let tf = (to % 8) as i32;
    let dr = tr - fr;
    let df = tf - ff;
    let adr = iabs_exec(dr);
    let adf = iabs_exec(df);
    match p.piece_type {
        PieceType::Pawn => {
            let d: i32 = match p.color {
                Color::White => 1,
                Color::Black => -1,
            };
            dr == d && adf == 1
        },
        PieceType::Knight => (adr == 1 && adf == 2) || (adr == 2 && adf == 1),
        PieceType::King => adr <= 1 && adf <= 1 && (adr != 0 || adf != 0),
        PieceType::Bishop => {
            if adr == adf {
                let steps = adr;
                path_clear_exec(pos, fr, ff, isign_exec(dr), isign_exec(df), (steps - 1) as u8)
            } else {
                false
            }
        },
        PieceType::Rook => {
            if dr == 0 || df == 0 {
                let steps = if adr >= adf {
                    adr
                } else {
                    adf
                };
                path_clear_exec(pos, fr, ff, isign_exec(dr), isign_exec(df), (steps - 1) as u8)
            } else {
                false
            }
        },
        PieceType::Queen => {
            if adr == adf || dr == 0 || df == 0 {
                let steps = if adr >= adf {
                    adr
                } else {
                    adf
                };
                path_clear_exec(pos, fr, ff, isign_exec(dr), isign_exec(df), (steps - 1) as u8)
            } else {
                false
            }
        },
    }
}

/// Reports whether any piece of the given color attacks the square.
pub fn square_attacked(pos: &Position, to: u8, by: Color) -> (r: bool)
    requires
        to < 64,
    ensures
        r == square_attacked_spec(*pos, to as int, by),
{
    let mut from: u8 = 0;
    while from < 64
        invariant
            from <= 64,
            to < 64,
            forall|j: int|
                0 <= j < from ==> !(pos.color_occupies(by, j) && attacks_spec(*pos, j, to as int)),
        decreases 64 - from,
    {
        let mine = match pos.piece_on(from) {
            Some(q) => matches!(
                (q.color, by),
                (Color::White, Color::White) | (Color::Black, Color::Black)
            ),
            None => false,
        };
        if mine && attacks(pos, from, to) {
            return true;
        }
        from = from + 1;
    }
    false
}

/// Reports whether the given side's king stands on an attacked square.
pub fn in_check(pos: &Position, c: Color) -> (r: bool)
    requires
        pos.wf(),
    ensures
        r == in_check_spec(*pos, c),
{
    let king_sq = pos.find_king(c);
    let i = king_sq.get_index();
    let attacked = square_attacked(pos, i, c.opposite());
    proof {
        let king = Piece { piece_type: PieceType::King, color: c };
        if attacked {
            assert(in_check_spec(*pos, c));
        } else {
            if in_check_spec(*pos, c) {
                let k = choose|k: int|
                    0 <= k < 64 && pos.piece_at(k) == Some(king) && square_attacked_spec(
                        *pos,
                        k,
                        c.flip_spec(),
                    );
                pos.lemma_count_one_unique(king, k, i as int);
            }
        }
    }
    attacked
}

} // verus!
