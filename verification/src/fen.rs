use vstd::prelude::*;
use vstd::string::*;

use crate::error::ChessError;
use crate::piece::{fen_char_spec, piece_of_char_spec, Color, Piece, PieceType};
use crate::position::Position;
use crate::square::{
    parse_square_name_strict_spec, rank_char_spec, rank_of_char_spec, square_name_spec, Square,
};

verus! {

// ---------------------------------------------------------------------------
// Splitting a string on a separator, and joining it back
// ---------------------------------------------------------------------------
/// The parts of `cs` between occurrences of `sep`. Splitting never yields
/// an empty sequence: an empty string is one empty part.
pub open spec fn split_char(cs: Seq<char>, sep: char) -> Seq<Seq<char>>
    decreases cs.len(),
{
    if cs.len() == 0 {
        seq![Seq::<char>::empty()]
    } else if cs[0] == sep {
        seq![Seq::<char>::empty()] + split_char(cs.skip(1), sep)
    } else {
        let r = split_char(cs.skip(1), sep);
        seq![seq![cs[0]] + r[0]] + r.skip(1)
    }
}

/// The parts joined back with the separator between them.
pub open spec fn join_char(parts: Seq<Seq<char>>, sep: char) -> Seq<char>
    decreases parts.len(),
{
    if parts.len() == 0 {
        Seq::empty()
    } else if parts.len() == 1 {
        parts[0]
    } else {
        parts[0] + seq![sep] + join_char(parts.skip(1), sep)
    }
}

/// Splitting yields at least one part.
pub proof fn lemma_split_nonempty(cs: Seq<char>, sep: char)
    ensures
        split_char(cs, sep).len() >= 1,
    decreases cs.len(),
{
    if cs.len() != 0 && cs[0] != sep {
        lemma_split_nonempty(cs.skip(1), sep);
    }
}

/// Joining what splitting yielded gives back the string.
pub proof fn lemma_join_split(cs: Seq<char>, sep: char)
    ensures
        join_char(split_char(cs, sep), sep) == cs,
    decreases cs.len(),
{
    if cs.len() == 0 {
        assert(join_char(split_char(cs, sep), sep) =~= cs);
    } else if cs[0] == sep {
        lemma_join_split(cs.skip(1), sep);
        lemma_split_nonempty(cs.skip(1), sep);
        let parts = split_char(cs, sep);
        assert(parts.skip(1) =~= split_char(cs.skip(1), sep));
        assert(join_char(parts, sep) =~= cs);
    } else {
        lemma_join_split(cs.skip(1), sep);
        lemma_split_nonempty(cs.skip(1), sep);
        let r = split_char(cs.skip(1), sep);
        let parts = split_char(cs, sep);
        if r.len() == 1 {
            assert(parts.len() == 1);
            assert(join_char(r, sep) == r[0]);
            assert(join_char(parts, sep) =~= cs);
        } else {
            assert(parts.skip(1) =~= r.skip(1));
            assert(parts[0] =~= seq![cs[0]] + r[0]);
            assert(join_char(parts, sep) =~= parts[0] + seq![sep] + join_char(r.skip(1), sep));
            assert(join_char(parts, sep) =~= seq![cs[0]] + (r[0] + seq![sep] + join_char(
                r.skip(1),
                sep,
            )));
            assert(join_char(r, sep) =~= r[0] + seq![sep] + join_char(r.skip(1), sep));
            assert(join_char(parts, sep) =~= seq![cs[0]] + join_char(r, sep));
            assert(join_char(r, sep) == cs.skip(1));
            assert(join_char(parts, sep) =~= cs);
        }
    }
}

// ---------------------------------------------------------------------------
// One rank of the placement field
// ---------------------------------------------------------------------------
/// The squares a rank string describes, each empty (a digit's worth) or
/// holding a piece (a letter). Two digits may not stand next to each other:
/// a run of empty squares is written as one digit, so each string parses to
/// at most one value and every value prints back to the string it came from.
pub open spec fn parse_rank_spec(cs: Seq<char>) -> Option<Seq<Option<Piece>>>
    decreases cs.len(),
{
    if cs.len() == 0 {
        Some(Seq::empty())
    } else if piece_of_char_spec(cs[0]) is Some {
        match parse_rank_spec(cs.skip(1)) {
            Some(rest) => Some(seq![Some(piece_of_char_spec(cs[0])->Some_0)] + rest),
            None => None,
        }
    } else if rank_of_char_spec(cs[0]) is Some {
        if cs.len() >= 2 && rank_of_char_spec(cs[1]) is Some {
            None
        } else {
            match parse_rank_spec(cs.skip(1)) {
                Some(rest) => Some(
                    Seq::new((rank_of_char_spec(cs[0])->Some_0 + 1) as nat, |i: int| None::<Piece>)
                        + rest,
                ),
                None => None,
            }
        }
    } else {
        None
    }
}

/// The rank string for a row of squares, with `pending` empty squares seen
/// and not yet written: a piece letter per occupied square, a digit for
/// each finished run of empty squares.
pub open spec fn ser_rank_acc(cells: Seq<Option<Piece>>, pending: int) -> Seq<char>
    decreases cells.len(),
{
    if cells.len() == 0 {
        if pending == 0 {
            Seq::empty()
        } else {
            seq![rank_char_spec(pending - 1)]
        }
    } else {
        match cells[0] {
            None => ser_rank_acc(cells.skip(1), pending + 1),
            Some(p) => (if pending == 0 {
                Seq::<char>::empty()
            } else {
                seq![rank_char_spec(pending - 1)]
            }) + seq![fen_char_spec(p)] + ser_rank_acc(cells.skip(1), 0),
        }
    }
}

/// The rank string for a row of squares.
pub open spec fn ser_rank_spec(cells: Seq<Option<Piece>>) -> Seq<char> {
    ser_rank_acc(cells, 0)
}

/// Empty squares ahead only raise the pending count.
proof fn lemma_acc_nones(rest: Seq<Option<Piece>>, pending: int, k: int)
    requires
        k >= 0,
    ensures
        ser_rank_acc(Seq::new(k as nat, |i: int| None::<Piece>) + rest, pending) == ser_rank_acc(
            rest,
            pending + k,
        ),
    decreases k,
{
    let nones = Seq::new(k as nat, |i: int| None::<Piece>);
    if k == 0 {
        assert(nones + rest =~= rest);
    } else {
        assert((nones + rest)[0] is None);
        assert((nones + rest).skip(1) =~= Seq::new((k - 1) as nat, |i: int| None::<Piece>) + rest);
        lemma_acc_nones(rest, pending + 1, k - 1);
    }
}

/// At a piece or at the end of the rank, the pending run is written first.
proof fn lemma_acc_flush(rest: Seq<Option<Piece>>, pending: int)
    requires
        1 <= pending <= 8,
        rest.len() == 0 || rest[0] is Some,
    ensures
        ser_rank_acc(rest, pending) == seq![rank_char_spec(pending - 1)] + ser_rank_acc(rest, 0),
{
    if rest.len() == 0 {
        assert(ser_rank_acc(rest, pending) =~= seq![rank_char_spec(pending - 1)] + ser_rank_acc(
            rest,
            0,
        ));
    } else {
        assert(ser_rank_acc(rest, pending) =~= seq![rank_char_spec(pending - 1)] + ser_rank_acc(
            rest,
            0,
        ));
    }
}

/// Printing a parsed rank string gives back the string.
pub proof fn lemma_rank_round_trip(cs: Seq<char>)
    requires
        parse_rank_spec(cs) is Some,
    ensures
        ser_rank_spec(parse_rank_spec(cs)->Some_0) == cs,
    decreases cs.len(),
{
    let cells = parse_rank_spec(cs)->Some_0;
    if cs.len() == 0 {
        assert(ser_rank_spec(cells) =~= cs);
    } else if piece_of_char_spec(cs[0]) is Some {
        let p = piece_of_char_spec(cs[0])->Some_0;
        let rest = parse_rank_spec(cs.skip(1))->Some_0;
        lemma_rank_round_trip(cs.skip(1));
        crate::piece::lemma_char_piece_round_trip(cs[0]);
        assert(cells =~= seq![Some(p)] + rest);
        assert(cells[0] == Some(p));
        assert(cells.skip(1) =~= rest);
        assert(ser_rank_spec(cells) =~= seq![cs[0]] + ser_rank_acc(rest, 0));
        assert(ser_rank_spec(cells) =~= cs);
    } else {
        let k = rank_of_char_spec(cs[0])->Some_0 + 1;
        let rest = parse_rank_spec(cs.skip(1))->Some_0;
        let nones = Seq::new(k as nat, |i: int| None::<Piece>);
        lemma_rank_round_trip(cs.skip(1));
        assert(cells =~= nones + rest);
        lemma_acc_nones(rest, 0, k);
        assert(ser_rank_spec(cells) == ser_rank_acc(rest, k));
        if cs.len() == 1 {
            assert(rest =~= Seq::<Option<Piece>>::empty());
            lemma_acc_flush(rest, k);
        } else {
            assert(piece_of_char_spec(cs.skip(1)[0]) is Some);
            assert(rest[0] is Some);
            lemma_acc_flush(rest, k);
        }
        assert(rank_char_spec(k - 1) == cs[0]);
        assert(ser_rank_spec(cells) =~= seq![cs[0]] + ser_rank_acc(rest, 0));
        assert(ser_rank_spec(cells) =~= cs);
    }
}

// ---------------------------------------------------------------------------
// The placement field
// ---------------------------------------------------------------------------
/// The 64 squares the placement field describes, indexed a1 to h8: eight
/// rank strings from the eighth rank down to the first, separated by `/`,
/// each describing exactly 8 squares.
pub open spec fn parse_placement_spec(cs: Seq<char>) -> Option<Seq<Option<Piece>>> {
    let rows = split_char(cs, '/');
    if rows.len() == 8 && (forall|i: int|
        0 <= i < 8 ==> (#[trigger] parse_rank_spec(rows[i]) matches Some(cells) && cells.len()
            == 8)) {
        Some(Seq::new(64, |sq: int| parse_rank_spec(rows[7 - sq / 8])->Some_0[sq % 8]))
    } else {
        None
    }
}

/// The row of squares on one rank of a position.
pub open spec fn rank_cells(pos: Position, r: int) -> Seq<Option<Piece>> {
    Seq::new(8, |f: int| pos.piece_at(r * 8 + f))
}

/// The placement field of a position.
pub open spec fn ser_placement_spec(pos: Position) -> Seq<char> {
    join_char(Seq::new(8, |i: int| ser_rank_spec(rank_cells(pos, 7 - i))), '/')
}

// ---------------------------------------------------------------------------
// The side-to-move, castling and en-passant fields
// ---------------------------------------------------------------------------
/// The side a side-to-move field names.
pub open spec fn parse_side_spec(cs: Seq<char>) -> Option<Color> {
    if cs.len() == 1 && cs[0] == 'w' {
        Some(Color::White)
    } else if cs.len() == 1 && cs[0] == 'b' {
        Some(Color::Black)
    } else {
        None
    }
}

/// The side-to-move field of a side.
pub open spec fn ser_side_spec(c: Color) -> Seq<char> {
    match c {
        Color::White => seq!['w'],
        Color::Black => seq!['b'],
    }
}

/// The castling rights a castling field names, as (White king-side, White
/// queen-side, Black king-side, Black queen-side): `-` for none, else an
/// ordered non-empty subset of `KQkq`.
pub open spec fn parse_castling_spec(cs: Seq<char>) -> Option<(bool, bool, bool, bool)> {
    if cs.len() == 1 && cs[0] == '-' {
        Some((false, false, false, false))
    } else {
        let wk = cs.len() > 0 && cs[0] == 'K';
        let a: int = if wk {
            1int
        } else {
            0int
        };
        let wq = cs.len() > a && cs[a] == 'Q';
        let b: int = a + if wq {
            1int
        } else {
            0int
        };
        let bk = cs.len() > b && cs[b] == 'k';
        let c: int = b + if bk {
            1int
        } else {
            0int
        };
        let bq = cs.len() > c && cs[c] == 'q';
        let d: int = c + if bq {
            1int
        } else {
            0int
        };
        if d >= 1 && cs.len() == d {
            Some((wk, wq, bk, bq))
        } else {
            None
        }
    }
}

/// The castling field for four castling-rights flags.
pub open spec fn ser_castling_spec(wk: bool, wq: bool, bk: bool, bq: bool) -> Seq<char> {
    if !wk && !wq && !bk && !bq {
        seq!['-']
    } else {
        (if wk {
            seq!['K']
        } else {
            Seq::<char>::empty()
        }) + (if wq {
            seq!['Q']
        } else {
            Seq::<char>::empty()
        }) + (if bk {
            seq!['k']
        } else {
            Seq::<char>::empty()
        }) + (if bq {
            seq!['q']
        } else {
            Seq::<char>::empty()
        })
    }
}

/// Printing parsed castling rights gives back the field.
pub proof fn lemma_castling_round_trip(cs: Seq<char>)
    requires
        parse_castling_spec(cs) is Some,
    ensures
        ({
            let t = parse_castling_spec(cs)->Some_0;
            ser_castling_spec(t.0, t.1, t.2, t.3) == cs
        }),
{
    let t = parse_castling_spec(cs)->Some_0;
    if cs.len() == 1 && cs[0] == '-' {
        assert(ser_castling_spec(t.0, t.1, t.2, t.3) =~= cs);
    } else {
        assert(ser_castling_spec(t.0, t.1, t.2, t.3) =~= cs);
    }
}

/// The en-passant target an en-passant field names: `-` for none, else a
/// lower-case square name.
pub open spec fn parse_ep_spec(cs: Seq<char>) -> Option<Option<int>> {
    if cs.len() == 1 && cs[0] == '-' {
        Some(None)
    } else {
        match parse_square_name_strict_spec(cs) {
            Some(i) => Some(Some(i)),
            None => None,
        }
    }
}

/// The en-passant field of a position.
pub open spec fn ser_ep_spec(ep: Option<Square>) -> Seq<char> {
    match ep {
        None => seq!['-'],
        Some(t) => square_name_spec(t@),
    }
}

// ---------------------------------------------------------------------------
// The two counter fields
// ---------------------------------------------------------------------------
/// The value a decimal digit names.
pub open spec fn dec_digit_spec(c: char) -> Option<int> {
    if c == '0' {
        Some(0int)
    } else if c == '1' {
        Some(1int)
    } else if c == '2' {
        Some(2int)
    } else if c == '3' {
        Some(3int)
    } else if c == '4' {
        Some(4int)
    } else if c == '5' {
        Some(5int)
    } else if c == '6' {
        Some(6int)
    } else if c == '7' {
        Some(7int)
    } else if c == '8' {
        Some(8int)
    } else if c == '9' {
        Some(9int)
    } else {
        None
    }
}

/// The decimal digit of a value below ten.
pub open spec fn dec_digit_char(d: int) -> char {
    if d == 0 {
        '0'
    } else if d == 1 {
        '1'
    } else if d == 2 {
        '2'
    } else if d == 3 {
        '3'
    } else if d == 4 {
        '4'
    } else if d == 5 {
        '5'
    } else if d == 6 {
        '6'
    } else if d == 7 {
        '7'
    } else if d == 8 {
        '8'
    } else {
        '9'
    }
}

/// The value a counter field names: one to three decimal digits, no
/// leading zero, at most 255.
pub open spec fn parse_u8_spec(cs: Seq<char>) -> Option<int> {
    if cs.len() == 1 {
        dec_digit_spec(cs[0])
    } else if cs.len() == 2 {
        match (dec_digit_spec(cs[0]), dec_digit_spec(cs[1])) {
            (Some(a), Some(b)) => if a >= 1 {
                Some(a * 10 + b)
            } else {
                None
            },
            _ => None,
        }
    } else if cs.len() == 3 {
        match (dec_digit_spec(cs[0]), dec_digit_spec(cs[1]), dec_digit_spec(cs[2])) {
            (Some(a), Some(b), Some(c)) => if a >= 1 && a * 100 + b * 10 + c <= 255 {
                Some(a * 100 + b * 10 + c)
            } else {
                None
            },
            _ => None,
        }
    } else {
        None
    }
}

/// The counter field of a value: its decimal digits.
pub open spec fn ser_u8_spec(n: int) -> Seq<char> {
    if n < 10 {
        seq![dec_digit_char(n)]
    } else if n < 100 {
        seq![dec_digit_char(n / 10), dec_digit_char(n % 10)]
    } else {
        seq![dec_digit_char(n / 100), dec_digit_char((n / 10) % 10), dec_digit_char(n % 10)]
    }
}

// ---------------------------------------------------------------------------
// The whole FEN string
// ---------------------------------------------------------------------------
/// The position with the first `n` of the given squares filled in over the
/// given base.
pub open spec fn place_cells(base: Position, cells: Seq<Option<Piece>>, n: int) -> Position
    decreases n,
{
    if n <= 0 {
        base
    } else {
        let prev = place_cells(base, cells, n - 1);
        match cells[n - 1] {
            Some(p) => prev.put_piece_spec(n - 1, p),
            None => prev,
        }
    }
}

/// Filling in squares puts each given piece on its square and touches
/// nothing else.
pub proof fn lemma_place_cells(base: Position, cells: Seq<Option<Piece>>, n: int, j: int)
    requires
        0 <= j < 64,
        0 <= n <= 64,
    ensures
        place_cells(base, cells, n).piece_at(j) == if j < n && cells[j] is Some {
            cells[j]
        } else {
            base.piece_at(j)
        },
    decreases n,
{
    if n > 0 {
        lemma_place_cells(base, cells, n - 1, j);
        if cells[n - 1] is Some {
            place_cells(base, cells, n - 1).lemma_put_piece_piece_at(
                n - 1,
                cells[n - 1]->Some_0,
                j,
            );
        }
    }
}

/// Filling in squares does not touch the side to move, the castling
/// rights, or the en-passant target.
pub proof fn lemma_place_cells_fields(base: Position, cells: Seq<Option<Piece>>, n: int)
    ensures
        place_cells(base, cells, n).side == base.side,
        place_cells(base, cells, n).castle_wk == base.castle_wk,
        place_cells(base, cells, n).castle_wq == base.castle_wq,
        place_cells(base, cells, n).castle_bk == base.castle_bk,
        place_cells(base, cells, n).castle_bq == base.castle_bq,
        place_cells(base, cells, n).ep == base.ep,
    decreases n,
{
    if n > 0 {
        lemma_place_cells_fields(base, cells, n - 1);
    }
}

/// The position the parsed FEN fields describe.
pub open spec fn build_position_spec(
    cells: Seq<Option<Piece>>,
    side: Color,
    cr: (bool, bool, bool, bool),
    ep: Option<int>,
) -> Position {
    let base = Position {
        side,
        castle_wk: cr.0,
        castle_wq: cr.1,
        castle_bk: cr.2,
        castle_bq: cr.3,
        ep: match ep {
            Some(i) => Some(Square::spec_new(i)),
            None => None,
        },
        ..Position::empty_spec()
    };
    place_cells(base, cells, 64)
}

/// The position and counters a FEN string describes: exactly 6 fields
/// separated by single spaces, each well formed, giving each side exactly
/// one king.
pub open spec fn parse_fen_spec(cs: Seq<char>) -> Option<(Position, u8, u8)> {
    let parts = split_char(cs, ' ');
    if parts.len() != 6 {
        None
    } else {
        if parse_placement_spec(parts[0]) is Some && parse_side_spec(parts[1]) is Some
            && parse_castling_spec(parts[2]) is Some && parse_ep_spec(parts[3]) is Some
            && parse_u8_spec(parts[4]) is Some && parse_u8_spec(parts[5]) is Some {
            let pos = build_position_spec(
                parse_placement_spec(parts[0])->Some_0,
                parse_side_spec(parts[1])->Some_0,
                parse_castling_spec(parts[2])->Some_0,
                parse_ep_spec(parts[3])->Some_0,
            );
            if pos.wf() {
                Some(
                    (
                        pos,
                        parse_u8_spec(parts[4])->Some_0 as u8,
                        parse_u8_spec(parts[5])->Some_0 as u8,
                    ),
                )
            } else {
                None
            }
        } else {
            None
        }
    }
}

/// The FEN string of a position and its two counters.
pub open spec fn ser_fen_spec(pos: Position, halfmove: int, fullmove: int) -> Seq<char> {
    join_char(
        seq![
            ser_placement_spec(pos),
            ser_side_spec(pos.side),
            ser_castling_spec(pos.castle_wk, pos.castle_wq, pos.castle_bk, pos.castle_bq),
            ser_ep_spec(pos.ep),
            ser_u8_spec(halfmove),
            ser_u8_spec(fullmove),
        ],
        ' ',
    )
}

/// Which failure a rejected FEN string is reported with: the field count
/// first, then the first ill-formed field in field order, then the king
/// count.
pub open spec fn fen_error_spec(cs: Seq<char>) -> ChessError {
    let parts = split_char(cs, ' ');
    if parts.len() != 6 {
        ChessError::FenBadFieldCount
    } else if parse_placement_spec(parts[0]) is None {
        ChessError::FenBadPlacement
    } else if parse_side_spec(parts[1]) is None {
        ChessError::FenBadSideToMove
    } else if parse_castling_spec(parts[2]) is None {
        ChessError::FenBadCastling
    } else if parse_ep_spec(parts[3]) is None {
        ChessError::FenBadEnPassant
    } else if parse_u8_spec(parts[4]) is None {
        ChessError::FenBadHalfmoveClock
    } else if parse_u8_spec(parts[5]) is None {
        ChessError::FenBadFullmoveNumber
    } else {
        ChessError::FenBadKingCount
    }
}

/// A parsed placement field prints back to itself, for any position that
/// holds exactly the squares it describes.
proof fn lemma_placement_round_trip(cs0: Seq<char>, pos: Position)
    requires
        parse_placement_spec(cs0) is Some,
        forall|j: int| 0 <= j < 64 ==> pos.piece_at(j) == parse_placement_spec(cs0)->Some_0[j],
    ensures
        ser_placement_spec(pos) == cs0,
{
    let rows = split_char(cs0, '/');
    let cells = parse_placement_spec(cs0)->Some_0;
    assert forall|i: int| 0 <= i < 8 implies ser_rank_spec(rank_cells(pos, 7 - i)) == rows[i] by {
        lemma_rank_round_trip(rows[i]);
        let row_cells = parse_rank_spec(rows[i])->Some_0;
        assert forall|f: int| 0 <= f < 8 implies rank_cells(pos, 7 - i)[f] == row_cells[f] by {
            let sq = (7 - i) * 8 + f;
            assert(0 <= sq < 64);
            assert(sq / 8 == 7 - i && sq % 8 == f) by (nonlinear_arith)
                requires
                    sq == (7 - i) * 8 + f && 0 <= f < 8 && 0 <= i < 8,
            ;
            assert(pos.piece_at(sq) == cells[sq]);
        }
        assert(rank_cells(pos, 7 - i) =~= row_cells);
    }
    assert(Seq::new(8, |i: int| ser_rank_spec(rank_cells(pos, 7 - i))) =~= rows);
    lemma_join_split(cs0, '/');
}

/// Decoding a FEN string and encoding the result gives back the string:
/// the FEN codec round-trips on every string it accepts.
pub proof fn lemma_fen_round_trip(cs: Seq<char>)
    requires
        parse_fen_spec(cs) is Some,
    ensures
        ({
            let t = parse_fen_spec(cs)->Some_0;
            ser_fen_spec(t.0, t.1 as int, t.2 as int) == cs
        }),
{
    let parts = split_char(cs, ' ');
    let cells = parse_placement_spec(parts[0])->Some_0;
    let side = parse_side_spec(parts[1])->Some_0;
    let cr = parse_castling_spec(parts[2])->Some_0;
    let ep = parse_ep_spec(parts[3])->Some_0;
    let h = parse_u8_spec(parts[4])->Some_0;
    let f = parse_u8_spec(parts[5])->Some_0;
    let pos = build_position_spec(cells, side, cr, ep);
    let base0 = Position {
        side,
        castle_wk: cr.0,
        castle_wq: cr.1,
        castle_bk: cr.2,
        castle_bq: cr.3,
        ep: match ep {
            Some(i) => Some(Square::spec_new(i)),
            None => None,
        },
        ..Position::empty_spec()
    };
    lemma_place_cells_fields(base0, cells, 64);
    // the built position holds exactly the parsed squares
    assert forall|j: int| 0 <= j < 64 implies pos.piece_at(j) == cells[j] by {
        let base = Position {
            side,
            castle_wk: cr.0,
            castle_wq: cr.1,
            castle_bk: cr.2,
            castle_bq: cr.3,
            ep: match ep {
                Some(i) => Some(Square::spec_new(i)),
                None => None,
            },
            ..Position::empty_spec()
        };
        lemma_place_cells(base, cells, 64, j);
        Position::lemma_empty_piece_at(j);
        assert(base.piece_at(j) == Position::empty_spec().piece_at(j));
    }
    lemma_placement_round_trip(parts[0], pos);
    assert(ser_side_spec(pos.side) =~= parts[1]);
    lemma_castling_round_trip(parts[2]);
    match ep {
        None => {
            assert(ser_ep_spec(pos.ep) =~= parts[3]);
        },
        Some(i) => {
            crate::square::lemma_square_name_canonical(parts[3]);
            Square::lemma_spec_new_view(i);
            assert(ser_ep_spec(pos.ep) =~= parts[3]);
        },
    }
    lemma_u8_round_trip(parts[4]);
    lemma_u8_round_trip(parts[5]);
    let t = parse_fen_spec(cs)->Some_0;
    assert(t.0 == pos && t.1 as int == h && t.2 as int == f);
    assert(seq![
        ser_placement_spec(pos),
        ser_side_spec(pos.side),
        ser_castling_spec(pos.castle_wk, pos.castle_wq, pos.castle_bk, pos.castle_bq),
        ser_ep_spec(pos.ep),
        ser_u8_spec(h),
        ser_u8_spec(f),
    ] =~= parts);
    lemma_join_split(cs, ' ');
}

/// Printing a parsed counter field gives back the field.
pub proof fn lemma_u8_round_trip(cs: Seq<char>)
    requires
        parse_u8_spec(cs) is Some,
    ensures
        0 <= parse_u8_spec(cs)->Some_0 <= 255,
        ser_u8_spec(parse_u8_spec(cs)->Some_0) == cs,
{
    let n = parse_u8_spec(cs)->Some_0;
    if cs.len() == 1 {
        assert(ser_u8_spec(n) =~= cs);
    } else if cs.len() == 2 {
        let a = dec_digit_spec(cs[0])->Some_0;
        let b = dec_digit_spec(cs[1])->Some_0;
        assert(n == a * 10 + b && 1 <= a <= 9 && 0 <= b <= 9);
        assert(n / 10 == a && n % 10 == b) by (nonlinear_arith)
            requires
                n == a * 10 + b && 1 <= a <= 9 && 0 <= b <= 9,
        ;
        assert(ser_u8_spec(n) =~= cs);
    } else {
        let a = dec_digit_spec(cs[0])->Some_0;
        let b = dec_digit_spec(cs[1])->Some_0;
        let c = dec_digit_spec(cs[2])->Some_0;
        assert(n == a * 100 + b * 10 + c && 1 <= a <= 9 && 0 <= b <= 9 && 0 <= c <= 9);
        assert(n / 100 == a && (n / 10) % 10 == b && n % 10 == c) by (nonlinear_arith)
            requires
                n == a * 100 + b * 10 + c && 1 <= a <= 9 && 0 <= b <= 9 && 0 <= c <= 9,
        ;
        assert(ser_u8_spec(n) =~= cs);
    }
}

// ---------------------------------------------------------------------------
// Decoding a FEN string
// ---------------------------------------------------------------------------
/// Collects the characters of a string.
fn chars_of(s: &str) -> (r: Vec<char>)
    ensures
        r@ == s@,
{
    let n = s.unicode_len();
    let mut r: Vec<char> = Vec::new();
    let mut i: usize = 0;
    while i < n
        invariant
            i <= n,
            n == s@.len(),
            r@ =~= s@.subrange(0, i as int),
        decreases n - i,
    {
        r.push(s.get_char(i));
        i = i + 1;
    }
    proof {
        assert(r@ =~= s@);
    }
    r
}

/// Splits the characters from index `i` on at each separator.
fn split_vec(s: &Vec<char>, i: usize, sep: char) -> (r: Vec<Vec<char>>)
    requires
        i <= s@.len(),
    ensures
        r@.map_values(|v: Vec<char>| v@) == split_char(s@.skip(i as int), sep),
        r@.len() >= 1,
    decreases s@.len() - i,
{
    let ghost cs = s@.skip(i as int);
    if i == s.len() {
        let mut r: Vec<Vec<char>> = Vec::new();
        r.push(Vec::new());
        proof {
            assert(cs =~= Seq::<char>::empty());
            assert(r@.map_values(|v: Vec<char>| v@) =~= split_char(cs, sep));
        }
        r
    } else {
        let c = s[i];
        let mut rest = split_vec(s, i + 1, sep);
        proof {
            assert(cs[0] == c);
            assert(cs.skip(1) =~= s@.skip(i as int + 1));
        }
        if c == sep {
            rest.insert(0, Vec::new());
            proof {
                assert(rest@.map_values(|v: Vec<char>| v@) =~= split_char(cs, sep));
            }
            rest
        } else {
            let ghost r0 = rest@.map_values(|v: Vec<char>| v@);
            let mut first = rest.remove(0);
            proof {
                assert(first@ == r0[0]);
            }
            let ghost f0 = first@;
            first.insert(0, c);
            proof {
                assert(first@ =~= seq![c] + f0);
            }
            rest.insert(0, first);
            proof {
                assert(split_char(cs, sep) == seq![seq![cs[0]] + r0[0]] + r0.skip(1));
                assert(rest@.map_values(|v: Vec<char>| v@) =~~= split_char(cs, sep));
            }
            rest
        }
    }
}

/// Decodes one rank string from index `i` on.
fn parse_rank_vec(row: &Vec<char>, i: usize) -> (r: Option<Vec<Option<Piece>>>)
    requires
        i <= row@.len(),
    ensures
        r matches Some(v) ==> parse_rank_spec(row@.skip(i as int)) == Some(v@),
        r is None ==> parse_rank_spec(row@.skip(i as int)) is None,
    decreases row@.len() - i,
{
    let ghost cs = row@.skip(i as int);
    if i == row.len() {
        proof {
            assert(cs =~= Seq::<char>::empty());
            assert(parse_rank_spec(cs) == Some(Seq::<Option<Piece>>::empty()));
        }
        let r: Vec<Option<Piece>> = Vec::new();
        proof {
            assert(r@ =~= Seq::<Option<Piece>>::empty());
        }
        return Some(r);
    }
    let c = row[i];
    proof {
        assert(cs[0] == c);
        assert(cs.skip(1) =~= row@.skip(i as int + 1));
    }
    match crate::piece::piece_of_char(c) {
        Some(p) => {
            match parse_rank_vec(row, i + 1) {
                Some(mut rest) => {
                    rest.insert(0, Some(p));
                    proof {
                        assert(rest@ =~= seq![Some(p)] + parse_rank_spec(cs.skip(1))->Some_0);
                    }
                    Some(rest)
                },
                None => None,
            }
        },
        None => {
            match crate::square::rank_of_char(c) {
                Some(d) => {
                    if i + 1 < row.len() && crate::square::rank_of_char(row[i + 1]).is_some() {
                        proof {
                            assert(cs.len() >= 2 && cs[1] == row@[i as int + 1]);
                        }
                        None
                    } else {
                        match parse_rank_vec(row, i + 1) {
                            Some(mut rest) => {
                                let k = d + 1;
                                let mut v: Vec<Option<Piece>> = Vec::new();
                                let mut j: u8 = 0;
                                while j < k
                                    invariant
                                        j <= k,
                                        v@ =~= Seq::new(j as nat, |x: int| None::<Piece>),
                                    decreases k - j,
                                {
                                    v.push(None);
                                    proof {
                                        assert(v@ =~= Seq::new(j as nat + 1, |x: int| None::<Piece>));
                                    }
                                    j = j + 1;
                                }
                                v.append(&mut rest);
                                proof {
                                    assert(v@ =~= Seq::new(k as nat, |x: int| None::<Piece>)
                                        + parse_rank_spec(cs.skip(1))->Some_0);
                                }
                                Some(v)
                            },
                            None => None,
                        }
                    }
                },
                None => None,
            }
        },
    }
}

/// Decodes the placement field into the 64 squares it describes.
fn parse_placement_vec(field: &Vec<char>) -> (r: Option<Vec<Option<Piece>>>)
    ensures
        r matches Some(v) ==> parse_placement_spec(field@) == Some(v@) && v@.len() == 64,
        r is None ==> parse_placement_spec(field@) is None,
{
    let rows = split_vec(field, 0, '/');
    proof {
        assert(field@.skip(0) =~= field@);
    }
    let ghost srows = split_char(field@, '/');
    if rows.len() != 8 {
        return None;
    }
    let mut cells: Vec<Option<Piece>> = Vec::new();
    let mut r_i: usize = 0;
    while r_i < 8
        invariant
            r_i <= 8,
            rows@.len() == 8,
            rows@.map_values(|v: Vec<char>| v@) == srows,
            srows == split_char(field@, '/'),
            srows.len() == 8,
            forall|x: int|
                8 - r_i <= x < 8 ==> (#[trigger] parse_rank_spec(srows[x]) matches Some(c)
                    && c.len() == 8),
            cells@.len() == 8 * r_i,
            forall|sq: int|
                0 <= sq < 8 * r_i ==> cells@[sq] == parse_rank_spec(srows[7 - sq / 8])->Some_0[sq
                    % 8],
        decreases 8 - r_i,
    {
        let row = &rows[7 - r_i];
        match parse_rank_vec(row, 0) {
            Some(mut v) => {
                proof {
                    assert(row@.skip(0) =~= row@);
                    assert(row@ == srows[7 - r_i as int]);
                }
                if v.len() != 8 {
                    proof {
                        assert(parse_rank_spec(srows[7 - r_i as int]) == Some(v@));
                        assert(!(parse_rank_spec(srows[7 - r_i as int]) matches Some(c) && c.len()
                            == 8));
                    }
                    return None;
                }
                let ghost old_cells = cells@;
                let ghost vv = v@;
                cells.append(&mut v);
                proof {
                    assert(cells@ =~= old_cells + vv);
                    assert forall|sq: int| 0 <= sq < 8 * (r_i + 1) implies cells@[sq]
                        == parse_rank_spec(srows[7 - sq / 8])->Some_0[sq % 8] by {
                        if sq >= 8 * r_i {
                            assert(sq / 8 == r_i as int && sq % 8 == sq - 8 * r_i)
                                by (nonlinear_arith)
                                requires
                                    8 * r_i <= sq < 8 * (r_i + 1),
                            ;
                            assert(cells@[sq] == vv[sq - 8 * r_i]);
                        }
                    }
                }
                r_i = r_i + 1;
            },
            None => {
                proof {
                    assert(row@.skip(0) =~= row@);
                    assert(row@ == srows[7 - r_i as int]);
                    assert(parse_rank_spec(srows[7 - r_i as int]) is None);
                }
                return None;
            },
        }
    }
    proof {
        assert(parse_placement_spec(field@) is Some);
        let scells = parse_placement_spec(field@)->Some_0;
        assert(cells@ =~= scells);
    }
    Some(cells)
}

/// Decodes a decimal digit.
fn dec_digit(c: char) -> (r: Option<u8>)
    ensures
        r matches Some(d) ==> (dec_digit_spec(c) == Some(d as int) && d <= 9),
        r is None ==> dec_digit_spec(c) is None,
{
    if c == '0' {
        Some(0)
    } else if c == '1' {
        Some(1)
    } else if c == '2' {
        Some(2)
    } else if c == '3' {
        Some(3)
    } else if c == '4' {
        Some(4)
    } else if c == '5' {
        Some(5)
    } else if c == '6' {
        Some(6)
    } else if c == '7' {
        Some(7)
    } else if c == '8' {
        Some(8)
    } else if c == '9' {
        Some(9)
    } else {
        None
    }
}

/// Decodes a counter field: one to three decimal digits, no leading zero,
/// at most 255.
fn parse_u8_vec(field: &Vec<char>) -> (r: Option<u8>)
    ensures
        r matches Some(n) ==> parse_u8_spec(field@) == Some(n as int),
        r is None ==> parse_u8_spec(field@) is None,
{
    if field.len() == 1 {
        dec_digit(field[0])
    } else if field.len() == 2 {
        match (dec_digit(field[0]), dec_digit(field[1])) {
            (Some(a), Some(b)) => if a >= 1 {
                Some(a * 10 + b)
            } else {
                None
            },
            _ => None,
        }
    } else if field.len() == 3 {
        match (dec_digit(field[0]), dec_digit(field[1]), dec_digit(field[2])) {
            (Some(a), Some(b), Some(c)) => {
                let v: u32 = (a as u32) * 100 + (b as u32) * 10 + (c as u32);
                if a >= 1 && v <= 255 {
                    Some(v as u8)
                } else {
                    None
                }
            },
            _ => None,
        }
    } else {
        None
    }
}

/// Decodes the castling field.
fn parse_castling_vec(field: &Vec<char>) -> (r: Option<(bool, bool, bool, bool)>)
    ensures
        r == parse_castling_spec(field@),
{
    if field.len() == 1 && field[0] == '-' {
        return Some((false, false, false, false));
    }
    let mut i: usize = 0;
    let wk = field.len() > i && field[i] == 'K';
    if wk {
        i = i + 1;
    }
    let wq = field.len() > i && field[i] == 'Q';
    if wq {
        i = i + 1;
    }
    let bk = field.len() > i && field[i] == 'k';
    if bk {
        i = i + 1;
    }
    let bq = field.len() > i && field[i] == 'q';
    if bq {
        i = i + 1;
    }
    if i >= 1 && i == field.len() {
        Some((wk, wq, bk, bq))
    } else {
        None
    }
}

/// Decodes the en-passant field.
fn parse_ep_vec(field: &Vec<char>) -> (r: Option<Option<u8>>)
    ensures
        r matches Some(ep) ==> (parse_ep_spec(field@) matches Some(sep) && (match (ep, sep) {
            (Some(i), Some(si)) => i as int == si && i < 64,
            (None, None) => true,
            _ => false,
        })),
        r is None ==> parse_ep_spec(field@) is None,
{
    if field.len() == 1 && field[0] == '-' {
        return Some(None);
    }
    if field.len() != 2 {
        return None;
    }
    match crate::square::parse_square_name_strict(field[0], field[1]) {
        Some(i) => {
            proof {
                assert(field@ =~= seq![field@[0], field@[1]]);
            }
            Some(Some(i))
        },
        None => {
            proof {
                assert(field@ =~= seq![field@[0], field@[1]]);
            }
            None
        },
    }
}

/// Decodes a FEN string into a position and its two counters. Accepts
/// exactly the strings the FEN grammar allows, with canonical counters and
/// exactly one king a side, and reports the first failure otherwise.
pub fn parse_fen(fen: &str) -> (r: Result<(Position, u8, u8), ChessError>)
    ensures
        parse_fen_spec(fen@) matches Some(t) ==> r == Ok::<_, ChessError>(t),
        parse_fen_spec(fen@) is None ==> r == Err::<(Position, u8, u8), _>(fen_error_spec(fen@)),
{
    let chars = chars_of(fen);
    let parts = split_vec(&chars, 0, ' ');
    proof {
        assert(chars@.skip(0) =~= fen@);
    }
    let ghost sparts = split_char(fen@, ' ');
    if parts.len() != 6 {
        return Err(ChessError::FenBadFieldCount);
    }
    let cells = match parse_placement_vec(&parts[0]) {
        Some(c) => c,
        None => {
            return Err(ChessError::FenBadPlacement);
        },
    };
    let side = {
        let f1 = &parts[1];
        if f1.len() == 1 && f1[0] == 'w' {
            Color::White
        } else if f1.len() == 1 && f1[0] == 'b' {
            Color::Black
        } else {
            return Err(ChessError::FenBadSideToMove);
        }
    };
    let cr = match parse_castling_vec(&parts[2]) {
        Some(t) => t,
        None => {
            return Err(ChessError::FenBadCastling);
        },
    };
    let ep = match parse_ep_vec(&parts[3]) {
        Some(e) => e,
        None => {
            return Err(ChessError::FenBadEnPassant);
        },
    };
    let halfmove = match parse_u8_vec(&parts[4]) {
        Some(n) => n,
        None => {
            return Err(ChessError::FenBadHalfmoveClock);
        },
    };
    let fullmove = match parse_u8_vec(&parts[5]) {
        Some(n) => n,
        None => {
            return Err(ChessError::FenBadFullmoveNumber);
        },
    };
    let mut pos = Position::empty();
    pos.side = side;
    pos.castle_wk = cr.0;
    pos.castle_wq = cr.1;
    pos.castle_bk = cr.2;
    pos.castle_bq = cr.3;
    pos.ep = match ep {
        Some(i) => Some(Square::from_u8(i)),
        None => None,
    };
    let ghost base = pos;
    let mut sq: u8 = 0;
    while sq < 64
        invariant
            sq <= 64,
            cells@.len() == 64,
            pos == place_cells(base, cells@, sq as int),
        decreases 64 - sq,
    {
        match cells[sq as usize] {
            Some(p) => {
                pos.put_piece(sq, p);
            },
            None => {},
        }
        sq = sq + 1;
    }
    proof {
        assert(base == (Position {
            side,
            castle_wk: cr.0,
            castle_wq: cr.1,
            castle_bk: cr.2,
            castle_bq: cr.3,
            ep: match parse_ep_spec(sparts[3])->Some_0 {
                Some(i) => Some(Square::spec_new(i)),
                None => None,
            },
            ..Position::empty_spec()
        }));
        assert(pos == build_position_spec(
            cells@,
            side,
            parse_castling_spec(sparts[2])->Some_0,
            parse_ep_spec(sparts[3])->Some_0,
        ));
    }
    let wk_count = pos.count_piece_on_board(
        Piece { piece_type: PieceType::King, color: Color::White },
    );
    let bk_count = pos.count_piece_on_board(
        Piece { piece_type: PieceType::King, color: Color::Black },
    );
    if wk_count != 1 || bk_count != 1 {
        return Err(ChessError::FenBadKingCount);
    }
    Ok((pos, halfmove, fullmove))
}

// ---------------------------------------------------------------------------
// Encoding a FEN string
// ---------------------------------------------------------------------------
/// A part appended at the end joins with one more separator.
proof fn lemma_join_push(parts: Seq<Seq<char>>, x: Seq<char>, sep: char)
    requires
        parts.len() >= 1,
    ensures
        join_char(parts.push(x), sep) == join_char(parts, sep) + seq![sep] + x,
    decreases parts.len(),
{
    if parts.len() == 1 {
        assert(parts.push(x).skip(1) =~= seq![x]);
        assert(join_char(seq![x], sep) == x);
        assert(join_char(parts.push(x), sep) == parts.push(x)[0] + seq![sep] + join_char(
            parts.push(x).skip(1),
            sep,
        ));
        assert(parts.push(x)[0] == parts[0]);
        assert(join_char(parts, sep) == parts[0]);
        assert(join_char(parts.push(x), sep) =~= join_char(parts, sep) + seq![sep] + x);
    } else {
        assert(parts.push(x).skip(1) =~= parts.skip(1).push(x));
        lemma_join_push(parts.skip(1), x, sep);
        assert(join_char(parts.push(x), sep) == parts.push(x)[0] + seq![sep] + join_char(
            parts.skip(1).push(x),
            sep,
        ));
        assert(join_char(parts, sep) == parts[0] + seq![sep] + join_char(parts.skip(1), sep));
        assert(join_char(parts.push(x), sep) =~= join_char(parts, sep) + seq![sep] + x);
    }
}

/// Joining six parts spells them out with the separator between them.
proof fn lemma_join6(
    a: Seq<char>,
    b: Seq<char>,
    c: Seq<char>,
    d: Seq<char>,
    e: Seq<char>,
    f: Seq<char>,
    sep: char,
)
    ensures
        join_char(seq![a, b, c, d, e, f], sep) == a + seq![sep] + b + seq![sep] + c + seq![sep] + d
            + seq![sep] + e + seq![sep] + f,
{
    let s = seq![a, b, c, d, e, f];
    assert(s.skip(1) =~= seq![b, c, d, e, f]);
    assert(seq![b, c, d, e, f].skip(1) =~= seq![c, d, e, f]);
    assert(seq![c, d, e, f].skip(1) =~= seq![d, e, f]);
    assert(seq![d, e, f].skip(1) =~= seq![e, f]);
    assert(seq![e, f].skip(1) =~= seq![f]);
    assert(join_char(seq![f], sep) == f);
    assert(join_char(seq![e, f], sep) == e + seq![sep] + join_char(seq![f], sep));
    assert(join_char(seq![d, e, f], sep) == d + seq![sep] + join_char(seq![e, f], sep));
    assert(join_char(seq![c, d, e, f], sep) == c + seq![sep] + join_char(seq![d, e, f], sep));
    assert(join_char(seq![b, c, d, e, f], sep) == b + seq![sep] + join_char(
        seq![c, d, e, f],
        sep,
    ));
    assert(join_char(s, sep) == a + seq![sep] + join_char(seq![b, c, d, e, f], sep));
    assert(join_char(s, sep) =~= a + seq![sep] + b + seq![sep] + c + seq![sep] + d + seq![sep] + e
        + seq![sep] + f);
}

/// Returns one rank of the placement field: pieces as letters, runs of
/// empty squares as digits.
fn ser_rank_str(pos: &Position, r: u8) -> (s: String)
    requires
        r < 8,
    ensures
        s@ == ser_rank_spec(rank_cells(*pos, r as int)),
{
    let ghost cells = rank_cells(*pos, r as int);
    let mut s = String::new();
    proof {
        assert(cells.skip(0) =~= cells);
        assert(s@ + ser_rank_acc(cells, 0) =~= ser_rank_acc(cells, 0));
    }
    let mut pending: u8 = 0;
    let mut f: u8 = 0;
    while f < 8
        invariant
            f <= 8,
            pending <= f,
            r < 8,
            cells == rank_cells(*pos, r as int),
            s@ + ser_rank_acc(cells.skip(f as int), pending as int) == ser_rank_acc(cells, 0),
        decreases 8 - f,
    {
        let ghost s_in = s@;
        proof {
            assert(cells.skip(f as int)[0] == cells[f as int]);
            assert(cells[f as int] == pos.piece_at(r as int * 8 + f as int));
            assert(cells.skip(f as int).skip(1) =~= cells.skip(f as int + 1));
        }
        match pos.piece_on(r * 8 + f) {
            None => {
                proof {
                    assert(ser_rank_acc(cells.skip(f as int), pending as int) == ser_rank_acc(
                        cells.skip(f as int + 1),
                        pending as int + 1,
                    ));
                }
                pending = pending + 1;
            },
            Some(p) => {
                let ghost prefix = if pending == 0 {
                    Seq::<char>::empty()
                } else {
                    seq![crate::square::rank_char_spec(pending as int - 1)]
                };
                if pending > 0 {
                    s.append(crate::square::rank_str(pending - 1));
                }
                s.append(crate::piece::piece_fen_str(&p));
                proof {
                    assert(s@ =~= s_in + prefix + seq![crate::piece::fen_char_spec(p)]);
                    assert(ser_rank_acc(cells.skip(f as int), pending as int) =~= prefix + seq![
                        crate::piece::fen_char_spec(p)
                    ] + ser_rank_acc(cells.skip(f as int + 1), 0));
                    assert(s@ + ser_rank_acc(cells.skip(f as int + 1), 0) =~= s_in + ser_rank_acc(
                        cells.skip(f as int),
                        pending as int,
                    ));
                }
                pending = 0;
            },
        }
        f = f + 1;
    }
    proof {
        assert(cells.skip(8) =~= Seq::<Option<Piece>>::empty());
    }
    let ghost s_end = s@;
    if pending > 0 {
        s.append(crate::square::rank_str(pending - 1));
        proof {
            assert(ser_rank_acc(cells.skip(8), pending as int) =~= seq![
                crate::square::rank_char_spec(pending as int - 1)
            ]);
            assert(s@ =~= s_end + ser_rank_acc(cells.skip(8), pending as int));
            assert(s@ =~= ser_rank_acc(cells, 0));
        }
    } else {
        proof {
            assert(ser_rank_acc(cells.skip(8), 0) =~= Seq::<char>::empty());
            assert(s@ =~= ser_rank_acc(cells, 0));
        }
    }
    s
}

/// Returns a counter as its decimal digits.
fn ser_u8_str(n: u8) -> (s: String)
    ensures
        s@ == ser_u8_spec(n as int),
{
    let mut s = String::new();
    if n >= 100 {
        s.append(dec_digit_str(n / 100));
        s.append(dec_digit_str((n / 10) % 10));
        s.append(dec_digit_str(n % 10));
    } else if n >= 10 {
        s.append(dec_digit_str(n / 10));
        s.append(dec_digit_str(n % 10));
    } else {
        s.append(dec_digit_str(n));
    }
    s
}

/// Returns a decimal digit as a one-character string.
fn dec_digit_str(d: u8) -> (s: &'static str)
    requires
        d <= 9,
    ensures
        s@ =~= seq![dec_digit_char(d as int)],
{
    if d == 0 {
        proof {
            reveal_strlit("0");
        }
        "0"
    } else if d == 1 {
        proof {
            reveal_strlit("1");
        }
        "1"
    } else if d == 2 {
        proof {
            reveal_strlit("2");
        }
        "2"
    } else if d == 3 {
        proof {
            reveal_strlit("3");
        }
        "3"
    } else if d == 4 {
        proof {
            reveal_strlit("4");
        }
        "4"
    } else if d == 5 {
        proof {
            reveal_strlit("5");
        }
        "5"
    } else if d == 6 {
        proof {
            reveal_strlit("6");
        }
        "6"
    } else if d == 7 {
        proof {
            reveal_strlit("7");
        }
        "7"
    } else if d == 8 {
        proof {
            reveal_strlit("8");
        }
        "8"
    } else {
        proof {
            reveal_strlit("9");
        }
        "9"
    }
}

/// Encodes a position and its two counters as a FEN string.
pub fn fen_string(pos: &Position, halfmove: u8, fullmove: u8) -> (s: String)
    ensures
        s@ == ser_fen_spec(*pos, halfmove as int, fullmove as int),
{
    // placement: ranks 8 down to 1, separated by '/'
    let mut s = ser_rank_str(pos, 7);
    let mut i: u8 = 1;
    while i < 8
        invariant
            1 <= i <= 8,
            s@ == join_char(
                Seq::new(i as nat, |k: int| ser_rank_spec(rank_cells(*pos, 7 - k))),
                '/',
            ),
        decreases 8 - i,
    {
        proof {
            reveal_strlit("/");
            let prefix = Seq::new(i as nat, |k: int| ser_rank_spec(rank_cells(*pos, 7 - k)));
            lemma_join_push(prefix, ser_rank_spec(rank_cells(*pos, 7 - i as int)), '/');
            assert(Seq::new(i as nat + 1, |k: int| ser_rank_spec(rank_cells(*pos, 7 - k)))
                =~= prefix.push(ser_rank_spec(rank_cells(*pos, 7 - i as int))));
        }
        s.append("/");
        let rank = ser_rank_str(pos, 7 - i);
        s.append(rank.as_str());
        i = i + 1;
    }
    proof {
        assert(Seq::new(8, |k: int| ser_rank_spec(rank_cells(*pos, 7 - k))) =~= Seq::new(
            8,
            |k: int| ser_rank_spec(rank_cells(*pos, 7 - k)),
        ));
        assert(s@ == ser_placement_spec(*pos));
        reveal_strlit(" ");
        reveal_strlit("w");
        reveal_strlit("b");
        reveal_strlit("-");
        reveal_strlit("K");
        reveal_strlit("Q");
        reveal_strlit("k");
        reveal_strlit("q");
    }
    let ghost p0 = ser_placement_spec(*pos);
    // side to move
    s.append(" ");
    match pos.side {
        Color::White => s.append("w"),
        Color::Black => s.append("b"),
    }
    proof {
        assert(s@ == p0 + seq![' '] + ser_side_spec(pos.side));
    }
    // castling rights
    s.append(" ");
    if !pos.castle_wk && !pos.castle_wq && !pos.castle_bk && !pos.castle_bq {
        s.append("-");
    } else {
        if pos.castle_wk {
            s.append("K");
        }
        if pos.castle_wq {
            s.append("Q");
        }
        if pos.castle_bk {
            s.append("k");
        }
        if pos.castle_bq {
            s.append("q");
        }
    }
    proof {
        assert(ser_castling_spec(pos.castle_wk, pos.castle_wq, pos.castle_bk, pos.castle_bq)
            =~= ser_castling_spec(pos.castle_wk, pos.castle_wq, pos.castle_bk, pos.castle_bq));
        assert(s@ =~= p0 + seq![' '] + ser_side_spec(pos.side) + seq![' '] + ser_castling_spec(
            pos.castle_wk,
            pos.castle_wq,
            pos.castle_bk,
            pos.castle_bq,
        ));
    }
    // en-passant target
    s.append(" ");
    match pos.get_ep() {
        None => s.append("-"),
        Some(t) => {
            let name = t.get_name();
            s.append(name.as_str());
        },
    }
    // counters
    s.append(" ");
    let h = ser_u8_str(halfmove);
    s.append(h.as_str());
    s.append(" ");
    let f = ser_u8_str(fullmove);
    s.append(f.as_str());
    proof {
        lemma_join6(
            p0,
            ser_side_spec(pos.side),
            ser_castling_spec(pos.castle_wk, pos.castle_wq, pos.castle_bk, pos.castle_bq),
            ser_ep_spec(pos.ep),
            ser_u8_spec(halfmove as int),
            ser_u8_spec(fullmove as int),
            ' ',
        );
        assert(s@ =~= ser_fen_spec(*pos, halfmove as int, fullmove as int));
    }
    s
}

} // verus!
