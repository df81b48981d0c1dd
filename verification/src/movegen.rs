use vstd::prelude::*;

use crate::bitboard::{bb_has, bit_test};
use crate::moves::Move;
use crate::piece::PieceType;
use crate::position::Position;
use crate::rules::{legal, legal_spec, lemma_pseudo_legal_bounds, is_promo_kind};
use crate::square::Square;

verus! {

/// How many move encodings there are: 64 sources, 64 destinations, and 5
/// promotion choices (none, or one of the four promotion kinds).
pub open spec fn move_code_count() -> int {
    20480
}

/// The promotion choice with the given index.
pub open spec fn promo_of_code(k: int) -> Option<PieceType> {
    if k == 0 {
        None
    } else if k == 1 {
        Some(PieceType::Knight)
    } else if k == 2 {
        Some(PieceType::Bishop)
    } else if k == 3 {
        Some(PieceType::Rook)
    } else {
        Some(PieceType::Queen)
    }
}

/// The move with the given encoding: source, destination, and promotion
/// choice in mixed radix.
pub open spec fn move_at_code(code: int) -> Move {
    Move {
        source: Square::spec_new(code / 320),
        dest: Square::spec_new((code / 5) % 64),
        promotion: promo_of_code(code % 5),
    }
}

/// The legal moves among the first `n` move encodings, in encoding order.
pub open spec fn legal_moves_upto(pos: Position, n: int) -> Seq<Move>
    decreases n,
{
    if n <= 0 {
        Seq::empty()
    } else {
        let prev = legal_moves_upto(pos, n - 1);
        if legal_spec(pos, move_at_code(n - 1)) {
            prev.push(move_at_code(n - 1))
        } else {
            prev
        }
    }
}

/// Every legal move of a position, each exactly once, in encoding order.
pub open spec fn all_legal_moves(pos: Position) -> Seq<Move> {
    legal_moves_upto(pos, move_code_count())
}

/// Whether any legal move exists in a position.
pub open spec fn has_any_legal(pos: Position) -> bool {
    exists|m: Move| legal_spec(pos, m)
}

/// Every enumerated move is legal.
pub proof fn lemma_enumerated_legal(pos: Position, n: int, i: int)
    requires
        0 <= i < legal_moves_upto(pos, n).len(),
    ensures
        legal_spec(pos, legal_moves_upto(pos, n)[i]),
    decreases n,
{
    if n > 0 {
        if i < legal_moves_upto(pos, n - 1).len() {
            lemma_enumerated_legal(pos, n - 1, i);
        }
    }
}

/// The encoding of a move splits back into its parts.
proof fn lemma_code_parts(f: int, t: int, k: int)
    requires
        0 <= f < 64,
        0 <= t < 64,
        0 <= k < 5,
    ensures
        0 <= (f * 64 + t) * 5 + k < 20480,
        ((f * 64 + t) * 5 + k) / 320 == f,
        (((f * 64 + t) * 5 + k) / 5) % 64 == t,
        ((f * 64 + t) * 5 + k) % 5 == k,
{
    let code = (f * 64 + t) * 5 + k;
    assert(0 <= code < 20480 && code / 320 == f && (code / 5) % 64 == t && code % 5 == k)
        by (nonlinear_arith)
        requires
            code == (f * 64 + t) * 5 + k && 0 <= f < 64 && 0 <= t < 64 && 0 <= k < 5,
    ;
}

/// The enumeration only grows with its bound.
proof fn lemma_upto_monotone(pos: Position, m: int, n: int, i: int)
    requires
        m <= n,
        0 <= i < legal_moves_upto(pos, m).len(),
    ensures
        legal_moves_upto(pos, n).len() >= legal_moves_upto(pos, m).len(),
        legal_moves_upto(pos, n)[i] == legal_moves_upto(pos, m)[i],
    decreases n - m,
{
    if m < n {
        lemma_upto_monotone(pos, m, n - 1, i);
    }
}

/// No legal move is missed: every legal move stands in the enumeration.
pub proof fn lemma_enumeration_complete(pos: Position, m: Move)
    requires
        legal_spec(pos, m),
    ensures
        all_legal_moves(pos).contains(m),
{
    lemma_pseudo_legal_bounds(pos, m);
    let f = m.source@;
    let t = m.dest@;
    let k: int = match m.promotion {
        None => 0,
        Some(pt) => match pt {
            PieceType::Knight => 1,
            PieceType::Bishop => 2,
            PieceType::Rook => 3,
            PieceType::Queen => 4,
            _ => 0,
        },
    };
    // a legal promotion is one of the four promotion kinds
    assert(match m.promotion {
        Some(pt) => is_promo_kind(pt),
        None => true,
    });
    lemma_code_parts(f, t, k);
    let code = (f * 64 + t) * 5 + k;
    Square::lemma_spec_new_view(f);
    Square::lemma_spec_new_view(t);
    Square::lemma_view_injective(move_at_code(code).source, m.source);
    Square::lemma_view_injective(move_at_code(code).dest, m.dest);
    assert(move_at_code(code) == m);
    let upto = legal_moves_upto(pos, code + 1);
    assert(upto[upto.len() - 1] == m);
    lemma_upto_monotone(pos, code + 1, move_code_count(), upto.len() - 1);
    assert(all_legal_moves(pos)[upto.len() - 1] == m);
}

/// A position with no move in its enumeration has no legal move at all.
pub proof fn lemma_no_moves(pos: Position)
    requires
        all_legal_moves(pos).len() == 0,
    ensures
        !has_any_legal(pos),
{
    if has_any_legal(pos) {
        let m = choose|m: Move| legal_spec(pos, m);
        lemma_enumeration_complete(pos, m);
    }
}

/// Builds the promotion choice with the given index.
fn promo_of_code_exec(k: u8) -> (r: Option<PieceType>)
    requires
        k < 5,
    ensures
        r == promo_of_code(k as int),
{
    if k == 0 {
        None
    } else if k == 1 {
        Some(PieceType::Knight)
    } else if k == 2 {
        Some(PieceType::Bishop)
    } else if k == 3 {
        Some(PieceType::Rook)
    } else {
        Some(PieceType::Queen)
    }
}

/// Collects every legal move of a position, in encoding order.
pub fn all_legal_vec(pos: &Position) -> (r: Vec<Move>)
    requires
        pos.wf(),
    ensures
        r@ == all_legal_moves(*pos),
{
    let mut r: Vec<Move> = Vec::new();
    let mut code: usize = 0;
    while code < 20480
        invariant
            code <= 20480,
            pos.wf(),
            r@ == legal_moves_upto(*pos, code as int),
        decreases 20480 - code,
    {
        let f = (code / 320) as u8;
        let t = ((code / 5) % 64) as u8;
        let k = (code % 5) as u8;
        let m = Move {
            source: Square::from_u8(f),
            dest: Square::from_u8(t),
            promotion: promo_of_code_exec(k),
        };
        proof {
            assert(m == move_at_code(code as int));
        }
        if legal(pos, &m) {
            r.push(m);
        }
        code = code + 1;
    }
    r
}

/// The first index whose move's destination lies in the mask, or -1.
pub open spec fn find_match(ms: Seq<Move>, mask: u64) -> int
    decreases ms.len(),
{
    if ms.len() == 0 {
        -1
    } else if bb_has(mask, ms[0].dest@) {
        0
    } else {
        let r = find_match(ms.skip(1), mask);
        if r < 0 {
            -1
        } else {
            r + 1
        }
    }
}

/// The moves whose destination lies in the mask, in order.
pub open spec fn matching_moves(ms: Seq<Move>, mask: u64) -> Seq<Move>
    decreases ms.len(),
{
    if ms.len() == 0 {
        Seq::empty()
    } else {
        (if bb_has(mask, ms[0].dest@) {
            seq![ms[0]]
        } else {
            Seq::<Move>::empty()
        }) + matching_moves(ms.skip(1), mask)
    }
}

/// The moves whose destination lies outside the mask, in order.
pub open spec fn remaining_moves(ms: Seq<Move>, mask: u64) -> Seq<Move>
    decreases ms.len(),
{
    if ms.len() == 0 {
        Seq::empty()
    } else {
        (if bb_has(mask, ms[0].dest@) {
            Seq::<Move>::empty()
        } else {
            seq![ms[0]]
        }) + remaining_moves(ms.skip(1), mask)
    }
}

/// The first index holding the given move, or -1.
pub open spec fn find_move(ms: Seq<Move>, m: Move) -> int
    decreases ms.len(),
{
    if ms.len() == 0 {
        -1
    } else if ms[0] == m {
        0
    } else {
        let r = find_move(ms.skip(1), m);
        if r < 0 {
            -1
        } else {
            r + 1
        }
    }
}

/// Reports whether two moves are one move.
pub fn move_eq(a: &Move, b: &Move) -> (r: bool)
    ensures
        r == (*a == *b),
{
    let sq_eq = a.source.get_index() == b.source.get_index() && a.dest.get_index()
        == b.dest.get_index();
    let promo_eq = match (a.promotion, b.promotion) {
        (None, None) => true,
        (Some(x), Some(y)) => x.get_index() == y.get_index(),
        _ => false,
    };
    proof {
        if sq_eq {
            Square::lemma_view_injective(a.source, b.source);
            Square::lemma_view_injective(a.dest, b.dest);
        }
    }
    sq_eq && promo_eq
}

/// The lazy sequence of a position's legal moves: the moves not yet
/// yielded, and the destination mask iteration is restricted to. Yielding
/// a move removes it; moves outside the mask stay pending for a later
/// mask. Resetting rebuilds the whole sequence from a position.
pub struct MoveGenerator {
    /// The moves not yet yielded, in generation order.
    pub moves: Vec<Move>,
    /// Only moves whose destination lies in this set are yielded.
    pub mask: u64,
}

impl MoveGenerator {
    /// Builds the generator holding every legal move of a position, with
    /// the mask admitting every square.
    pub fn new_legal(pos: &Position) -> (r: MoveGenerator)
        requires
            pos.wf(),
        ensures
            r.moves@ == all_legal_moves(*pos),
            r.mask == 0xffff_ffff_ffff_ffffu64,
    {
        MoveGenerator { moves: all_legal_vec(pos), mask: 0xffff_ffff_ffff_ffff }
    }

    /// Returns how many moves wait in the generator, under any mask.
    pub fn remaining(&self) -> (r: usize)
        ensures
            r == self.moves@.len(),
    {
        self.moves.len()
    }

    /// Yields the first pending move whose destination lies in the mask,
    /// removing it, or yields nothing if no pending move matches.
    pub fn next(&mut self) -> (r: Option<Move>)
        ensures
            final(self).mask == old(self).mask,
            find_match(old(self).moves@, old(self).mask) < 0 ==> r is None && final(self).moves@
                == old(self).moves@,
            find_match(old(self).moves@, old(self).mask) >= 0 ==> (r == Some(
                old(self).moves@[find_match(old(self).moves@, old(self).mask)],
            ) && final(self).moves@ == old(self).moves@.remove(
                find_match(old(self).moves@, old(self).mask),
            )),
    {
        let ghost ms = self.moves@;
        let mut i: usize = 0;
        while i < self.moves.len()
            invariant
                i <= ms.len(),
                ms == old(self).moves@,
                self.moves@ == ms,
                forall|j: int| 0 <= j < i ==> !bb_has(old(self).mask, ms[j].dest@),
                self.mask == old(self).mask,
            decreases ms.len() - i,
        {
            let m = self.moves[i];
            let d = m.dest.get_index();
            if bit_test(self.mask, d) {
                proof {
                    lemma_find_match_at(ms, self.mask, i as int);
                }
                let taken = self.moves.remove(i);
                return Some(taken);
            }
            i = i + 1;
        }
        proof {
            lemma_find_match_none(ms, self.mask);
        }
        None
    }

    /// Removes the given move from the pending moves, if it waits there,
    /// so it is never yielded.
    pub fn remove_move(&mut self, m: Move)
        ensures
            final(self).mask == old(self).mask,
            find_move(old(self).moves@, m) < 0 ==> final(self).moves@ == old(self).moves@,
            find_move(old(self).moves@, m) >= 0 ==> final(self).moves@ == old(self).moves@.remove(
                find_move(old(self).moves@, m),
            ),
    {
        let ghost ms = self.moves@;
        let mut i: usize = 0;
        while i < self.moves.len()
            invariant
                i <= ms.len(),
                ms == old(self).moves@,
                self.moves@ == ms,
                self.mask == old(self).mask,
                forall|j: int| 0 <= j < i ==> ms[j] != m,
            decreases ms.len() - i,
        {
            let here = self.moves[i];
            if move_eq(&here, &m) {
                proof {
                    lemma_find_move_at(ms, m, i as int);
                }
                self.moves.remove(i);
                return ;
            }
            i = i + 1;
        }
        proof {
            lemma_find_move_none(ms, m);
        }
    }

    /// Sets the destination mask iteration is restricted to.
    pub fn set_mask(&mut self, mask: u64)
        ensures
            final(self).moves@ == old(self).moves@,
            final(self).mask == mask,
    {
        self.mask = mask;
    }

    /// Yields every pending move whose destination lies in the mask, in
    /// order, removing them; moves outside the mask stay pending.
    pub fn drain_matching(&mut self) -> (r: Vec<Move>)
        ensures
            final(self).mask == old(self).mask,
            r@ == matching_moves(old(self).moves@, old(self).mask),
            final(self).moves@ == remaining_moves(old(self).moves@, old(self).mask),
    {
        let ghost ms = self.moves@;
        let ghost mask = self.mask;
        let mut taken: Vec<Move> = Vec::new();
        let mut kept: Vec<Move> = Vec::new();
        let mut i: usize = 0;
        proof {
            assert(ms.skip(0) =~= ms);
        }
        while i < self.moves.len()
            invariant
                i <= ms.len(),
                ms == old(self).moves@,
                mask == old(self).mask,
                self.moves@ == ms,
                self.mask == mask,
                taken@ + matching_moves(ms.skip(i as int), mask) == matching_moves(ms, mask),
                kept@ + remaining_moves(ms.skip(i as int), mask) == remaining_moves(ms, mask),
            decreases ms.len() - i,
        {
            let m = self.moves[i];
            let d = m.dest.get_index();
            proof {
                assert(ms.skip(i as int)[0] == ms[i as int]);
                assert(ms.skip(i as int).skip(1) =~= ms.skip(i as int + 1));
            }
            let ghost taken_in = taken@;
            let ghost kept_in = kept@;
            if bit_test(self.mask, d) {
                taken.push(m);
                proof {
                    assert(taken@ =~= taken_in + seq![m]);
                    assert(taken@ + matching_moves(ms.skip(i as int + 1), mask) =~= taken_in
                        + matching_moves(ms.skip(i as int), mask));
                    assert(kept@ + remaining_moves(ms.skip(i as int + 1), mask) =~= kept_in
                        + remaining_moves(ms.skip(i as int), mask));
                }
            } else {
                kept.push(m);
                proof {
                    assert(kept@ =~= kept_in + seq![m]);
                    assert(taken@ + matching_moves(ms.skip(i as int + 1), mask) =~= taken_in
                        + matching_moves(ms.skip(i as int), mask));
                    assert(kept@ + remaining_moves(ms.skip(i as int + 1), mask) =~= kept_in
                        + remaining_moves(ms.skip(i as int), mask));
                }
            }
            i = i + 1;
        }
        proof {
            assert(ms.skip(ms.len() as int) =~= Seq::<Move>::empty());
            assert(taken@ =~= matching_moves(ms, mask));
            assert(kept@ =~= remaining_moves(ms, mask));
        }
        self.moves = kept;
        taken
    }
}

/// The first match, where there is one, lies inside the sequence.
pub proof fn lemma_find_match_bounds(ms: Seq<Move>, mask: u64)
    ensures
        find_match(ms, mask) < ms.len(),
        find_match(ms, mask) >= -1,
    decreases ms.len(),
{
    if ms.len() > 0 && !bb_has(mask, ms[0].dest@) {
        lemma_find_match_bounds(ms.skip(1), mask);
    }
}

/// The first occurrence, where there is one, lies inside the sequence.
pub proof fn lemma_find_move_bounds(ms: Seq<Move>, m: Move)
    ensures
        find_move(ms, m) < ms.len(),
        find_move(ms, m) >= -1,
    decreases ms.len(),
{
    if ms.len() > 0 && ms[0] != m {
        lemma_find_move_bounds(ms.skip(1), m);
    }
}

/// Splitting a sequence of legal moves along a mask leaves only legal
/// moves on both sides.
pub proof fn lemma_split_legal(pos: Position, ms: Seq<Move>, mask: u64)
    requires
        forall|j: int| 0 <= j < ms.len() ==> legal_spec(pos, ms[j]),
    ensures
        forall|i: int|
            0 <= i < matching_moves(ms, mask).len() ==> legal_spec(pos, matching_moves(ms, mask)[i]),
        forall|i: int|
            0 <= i < remaining_moves(ms, mask).len() ==> legal_spec(
                pos,
                remaining_moves(ms, mask)[i],
            ),
    decreases ms.len(),
{
    if ms.len() > 0 {
        assert forall|j: int| 0 <= j < ms.skip(1).len() implies legal_spec(pos, ms.skip(1)[j]) by {
            assert(ms.skip(1)[j] == ms[j + 1]);
        }
        lemma_split_legal(pos, ms.skip(1), mask);
        let head_m: Seq<Move> = if bb_has(mask, ms[0].dest@) {
            seq![ms[0]]
        } else {
            Seq::<Move>::empty()
        };
        let head_r: Seq<Move> = if bb_has(mask, ms[0].dest@) {
            Seq::<Move>::empty()
        } else {
            seq![ms[0]]
        };
        assert forall|i: int| 0 <= i < matching_moves(ms, mask).len() implies legal_spec(
            pos,
            matching_moves(ms, mask)[i],
        ) by {
            assert(matching_moves(ms, mask) == head_m + matching_moves(ms.skip(1), mask));
            if i < head_m.len() {
                assert(matching_moves(ms, mask)[i] == ms[0]);
            } else {
                assert(matching_moves(ms, mask)[i] == matching_moves(ms.skip(1), mask)[i
                    - head_m.len()]);
            }
        }
        assert forall|i: int| 0 <= i < remaining_moves(ms, mask).len() implies legal_spec(
            pos,
            remaining_moves(ms, mask)[i],
        ) by {
            assert(remaining_moves(ms, mask) == head_r + remaining_moves(ms.skip(1), mask));
            if i < head_r.len() {
                assert(remaining_moves(ms, mask)[i] == ms[0]);
            } else {
                assert(remaining_moves(ms, mask)[i] == remaining_moves(ms.skip(1), mask)[i
                    - head_r.len()]);
            }
        }
    }
}

/// A match at the scan index is the first match.
proof fn lemma_find_match_at(ms: Seq<Move>, mask: u64, i: int)
    requires
        0 <= i < ms.len(),
        bb_has(mask, ms[i].dest@),
        forall|j: int| 0 <= j < i ==> !bb_has(mask, ms[j].dest@),
    ensures
        find_match(ms, mask) == i,
    decreases i,
{
    if i > 0 {
        assert(ms.skip(1)[i - 1] == ms[i]);
        assert forall|j: int| 0 <= j < i - 1 implies !bb_has(mask, ms.skip(1)[j].dest@) by {
            assert(ms.skip(1)[j] == ms[j + 1]);
        }
        lemma_find_match_at(ms.skip(1), mask, i - 1);
    }
}

/// With no match anywhere, there is no first match.
proof fn lemma_find_match_none(ms: Seq<Move>, mask: u64)
    requires
        forall|j: int| 0 <= j < ms.len() ==> !bb_has(mask, ms[j].dest@),
    ensures
        find_match(ms, mask) < 0,
    decreases ms.len(),
{
    if ms.len() > 0 {
        assert forall|j: int| 0 <= j < ms.skip(1).len() implies !bb_has(
            mask,
            ms.skip(1)[j].dest@,
        ) by {
            assert(ms.skip(1)[j] == ms[j + 1]);
        }
        lemma_find_match_none(ms.skip(1), mask);
    }
}

/// The move at the scan index, seen nowhere earlier, is its first
/// occurrence.
proof fn lemma_find_move_at(ms: Seq<Move>, m: Move, i: int)
    requires
        0 <= i < ms.len(),
        ms[i] == m,
        forall|j: int| 0 <= j < i ==> ms[j] != m,
    ensures
        find_move(ms, m) == i,
    decreases i,
{
    if i > 0 {
        assert(ms.skip(1)[i - 1] == ms[i]);
        assert forall|j: int| 0 <= j < i - 1 implies ms.skip(1)[j] != m by {
            assert(ms.skip(1)[j] == ms[j + 1]);
        }
        lemma_find_move_at(ms.skip(1), m, i - 1);
    }
}

/// A move absent everywhere has no first occurrence.
proof fn lemma_find_move_none(ms: Seq<Move>, m: Move)
    requires
        forall|j: int| 0 <= j < ms.len() ==> ms[j] != m,
    ensures
        find_move(ms, m) < 0,
    decreases ms.len(),
{
    if ms.len() > 0 {
        assert forall|j: int| 0 <= j < ms.skip(1).len() implies ms.skip(1)[j] != m by {
            assert(ms.skip(1)[j] == ms[j + 1]);
        }
        lemma_find_move_none(ms.skip(1), m);
    }
}

} // verus!
