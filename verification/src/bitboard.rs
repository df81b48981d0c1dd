use vstd::prelude::*;
use vstd::string::*;

use crate::square::Square;

verus! {

/// Whether square `i` is in the set encoded by `b` (bit `i` of `b` is set).
pub open spec fn bb_has(b: u64, i: int) -> bool {
    0 <= i < 64 && (b >> (i as u64)) & 1u64 == 1u64
}

/// The set `b` with square `i` added.
pub open spec fn bb_set(b: u64, i: int) -> u64 {
    b | (1u64 << (i as u64))
}

/// The set `b` with square `i` removed.
pub open spec fn bb_clear(b: u64, i: int) -> u64 {
    b & !(1u64 << (i as u64))
}

/// Adding a square to a set: the new set holds exactly the old squares and
/// the added one.
pub proof fn lemma_bb_set_has(b: u64, i: int, j: int)
    requires
        0 <= i < 64,
        0 <= j < 64,
    ensures
        bb_has(bb_set(b, i), j) == (i == j || bb_has(b, j)),
{
    let iu = i as u64;
    let ju = j as u64;
    assert(((b | (1u64 << iu)) >> ju) & 1u64 == (if iu == ju {
        1u64
    } else {
        (b >> ju) & 1u64
    })) by (bit_vector)
        requires
            iu < 64 && ju < 64,
    ;
}

/// Removing a square from a set: the new set holds exactly the old squares
/// but the removed one.
pub proof fn lemma_bb_clear_has(b: u64, i: int, j: int)
    requires
        0 <= i < 64,
        0 <= j < 64,
    ensures
        bb_has(bb_clear(b, i), j) == (i != j && bb_has(b, j)),
{
    let iu = i as u64;
    let ju = j as u64;
    assert(((b & !(1u64 << iu)) >> ju) & 1u64 == (if iu == ju {
        0u64
    } else {
        (b >> ju) & 1u64
    })) by (bit_vector)
        requires
            iu < 64 && ju < 64,
    ;
}

/// The union of two sets holds the squares of either.
pub proof fn lemma_bb_or_has(a: u64, b: u64, j: int)
    requires
        0 <= j < 64,
    ensures
        bb_has(a | b, j) == (bb_has(a, j) || bb_has(b, j)),
{
    let ju = j as u64;
    assert(((a | b) >> ju) & 1u64 == 1u64 <==> ((a >> ju) & 1u64 == 1u64 || (b >> ju) & 1u64
        == 1u64)) by (bit_vector);
}

/// The intersection of two sets holds the squares of both.
pub proof fn lemma_bb_and_has(a: u64, b: u64, j: int)
    requires
        0 <= j < 64,
    ensures
        bb_has(a & b, j) == (bb_has(a, j) && bb_has(b, j)),
{
    let ju = j as u64;
    assert(((a & b) >> ju) & 1u64 == 1u64 <==> ((a >> ju) & 1u64 == 1u64 && (b >> ju) & 1u64
        == 1u64)) by (bit_vector);
}

/// The symmetric difference of two sets holds the squares of exactly one.
pub proof fn lemma_bb_xor_has(a: u64, b: u64, j: int)
    requires
        0 <= j < 64,
    ensures
        bb_has(a ^ b, j) == (bb_has(a, j) != bb_has(b, j)),
{
    let ju = j as u64;
    assert(((a ^ b) >> ju) & 1u64 == 1u64 <==> (((a >> ju) & 1u64 == 1u64) != ((b >> ju) & 1u64
        == 1u64))) by (bit_vector);
}

/// The complement of a set holds exactly the squares the set lacks.
pub proof fn lemma_bb_not_has(a: u64, j: int)
    requires
        0 <= j < 64,
    ensures
        bb_has(!a, j) == !bb_has(a, j),
{
    let ju = j as u64;
    assert(((!a) >> ju) & 1u64 == 1u64 <==> !((a >> ju) & 1u64 == 1u64)) by (bit_vector)
        requires
            ju < 64,
    ;
}

/// The empty set holds no square.
pub proof fn lemma_bb_empty(j: int)
    ensures
        !bb_has(0u64, j),
{
    if 0 <= j < 64 {
        let ju = j as u64;
        assert((0u64 >> ju) & 1u64 == 0u64) by (bit_vector);
    }
}

/// The number of squares of `b` below index `n`.
pub open spec fn bb_count_below(b: u64, n: int) -> nat
    decreases n,
{
    if n <= 0 {
        0
    } else {
        bb_count_below(b, n - 1) + if bb_has(b, n - 1) {
            1nat
        } else {
            0nat
        }
    }
}

/// The number of squares in the set `b`.
pub open spec fn bb_count(b: u64) -> nat {
    bb_count_below(b, 64)
}

/// Tests bit `i` of `b`.
pub(crate) fn bit_test(b: u64, i: u8) -> (r: bool)
    requires
        i < 64,
    ensures
        r == bb_has(b, i as int),
{
    (b >> (i as u64)) & 1u64 == 1u64
}

/// A 64-bit set of board squares: bit `i` stands for the square with
/// index `i`, so the least-significant bit is a1 and the most-significant
/// bit is h8.
#[derive(Clone, Copy, Debug, PartialEq, Eq, PartialOrd, Ord, Hash, Structural)]
pub struct Bitboard {
    bits: u64,
}

impl View for Bitboard {
    type V = u64;

    /// A bitboard is seen as its 64-bit value.
    closed spec fn view(&self) -> u64 {
        self.bits
    }
}

impl Bitboard {
    /// Builds the set holding the one given square.
    pub fn from_square(square: Square) -> (r: Bitboard)
        ensures
            r@ == bb_set(0u64, square@),
            forall|j: int| 0 <= j < 64 ==> (bb_has(r@, j) == (j == square@)),
    {
        let i = square.get_index();
        let r = Bitboard { bits: 1u64 << (i as u64) };
        proof {
            assert(r.bits == bb_set(0u64, square@)) by {
                assert(0u64 | (1u64 << (i as u64)) == 1u64 << (i as u64)) by (bit_vector);
            }
            assert forall|j: int| 0 <= j < 64 implies bb_has(r.bits, j) == (j == square@) by {
                lemma_bb_set_has(0u64, square@, j);
                lemma_bb_empty(j);
            }
        }
        r
    }

    /// Builds the set encoded by the given 64-bit value.
    pub fn from_uint(bitboard: u64) -> (r: Bitboard)
        ensures
            r@ == bitboard,
    {
        Bitboard { bits: bitboard }
    }

    /// Returns the 64-bit value encoding the set.
    pub fn to_uint(&self) -> (r: u64)
        ensures
            r == self@,
    {
        self.bits
    }

    /// Returns the lowest square of a non-empty set.
    pub fn to_square(&self) -> (r: Square)
        requires
            self@ != 0,
        ensures
            bb_has(self@, r@),
            forall|j: int| 0 <= j < r@ ==> !bb_has(self@, j),
    {
        let b = self.bits;
        proof {
            assert(b >> 0u64 == b) by (bit_vector);
        }
        let mut i: u8 = 0;
        loop
            invariant
                i < 64,
                b == self@,
                b != 0,
                b >> (i as u64) != 0,
                forall|j: int| 0 <= j < i ==> !bb_has(b, j),
            decreases 64 - i,
        {
            if bit_test(b, i) {
                return Square::from_u8(i);
            }
            proof {
                let iu = i as u64;
                assert((b >> iu) != 0 && (b >> iu) & 1u64 != 1u64 && iu < 63 ==> b >> (iu + 1)
                    != 0) by (bit_vector);
                assert(!(iu == 63 && (b >> iu) != 0 && (b >> iu) & 1u64 != 1u64)) by (bit_vector);
            }
            i = i + 1;
        }
    }

    /// Counts the squares in the set.
    pub fn popcnt(&self) -> (r: u32)
        ensures
            r as nat == bb_count(self@),
            r <= 64,
    {
        let mut c: u32 = 0;
        let mut i: u8 = 0;
        while i < 64
            invariant
                i <= 64,
                c as nat == bb_count_below(self@, i as int),
                c <= i,
            decreases 64 - i,
        {
            if bit_test(self.bits, i) {
                c = c + 1;
            }
            i = i + 1;
        }
        c
    }

    /// Removes and returns the lowest square of the set, or returns None and
    /// leaves the set empty if no square is left. Repeated calls walk the
    /// squares from a1 to h8.
    pub fn next(&mut self) -> (r: Option<Square>)
        ensures
            old(self)@ == 0 ==> r is None && final(self)@ == 0,
            old(self)@ != 0 ==> (r matches Some(s) && bb_has(old(self)@, s@) && (forall|j: int|
                0 <= j < s@ ==> !bb_has(old(self)@, j)) && final(self)@ == bb_clear(
                old(self)@,
                s@,
            )),
    {
        if self.bits == 0 {
            return None;
        }
        let s = self.to_square();
        let i = s.get_index();
        self.bits = self.bits & !(1u64 << (i as u64));
        Some(s)
    }

    /// The square with rank `r` maps to rank `7 - r`, same file.
    pub open spec fn flip_sq_spec(i: int) -> int {
        (7 - i / 8) * 8 + i % 8
    }

    /// Returns the set mirrored vertically: the squares seen from the other
    /// side of the board.
    pub fn flip_vertical(&self) -> (r: Bitboard)
        ensures
            forall|i: int|
                0 <= i < 64 ==> (bb_has(r@, i) == bb_has(self@, Self::flip_sq_spec(i))),
    {
        let b = self.bits;
        let r = Bitboard {
            bits: (b << 56u64) | ((b & 0xff00u64) << 40u64) | ((b & 0xff0000u64) << 24u64) | ((b
                & 0xff000000u64) << 8u64) | ((b >> 8u64) & 0xff000000u64) | ((b >> 24u64)
                & 0xff0000u64) | ((b >> 40u64) & 0xff00u64) | (b >> 56u64),
        };
        proof {
            let rb = r.bits;
            assert(forall|iu: u64| iu < 64 ==> ((rb >> iu) & 1u64 == (b >> (iu ^ 56u64)) & 1u64))
                by (bit_vector)
                requires
                    rb == (b << 56u64) | ((b & 0xff00u64) << 40u64) | ((b & 0xff0000u64) << 24u64)
                        | ((b & 0xff000000u64) << 8u64) | ((b >> 8u64) & 0xff000000u64) | ((b
                        >> 24u64) & 0xff0000u64) | ((b >> 40u64) & 0xff00u64) | (b >> 56u64),
            ;
            assert(forall|iu: u64| iu < 64 ==> (iu ^ 56u64) == (7 - iu / 8) * 8 + iu % 8)
                by (bit_vector);
            assert forall|i: int| 0 <= i < 64 implies bb_has(rb, i) == bb_has(
                b,
                Self::flip_sq_spec(i),
            ) by {
                let iu = i as u64;
                let k = iu ^ 56u64;
                assert((rb >> iu) & 1u64 == (b >> k) & 1u64);
                assert(k == (7 - iu / 8) * 8 + iu % 8);
                assert(iu / 8 == i / 8 && iu % 8 == i % 8);
                assert(k as int == Self::flip_sq_spec(i));
                assert(0 <= Self::flip_sq_spec(i) < 64);
                assert((Self::flip_sq_spec(i) as u64) == k);
            }
        }
        r
    }

    /// Returns the union of the two sets.
    pub fn or(&self, other: &Bitboard) -> (r: Bitboard)
        ensures
            r@ == self@ | other@,
            forall|j: int| 0 <= j < 64 ==> (bb_has(r@, j) == (bb_has(self@, j) || bb_has(
                other@,
                j,
            ))),
    {
        proof {
            assert forall|j: int| 0 <= j < 64 implies bb_has(self@ | other@, j) == (bb_has(
                self@,
                j,
            ) || bb_has(other@, j)) by {
                lemma_bb_or_has(self@, other@, j);
            }
        }
        Bitboard { bits: self.bits | other.bits }
    }

    /// Returns the intersection of the two sets.
    pub fn and(&self, other: &Bitboard) -> (r: Bitboard)
        ensures
            r@ == self@ & other@,
            forall|j: int| 0 <= j < 64 ==> (bb_has(r@, j) == (bb_has(self@, j) && bb_has(
                other@,
                j,
            ))),
    {
        proof {
            assert forall|j: int| 0 <= j < 64 implies bb_has(self@ & other@, j) == (bb_has(
                self@,
                j,
            ) && bb_has(other@, j)) by {
                lemma_bb_and_has(self@, other@, j);
            }
        }
        Bitboard { bits: self.bits & other.bits }
    }

    /// Returns the symmetric difference of the two sets.
    pub fn xor(&self, other: &Bitboard) -> (r: Bitboard)
        ensures
            r@ == self@ ^ other@,
            forall|j: int| 0 <= j < 64 ==> (bb_has(r@, j) == (bb_has(self@, j) != bb_has(
                other@,
                j,
            ))),
    {
        proof {
            assert forall|j: int| 0 <= j < 64 implies bb_has(self@ ^ other@, j) == (bb_has(
                self@,
                j,
            ) != bb_has(other@, j)) by {
                lemma_bb_xor_has(self@, other@, j);
            }
        }
        Bitboard { bits: self.bits ^ other.bits }
    }

    /// Returns the complement of the set.
    pub fn invert(&self) -> (r: Bitboard)
        ensures
            r@ == !self@,
            forall|j: int| 0 <= j < 64 ==> (bb_has(r@, j) == !bb_has(self@, j)),
    {
        proof {
            assert forall|j: int| 0 <= j < 64 implies bb_has(!self@, j) == !bb_has(self@, j) by {
                lemma_bb_not_has(self@, j);
            }
        }
        Bitboard { bits: !self.bits }
    }

    /// Returns the set shifted toward h8 by the given number of bits.
    pub fn shift_left(&self, shift: u32) -> (r: Bitboard)
        requires
            shift < 64,
        ensures
            r@ == self@ << shift,
    {
        Bitboard { bits: self.bits << shift }
    }

    /// Returns the set shifted toward a1 by the given number of bits.
    pub fn shift_right(&self, shift: u32) -> (r: Bitboard)
        requires
            shift < 64,
        ensures
            r@ == self@ >> shift,
    {
        Bitboard { bits: self.bits >> shift }
    }

    /// Returns the set as an 8-by-8 grid of `X` (square present) and `.`
    /// (square absent) cells, a1 in the top-left corner and h8 in the
    /// bottom-right corner, each cell followed by a space and each row by a
    /// newline.
    pub fn get_string(&self) -> (r: String)
        ensures
            r@ =~= bb_grid_spec(self@, 64),
    {
        let mut s = String::new();
        let mut i: u8 = 0;
        while i < 64
            invariant
                i <= 64,
                s@ =~= bb_grid_spec(self@, i as int),
            decreases 64 - i,
        {
            if bit_test(self.bits, i) {
                proof {
                    reveal_strlit("X ");
                }
                s.append("X ");
            } else {
                proof {
                    reveal_strlit(". ");
                }
                s.append(". ");
            }
            if i % 8 == 7 {
                proof {
                    reveal_strlit("\n");
                }
                s.append("\n");
            }
            i = i + 1;
        }
        s
    }
}

/// The first `n` cells of the grid rendering of the set `b`.
pub open spec fn bb_grid_spec(b: u64, n: int) -> Seq<char>
    decreases n,
{
    if n <= 0 {
        Seq::empty()
    } else {
        bb_grid_spec(b, n - 1) + (if bb_has(b, n - 1) {
            seq!['X', ' ']
        } else {
            seq!['.', ' ']
        }) + (if (n - 1) % 8 == 7 {
            seq!['\n']
        } else {
            Seq::empty()
        })
    }
}

} // verus!
