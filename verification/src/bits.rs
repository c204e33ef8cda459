//! The bitset encoding of an event row: bit `i` of the state word is set
//! exactly when predicate `i` holds for the event.

use vstd::prelude::*;

verus! {

/// Width in bits of the machine word that carries an encoded event state.
/// A predicate space may not hold more predicates than this.
pub const MASK_WIDTH: usize = 64;

/// Bit `i` of the word `s`.
pub open spec fn bit_at(s: u64, i: u64) -> bool {
    (s >> i) & 1u64 == 1u64
}

/// The word `s` encodes the boolean row `row`: bit `i` equals `row[i]` for
/// every index of the row, and every higher bit is clear.
pub open spec fn encodes(s: u64, row: Seq<bool>) -> bool {
    &&& row.len() <= MASK_WIDTH
    &&& forall|i: int| 0 <= i < row.len() ==> #[trigger] bit_at(s, i as u64) == row[i]
    &&& forall|i: int| row.len() <= i < MASK_WIDTH ==> !(#[trigger] bit_at(s, i as u64))
}

/// No bit of the zero word is set.
pub proof fn lemma_bit_zero(j: u64)
    by (bit_vector)
    ensures
        !bit_at(0u64, j),
{
}

/// Setting bit `i` sets exactly that bit and leaves every other bit alone.
pub proof fn lemma_bit_or(s: u64, i: u64, j: u64)
    by (bit_vector)
    requires
        i < 64,
        j < 64,
    ensures
        bit_at(s | (1u64 << i), i),
        i != j ==> bit_at(s | (1u64 << i), j) == bit_at(s, j),
{
}

/// Mask tests distribute over a union of masks, for both the "all bits
/// present" test and the "no bit present" test.
pub proof fn lemma_and_or_mask(s: u64, a: u64, b: u64)
    by (bit_vector)
    ensures
        ((s & (a | b)) == (a | b)) == ((s & a) == a && (s & b) == b),
        ((s & (a | b)) == 0) == ((s & a) == 0 && (s & b) == 0),
{
}

/// Testing a single-bit mask is testing that bit.
pub proof fn lemma_and_single_bit(s: u64, i: u64)
    by (bit_vector)
    requires
        i < 64,
    ensures
        ((s & (1u64 << i)) == (1u64 << i)) == bit_at(s, i),
        ((s & (1u64 << i)) == 0) == !bit_at(s, i),
{
}

/// Any word passes both tests against the empty mask.
pub proof fn lemma_and_zero(s: u64)
    by (bit_vector)
    ensures
        s & 0 == 0,
{
}

/// Converts a raw per-event row of boolean fact values into the fixed-width
/// bitset representation: bit `i` of the result equals `row[i]`, and all
/// higher bits are zero.
pub fn to_bits(row: &Vec<bool>) -> (s: u64)
    requires
        row@.len() <= MASK_WIDTH,
    ensures
        encodes(s, row@),
{
    let mut s: u64 = 0;
    let n = row.len();
    proof {
        assert forall|j: u64| j < 64 implies !bit_at(0u64, j) by {
            lemma_bit_zero(j);
        }
    }
    for i in 0..n
        invariant
            n == row@.len() <= MASK_WIDTH,
            forall|j: int| 0 <= j < i ==> #[trigger] bit_at(s, j as u64) == row@[j],
            forall|j: int| i <= j < MASK_WIDTH ==> !(#[trigger] bit_at(s, j as u64)),
    {
        if row[i] {
            let ghost s0 = s;
            s = s | (1u64 << (i as u64));
            proof {
                assert forall|j: int| 0 <= j < MASK_WIDTH implies #[trigger] bit_at(s, j as u64)
                    == (bit_at(s0, j as u64) || j == i) by {
                    lemma_bit_or(s0, i as u64, j as u64);
                }
            }
        }
    }
    s
}

} // verus!
