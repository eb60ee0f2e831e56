//! Bit-level model of packed boolean buffers: which bit of which byte holds
//! position `p`, and counting the zero bits of a window.

use vstd::prelude::*;

verus! {

/// True iff bit `k` (counting from the least significant end) of `b` is set.
pub open spec fn nth_bit(b: u8, k: u8) -> bool
    recommends
        k < 8,
{
    (b >> k) & 1 == 1
}

/// The bit at absolute position `p` of a little-endian bit-packed byte
/// sequence: bit `p % 8` of byte `p / 8`.
pub open spec fn bit_at(bytes: Seq<u8>, p: int) -> bool
    recommends
        0 <= p < 8 * bytes.len(),
{
    nth_bit(bytes[p / 8], (p % 8) as u8)
}

/// The window of `length` booleans starting at bit position `offset` of a
/// bit-packed byte sequence.
pub open spec fn window(bytes: Seq<u8>, offset: int, length: nat) -> Seq<bool> {
    Seq::new(length, |i: int| bit_at(bytes, offset + i))
}

/// How many entries of `s` are `false`.
pub open spec fn count_false(s: Seq<bool>) -> nat
    decreases s.len(),
{
    if s.len() == 0 {
        0
    } else {
        count_false(s.drop_last()) + (if s.last() {
            0nat
        } else {
            1nat
        })
    }
}

/// Extending a prefix by one entry adds one to the count exactly when that
/// entry is `false`.
pub proof fn lemma_count_false_take_step(s: Seq<bool>, i: int)
    requires
        0 <= i < s.len(),
    ensures
        count_false(s.take(i + 1)) == count_false(s.take(i)) + (if s[i] {
            0nat
        } else {
            1nat
        }),
{
    assert(s.take(i + 1).drop_last() =~= s.take(i));
    assert(s.take(i + 1).last() == s[i]);
}

/// A window counts no zero bits exactly when every one of its bits is set.
pub proof fn lemma_count_false_zero(s: Seq<bool>)
    ensures
        count_false(s) == 0 <==> (forall|i: int| 0 <= i < s.len() ==> s[i]),
    decreases s.len(),
{
    if s.len() > 0 {
        lemma_count_false_zero(s.drop_last());
        assert(forall|i: int| 0 <= i < s.len() - 1 ==> s[i] == s.drop_last()[i]);
        if forall|i: int| 0 <= i < s.len() - 1 ==> s.drop_last()[i] {
            assert(forall|i: int| 0 <= i < s.len() - 1 ==> s[i]);
        }
    }
}

/// Setting bit `j` of a byte by an `or` leaves every other bit alone and
/// sets bit `j`.
pub proof fn lemma_or_sets_bit(b: u8, j: u8, k: u8)
    requires
        j < 8,
        k < 8,
    ensures
        nth_bit(b | (1u8 << j), k) == (j == k || nth_bit(b, k)),
{
    assert(nth_bit(b | (1u8 << j), k) == (j == k || nth_bit(b, k))) by (bit_vector)
        requires
            j < 8,
            k < 8,
    ;
}

/// Clearing bit `j` of a byte leaves every other bit alone and unsets
/// bit `j`.
pub proof fn lemma_and_clears_bit(b: u8, j: u8, k: u8)
    requires
        j < 8,
        k < 8,
    ensures
        nth_bit(b & !(1u8 << j), k) == (j != k && nth_bit(b, k)),
{
    assert(nth_bit(b & !(1u8 << j), k) == (j != k && nth_bit(b, k))) by (bit_vector)
        requires
            j < 8,
            k < 8,
    ;
}

/// Every bit of a zero byte is unset.
pub proof fn lemma_zero_byte(k: u8)
    requires
        k < 8,
    ensures
        !nth_bit(0u8, k),
{
    assert(!nth_bit(0u8, k)) by (bit_vector)
        requires
            k < 8,
    ;
}

/// When the byte shifted right by `s` is zero, every bit at position `s` or
/// above is unset.
pub proof fn lemma_high_bits_zero(b: u8, s: u8)
    requires
        s < 8,
        b >> s == 0,
    ensures
        forall|k: u8| s <= k < 8 ==> !nth_bit(b, k),
{
    assert(forall|k: u8| (s <= k < 8 && b >> s == 0) ==> !#[trigger] nth_bit(b, k))
        by (bit_vector);
}

} // verus!
