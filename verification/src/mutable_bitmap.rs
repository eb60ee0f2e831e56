//! The exclusively owned, growable counterpart of a bitmap: an append-only
//! bit-packed buffer. Bits are stored little-endian in whole bytes; every
//! bit at or above the logical length is kept at zero, so a buffer can be
//! frozen into a shared bitmap, or reclaimed from one, without rewriting.

use vstd::prelude::*;

use vstd::arithmetic::div_mod::lemma_fundamental_div_mod;

use crate::bitmap::Bitmap;
use crate::bits::{bit_at, lemma_and_clears_bit, lemma_or_sets_bit, lemma_zero_byte, window};

verus! {

/// An exclusively owned, growable bit buffer.
#[derive(Debug)]
pub struct MutableBitmap {
    buffer: Vec<u8>,
    length: usize,
}

impl View for MutableBitmap {
    type V = Seq<bool>;

    closed spec fn view(&self) -> Seq<bool> {
        window(self.buffer@, 0, self.length as nat)
    }
}

impl MutableBitmap {
    /// The buffer holds exactly the bytes its length asks for, and every bit
    /// at or above the logical length is zero.
    pub closed spec fn wf(&self) -> bool {
        &&& self.buffer@.len() == (self.length + 7) / 8
        &&& forall|p: int|
            self.length <= p < 8 * self.buffer@.len() ==> !bit_at(self.buffer@, p)
    }

    /// Creates an empty bit buffer.
    pub fn new() -> (r: Self)
        ensures
            r.wf(),
            r@ == Seq::<bool>::empty(),
    {
        let r = MutableBitmap { buffer: Vec::new(), length: 0 };
        proof {
            assert(r@ =~= Seq::<bool>::empty());
        }
        r
    }

    /// Wraps an exclusively owned byte buffer whose layout already satisfies
    /// the invariant.
    pub(crate) fn from_vec(buffer: Vec<u8>, length: usize) -> (r: Self)
        requires
            buffer@.len() == (length + 7) / 8,
            forall|p: int| length <= p < 8 * buffer@.len() ==> !bit_at(buffer@, p),
        ensures
            r.wf(),
            r@ == window(buffer@, 0, length as nat),
    {
        MutableBitmap { buffer, length }
    }

    /// The number of bits.
    pub fn len(&self) -> (r: usize)
        ensures
            r == self@.len(),
    {
        self.length
    }

    /// Appends one bit.
    pub fn push(&mut self, value: bool)
        requires
            old(self).wf(),
            old(self)@.len() < usize::MAX,
        ensures
            final(self).wf(),
            final(self)@ == old(self)@.push(value),
    {
        let ghost old_bytes = self.buffer@;
        let ghost len = self.length as int;
        let idx = self.length / 8;
        let sh: u8 = (self.length % 8) as u8;
        if sh == 0 {
            self.buffer.push(0u8);
        }
        let ghost mid_bytes = self.buffer@;
        let b = self.buffer[idx];
        if value {
            self.buffer[idx] = b | (1u8 << sh);
        }
        self.length = self.length + 1;
        proof {
            let bytes = self.buffer@;
            assert(len / 8 == idx && len % 8 == sh);
            assert(b == mid_bytes[idx as int]);
            assert(sh == 0 ==> b == 0u8);
            assert(bytes[idx as int] == if value {
                b | (1u8 << sh)
            } else {
                b
            });
            assert forall|p: int| 0 <= p < len implies bit_at(bytes, p) == bit_at(old_bytes, p) by {
                lemma_fundamental_div_mod(p, 8);
                lemma_fundamental_div_mod(len, 8);
                assert(p / 8 <= idx as int);
                assert(bytes[p / 8] == if p / 8 == idx as int {
                    bytes[idx as int]
                } else {
                    old_bytes[p / 8]
                });
                if p / 8 == idx as int {
                    assert(p % 8 < sh);
                    if value {
                        lemma_or_sets_bit(b, sh, (p % 8) as u8);
                    }
                }
            }
            assert(bit_at(bytes, len) == value) by {
                if value {
                    lemma_or_sets_bit(b, sh, sh);
                } else if sh == 0 {
                    lemma_zero_byte(sh);
                } else {
                    lemma_fundamental_div_mod(len, 8);
                    lemma_fundamental_div_mod(len + 7, 8);
                    assert(len < 8 * old_bytes.len());
                    assert(!bit_at(old_bytes, len));
                }
            }
            assert(self@ =~= old(self)@.push(value));
            assert forall|p: int|
                self.length <= p < 8 * bytes.len() implies !bit_at(bytes, p) by {
                lemma_fundamental_div_mod(p, 8);
                lemma_fundamental_div_mod(len, 8);
                if p / 8 == idx as int {
                    assert(p % 8 > sh);
                    if value {
                        lemma_or_sets_bit(b, sh, (p % 8) as u8);
                    }
                    if sh == 0 {
                        lemma_zero_byte((p % 8) as u8);
                    } else {
                        assert(!bit_at(old_bytes, p));
                    }
                } else {
                    assert(bytes[p / 8] == old_bytes[p / 8]);
                    assert(!bit_at(old_bytes, p));
                }
            }
            lemma_fundamental_div_mod(len, 8);
            lemma_fundamental_div_mod(len + 7, 8);
            lemma_fundamental_div_mod(len + 8, 8);
            assert(bytes.len() == (len + 1 + 7) / 8);
        }
    }

    /// Overwrites the bit at `i`.
    pub fn set(&mut self, i: usize, value: bool)
        requires
            old(self).wf(),
            i < old(self)@.len(),
        ensures
            final(self).wf(),
            final(self)@ == old(self)@.update(i as int, value),
    {
        let idx = i / 8;
        let sh: u8 = (i % 8) as u8;
        let b = self.buffer[idx];
        if value {
            self.buffer[idx] = b | (1u8 << sh);
        } else {
            self.buffer[idx] = b & !(1u8 << sh);
        }
        proof {
            let bytes = self.buffer@;
            let old_bytes = old(self).buffer@;
            assert(i as int / 8 == idx && i as int % 8 == sh);
            assert forall|p: int|
                0 <= p < 8 * bytes.len() && p != i implies bit_at(bytes, p) == bit_at(
                old_bytes,
                p,
            ) by {
                lemma_fundamental_div_mod(p, 8);
                lemma_fundamental_div_mod(i as int, 8);
                if p / 8 == idx as int {
                    assert(p % 8 != sh);
                    if value {
                        lemma_or_sets_bit(b, sh, (p % 8) as u8);
                    } else {
                        lemma_and_clears_bit(b, sh, (p % 8) as u8);
                    }
                } else {
                    assert(bytes[p / 8] == old_bytes[p / 8]);
                }
            }
            assert(bit_at(bytes, i as int) == value) by {
                if value {
                    lemma_or_sets_bit(b, sh, sh);
                } else {
                    lemma_and_clears_bit(b, sh, sh);
                }
            }
            assert(self@ =~= old(self)@.update(i as int, value));
            assert forall|p: int|
                self.length <= p < 8 * bytes.len() implies !bit_at(bytes, p) by {
                assert(bit_at(bytes, p) == bit_at(old_bytes, p));
            }
        }
    }

    /// Appends `additional` copies of the same bit.
    pub fn extend_constant(&mut self, additional: usize, value: bool)
        requires
            old(self).wf(),
            old(self)@.len() + additional <= usize::MAX,
        ensures
            final(self).wf(),
            final(self)@ == old(self)@ + Seq::new(additional as nat, |i: int| value),
    {
        let mut pushed: usize = 0;
        while pushed < additional
            invariant
                self.wf(),
                pushed <= additional,
                old(self)@.len() + additional <= usize::MAX,
                self@ == old(self)@ + Seq::new(pushed as nat, |i: int| value),
            decreases additional - pushed,
        {
            self.push(value);
            pushed = pushed + 1;
            proof {
                assert(self@ =~= old(self)@ + Seq::new(pushed as nat, |i: int| value));
            }
        }
        proof {
            assert(self@ =~= old(self)@ + Seq::new(additional as nat, |i: int| value));
        }
    }

    /// Freezes this buffer into a shared, immutable bitmap. The byte buffer
    /// moves; no bit is copied.
    pub fn freeze(self) -> (r: Bitmap)
        requires
            self.wf(),
        ensures
            r.wf(),
            r@ == self@,
    {
        let MutableBitmap { buffer, length } = self;
        Bitmap::from_vec(buffer, length)
    }
}

} // verus!
