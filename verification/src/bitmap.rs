//! A shared, immutable, bit-packed sequence of booleans: a reference-counted
//! byte buffer plus a bit offset and a length. Cloning and slicing share the
//! backing buffer; mutation goes through the clone-on-write conversions
//! [`Bitmap::into_mut`] and [`Bitmap::make_mut`].

use std::sync::Arc;

use vstd::prelude::*;

use crate::bits::{bit_at, count_false, lemma_count_false_take_step, lemma_high_bits_zero,
    window};
use crate::either::Either;
use crate::mutable_bitmap::MutableBitmap;

verus! {

/// A shared, immutable bit-packed boolean buffer with an offset view.
#[derive(Debug)]
pub struct Bitmap {
    buffer: Arc<Vec<u8>>,
    offset: usize,
    length: usize,
    unset: usize,
}

impl View for Bitmap {
    type V = Seq<bool>;

    closed spec fn view(&self) -> Seq<bool> {
        window(self.buffer@, self.offset as int, self.length as nat)
    }
}

/// Relies on `Arc::clone`: the returned handle points at the same
/// allocation, so it carries the same bytes; no byte is copied.
#[verifier::external_body]
fn share_buffer(buffer: &Arc<Vec<u8>>) -> (r: Arc<Vec<u8>>)
    ensures
        r == *buffer,
{
    Arc::clone(buffer)
}

/// Relies on `Arc::try_unwrap`: when this handle is the only one, the inner
/// vector is returned; otherwise the same handle comes back unchanged.
#[verifier::external_body]
fn unwrap_buffer(buffer: Arc<Vec<u8>>) -> (r: Result<Vec<u8>, Arc<Vec<u8>>>)
    ensures
        match r {
            Ok(v) => v == buffer,
            Err(b) => b == buffer,
        },
{
    Arc::try_unwrap(buffer)
}

/// Counts the zero bits of the window of `length` bits starting at bit
/// `offset` of `buffer`.
fn count_unset(buffer: &Vec<u8>, offset: usize, length: usize) -> (r: usize)
    requires
        offset + length <= 8 * buffer@.len(),
        offset + length <= usize::MAX,
    ensures
        r == count_false(window(buffer@, offset as int, length as nat)),
{
    let ghost w = window(buffer@, offset as int, length as nat);
    let mut count: usize = 0;
    let mut i: usize = 0;
    while i < length
        invariant
            i <= length,
            count <= i,
            offset + length <= 8 * buffer@.len(),
            offset + length <= usize::MAX,
            w == window(buffer@, offset as int, length as nat),
            count == count_false(w.take(i as int)),
        decreases length - i,
    {
        let pos = offset + i;
        let byte = buffer[pos / 8];
        let bit = ((byte >> ((pos % 8) as u8)) & 1) == 1;
        proof {
            assert(bit == w[i as int]);
            lemma_count_false_take_step(w, i as int);
        }
        if !bit {
            count = count + 1;
        }
        i = i + 1;
    }
    proof {
        assert(w.take(length as int) =~= w);
    }
    count
}

impl Clone for Bitmap {
    /// Shares the backing buffer; no byte is copied.
    fn clone(&self) -> (r: Self)
        ensures
            r == *self,
    {
        Bitmap {
            buffer: share_buffer(&self.buffer),
            offset: self.offset,
            length: self.length,
            unset: self.unset,
        }
    }
}

impl Bitmap {
    /// The window lies inside the backing buffer and the cached count of
    /// zero bits is exact.
    pub closed spec fn wf(&self) -> bool {
        &&& self.offset + self.length <= 8 * self.buffer@.len()
        &&& self.offset + self.length <= usize::MAX
        &&& self.unset == count_false(self@)
    }

    /// Creates an empty bitmap.
    pub fn new() -> (r: Self)
        ensures
            r.wf(),
            r@ == Seq::<bool>::empty(),
    {
        let r = Bitmap { buffer: Arc::new(Vec::new()), offset: 0, length: 0, unset: 0 };
        proof {
            assert(r@ =~= Seq::<bool>::empty());
        }
        r
    }

    /// Wraps an owned byte buffer as a bitmap over its first `length` bits.
    pub(crate) fn from_vec(buffer: Vec<u8>, length: usize) -> (r: Self)
        requires
            length <= 8 * buffer@.len(),
        ensures
            r.wf(),
            r@ == window(buffer@, 0, length as nat),
    {
        let unset = count_unset(&buffer, 0, length);
        Bitmap { buffer: Arc::new(buffer), offset: 0, length, unset }
    }

    /// The number of bits.
    pub fn len(&self) -> (r: usize)
        ensures
            r == self@.len(),
    {
        self.length
    }

    /// Returns the bit at index `i`; the index must be in bounds.
    pub fn get_bit(&self, i: usize) -> (r: bool)
        requires
            self.wf(),
            i < self@.len(),
        ensures
            r == self@[i as int],
    {
        let pos = self.offset + i;
        let byte = (*self.buffer)[pos / 8];
        ((byte >> ((pos % 8) as u8)) & 1) == 1
    }

    /// Returns the bit at index `i`; the caller guarantees the bound.
    pub fn get_bit_unchecked(&self, i: usize) -> (r: bool)
        requires
            self.wf(),
            i < self@.len(),
        ensures
            r == self@[i as int],
    {
        self.get_bit(i)
    }

    /// The count of zero bits, kept alongside the window, so this is a
    /// constant-time read.
    pub fn unset_bits(&self) -> (r: usize)
        requires
            self.wf(),
        ensures
            r == count_false(self@),
    {
        self.unset
    }

    /// Restricts this bitmap to the window of `length` bits starting at
    /// `offset`, in place. The backing buffer is shared, not copied.
    pub fn slice(&mut self, offset: usize, length: usize)
        requires
            old(self).wf(),
            offset + length <= old(self)@.len(),
        ensures
            final(self).wf(),
            final(self)@ == old(self)@.subrange(offset as int, offset + length),
    {
        let new_offset = self.offset + offset;
        let unset = count_unset(&*self.buffer, new_offset, length);
        self.offset = new_offset;
        self.length = length;
        self.unset = unset;
        proof {
            assert(self@ =~= old(self)@.subrange(offset as int, offset + length));
        }
    }

    /// [`Bitmap::slice`]; the caller guarantees the bounds.
    pub fn slice_unchecked(&mut self, offset: usize, length: usize)
        requires
            old(self).wf(),
            offset + length <= old(self)@.len(),
        ensures
            final(self).wf(),
            final(self)@ == old(self)@.subrange(offset as int, offset + length),
    {
        self.slice(offset, length);
    }

    /// Returns the window of `length` bits starting at `offset`, consuming
    /// this bitmap. The backing buffer is shared, not copied.
    pub fn sliced(self, offset: usize, length: usize) -> (r: Self)
        requires
            self.wf(),
            offset + length <= self@.len(),
        ensures
            r.wf(),
            r@ == self@.subrange(offset as int, offset + length),
    {
        let mut out = self;
        out.slice(offset, length);
        out
    }

    /// [`Bitmap::sliced`]; the caller guarantees the bounds.
    pub fn sliced_unchecked(self, offset: usize, length: usize) -> (r: Self)
        requires
            self.wf(),
            offset + length <= self@.len(),
        ensures
            r.wf(),
            r@ == self@.subrange(offset as int, offset + length),
    {
        self.sliced(offset, length)
    }

    /// Splits this bitmap into the windows `[0, offset)` and
    /// `[offset, len)`. Both halves share the backing buffer.
    pub fn split_at(&self, offset: usize) -> (r: (Bitmap, Bitmap))
        requires
            self.wf(),
            offset <= self@.len(),
        ensures
            r.0.wf(),
            r.1.wf(),
            r.0@ == self@.subrange(0, offset as int),
            r.1@ == self@.subrange(offset as int, self@.len() as int),
            r.0@ + r.1@ == self@,
    {
        let mut lhs = self.clone();
        lhs.slice(0, offset);
        let mut rhs = self.clone();
        rhs.slice(offset, self.length - offset);
        proof {
            assert(lhs@ + rhs@ =~= self@);
        }
        (lhs, rhs)
    }

    /// [`Bitmap::split_at`]; the caller guarantees the bound.
    pub fn split_at_unchecked(&self, offset: usize) -> (r: (Bitmap, Bitmap))
        requires
            self.wf(),
            offset <= self@.len(),
        ensures
            r.0.wf(),
            r.1.wf(),
            r.0@ == self@.subrange(0, offset as int),
            r.1@ == self@.subrange(offset as int, self@.len() as int),
            r.0@ + r.1@ == self@,
    {
        self.split_at(offset)
    }

    /// An all-zero bitmap of the given length.
    pub fn new_zeroed(length: usize) -> (r: Self)
        requires
            length <= usize::MAX - 7,
        ensures
            r.wf(),
            r@ == Seq::new(length as nat, |i: int| false),
    {
        let bytes: usize = (length + 7) / 8;
        let buffer: Vec<u8> = vec![0u8; bytes];
        proof {
            assert(forall|i: int| 0 <= i < bytes ==> buffer@[i] == 0u8);
        }
        let r = Self::from_vec(buffer, length);
        proof {
            assert forall|i: int| 0 <= i < length implies !r@[i] by {
                crate::bits::lemma_zero_byte((i % 8) as u8);
            }
            assert(r@ =~= Seq::new(length as nat, |i: int| false));
        }
        r
    }

    /// Tries to reclaim the backing buffer for exclusive mutation. Returns
    /// the exclusively owned mutable buffer when this handle is the only
    /// owner and the window covers the buffer from its start; otherwise
    /// returns this bitmap unchanged.
    pub fn into_mut(self) -> (r: Either<Bitmap, MutableBitmap>)
        requires
            self.wf(),
        ensures
            match r {
                Either::Left(b) => b == self,
                Either::Right(m) => m.wf() && m@ == self@,
            },
    {
        let Bitmap { buffer, offset, length, unset } = self;
        if offset != 0 {
            return Either::Left(Bitmap { buffer, offset, length, unset });
        }
        let needed: usize = if length % 8 == 0 {
            length / 8
        } else {
            length / 8 + 1
        };
        proof {
            assert(needed == (length + 7) / 8);
        }
        if buffer.len() != needed {
            return Either::Left(Bitmap { buffer, offset, length, unset });
        }
        if length % 8 != 0 {
            let last = (*buffer)[length / 8];
            let sh: u8 = (length % 8) as u8;
            if last >> sh != 0 {
                return Either::Left(Bitmap { buffer, offset, length, unset });
            }
            proof {
                lemma_high_bits_zero(last, sh);
            }
        }
        proof {
            assert forall|p: int| length <= p < 8 * buffer@.len() implies !bit_at(buffer@, p) by {
                assert(p / 8 == length as int / 8);
                assert(p % 8 >= length as int % 8);
            }
        }
        match unwrap_buffer(buffer) {
            Ok(v) => {
                let m = MutableBitmap::from_vec(v, length);
                proof {
                    assert(m@ =~= window(v@, 0, length as nat));
                }
                Either::Right(m)
            },
            Err(b) => Either::Left(Bitmap { buffer: b, offset, length, unset }),
        }
    }

    /// A lazy iterator over the bits.
    pub fn iter(&self) -> (r: crate::iterator::BitmapIter)
        requires
            self.wf(),
        ensures
            r.wf(),
            r.seq() == self@,
            r.pos() == 0,
    {
        crate::iterator::BitmapIter::new(self.clone())
    }

    /// Unconditionally obtains an exclusively owned mutable buffer with the
    /// same bits: the reclaimed buffer when this handle is the only owner,
    /// otherwise a full copy. This is the clone-on-write boundary.
    pub fn make_mut(self) -> (r: MutableBitmap)
        requires
            self.wf(),
        ensures
            r.wf(),
            r@ == self@,
    {
        match self.into_mut() {
            Either::Right(m) => m,
            Either::Left(b) => {
                let length = b.len();
                let mut m = MutableBitmap::new();
                let mut i: usize = 0;
                while i < length
                    invariant
                        i <= length,
                        length == b@.len(),
                        b.wf(),
                        m.wf(),
                        m@ == b@.take(i as int),
                    decreases length - i,
                {
                    m.push(b.get_bit(i));
                    proof {
                        assert(m@ =~= b@.take(i + 1));
                    }
                    i = i + 1;
                }
                proof {
                    assert(b@.take(length as int) =~= b@);
                }
                m
            },
        }
    }
}

} // verus!
