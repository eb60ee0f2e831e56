//! Lazy, restartable iteration over bitmaps and arrays: the raw bit
//! iterator, the null-aware [`ZipValidity`] pairing a values iterator with
//! an optional validity iterator, and the iterator over non-null values
//! only. Each holds cheap shared handles to the bitmaps it walks, so a
//! fresh iterator can always be made from the source array.

use vstd::prelude::*;

use crate::array::zipped;
use crate::bitmap::Bitmap;
use crate::bits::count_false;

verus! {

/// The non-null values of a sequence of optional booleans, in order.
pub open spec fn some_values(s: Seq<Option<bool>>) -> Seq<bool>
    decreases s.len(),
{
    if s.len() == 0 {
        Seq::empty()
    } else {
        match s.last() {
            Some(v) => some_values(s.drop_last()).push(v),
            None => some_values(s.drop_last()),
        }
    }
}

/// How many entries of `s` are `None`.
pub open spec fn count_nones(s: Seq<Option<bool>>) -> nat
    decreases s.len(),
{
    if s.len() == 0 {
        0
    } else {
        count_nones(s.drop_last()) + (if s.last() is None {
            1nat
        } else {
            0nat
        })
    }
}

/// Extending a prefix by one entry appends that entry's value to the
/// non-null values exactly when the entry is non-null.
pub proof fn lemma_some_values_take_step(s: Seq<Option<bool>>, i: int)
    requires
        0 <= i < s.len(),
    ensures
        some_values(s.take(i + 1)) == (match s[i] {
            Some(v) => some_values(s.take(i)).push(v),
            None => some_values(s.take(i)),
        }),
{
    assert(s.take(i + 1).drop_last() =~= s.take(i));
    assert(s.take(i + 1).last() == s[i]);
}

/// The non-null values of a concatenation are the concatenation of the
/// non-null values.
pub proof fn lemma_some_values_add(a: Seq<Option<bool>>, b: Seq<Option<bool>>)
    ensures
        some_values(a + b) == some_values(a) + some_values(b),
    decreases b.len(),
{
    if b.len() == 0 {
        assert(a + b =~= a);
        assert(some_values(a) + some_values(b) =~= some_values(a));
    } else {
        lemma_some_values_add(a, b.drop_last());
        assert((a + b).drop_last() =~= a + b.drop_last());
        assert((a + b).last() == b.last());
        match b.last() {
            Some(v) => {
                assert(some_values(a) + some_values(b) =~= (some_values(a) + some_values(
                    b.drop_last(),
                )).push(v));
            },
            None => {},
        }
    }
}

/// A sequence splits at `i` into the non-null values of its prefix
/// followed by those of its suffix.
pub proof fn lemma_some_values_split(s: Seq<Option<bool>>, i: int)
    requires
        0 <= i <= s.len(),
    ensures
        some_values(s) == some_values(s.take(i)) + some_values(s.skip(i)),
{
    assert(s =~= s.take(i) + s.skip(i));
    lemma_some_values_add(s.take(i), s.skip(i));
}

/// There are exactly as many non-null values as slots that are not null.
pub proof fn lemma_some_values_len(s: Seq<Option<bool>>)
    ensures
        some_values(s).len() + count_nones(s) == s.len(),
    decreases s.len(),
{
    if s.len() > 0 {
        lemma_some_values_len(s.drop_last());
    }
}

/// A null-aware sequence has one null per unset validity bit, so the
/// non-null values number the length minus the validity's zero bits;
/// with no validity present every slot is a value.
pub proof fn lemma_non_null_values_count(values: Seq<bool>, validity: Option<Seq<bool>>)
    requires
        validity matches Some(v) ==> v.len() == values.len(),
    ensures
        some_values(zipped(values, validity)).len() == values.len() - (match validity {
            Some(v) => count_false(v),
            None => 0nat,
        }),
    decreases values.len(),
{
    lemma_some_values_len(zipped(values, validity));
    lemma_count_nones_zipped(values, validity);
}

/// The nulls of a zipped sequence are exactly the zero bits of its
/// validity.
proof fn lemma_count_nones_zipped(values: Seq<bool>, validity: Option<Seq<bool>>)
    requires
        validity matches Some(v) ==> v.len() == values.len(),
    ensures
        count_nones(zipped(values, validity)) == (match validity {
            Some(v) => count_false(v),
            None => 0nat,
        }),
    decreases values.len(),
{
    let s = zipped(values, validity);
    if values.len() == 0 {
    } else {
        match validity {
            Some(v) => {
                lemma_count_nones_zipped(values.drop_last(), Some(v.drop_last()));
                assert(s.drop_last() =~= zipped(values.drop_last(), Some(v.drop_last())));
                assert(s.last() is None <==> !v.last());
            },
            None => {
                lemma_count_nones_zipped(values.drop_last(), None);
                assert(s.drop_last() =~= zipped(values.drop_last(), None));
            },
        }
    }
}

/// An iterator over the bits of a [`Bitmap`].
pub struct BitmapIter {
    bitmap: Bitmap,
    index: usize,
}

impl BitmapIter {
    /// The bits this iterator walks.
    pub closed spec fn seq(&self) -> Seq<bool> {
        self.bitmap@
    }

    /// How many bits have been yielded.
    pub closed spec fn pos(&self) -> int {
        self.index as int
    }

    pub closed spec fn wf(&self) -> bool {
        &&& self.bitmap.wf()
        &&& self.index <= self.bitmap@.len()
    }

    /// Starts an iterator over the given bitmap.
    pub fn new(bitmap: Bitmap) -> (r: Self)
        requires
            bitmap.wf(),
        ensures
            r.wf(),
            r.seq() == bitmap@,
            r.pos() == 0,
    {
        BitmapIter { bitmap, index: 0 }
    }

    /// The next bit, or `None` once every bit has been yielded.
    pub fn next(&mut self) -> (r: Option<bool>)
        requires
            old(self).wf(),
        ensures
            final(self).wf(),
            final(self).seq() == old(self).seq(),
            ({
                let p = old(self).pos();
                if p < old(self).seq().len() {
                    &&& r == Some(old(self).seq()[p])
                    &&& final(self).pos() == p + 1
                } else {
                    &&& r is None
                    &&& final(self).pos() == p
                }
            }),
    {
        if self.index < self.bitmap.len() {
            let v = self.bitmap.get_bit(self.index);
            self.index = self.index + 1;
            Some(v)
        } else {
            None
        }
    }
}

/// An iterator over optional booleans, pairing a values iterator with an
/// optional validity iterator: a slot whose validity bit is unset comes
/// out as `None`, and an absent validity iterator means every slot is
/// non-null.
pub struct ZipValidity {
    values: BitmapIter,
    validity: Option<BitmapIter>,
}

impl ZipValidity {
    /// The optional booleans this iterator walks.
    pub closed spec fn seq(&self) -> Seq<Option<bool>> {
        zipped(
            self.values.seq(),
            match self.validity {
                Some(it) => Some(it.seq()),
                None => None,
            },
        )
    }

    /// How many slots have been yielded.
    pub closed spec fn pos(&self) -> int {
        self.values.pos()
    }

    pub closed spec fn wf(&self) -> bool {
        &&& self.values.wf()
        &&& match self.validity {
            Some(it) => it.wf() && it.seq().len() == self.values.seq().len() && it.pos()
                == self.values.pos(),
            None => true,
        }
    }

    /// Pairs a fresh values iterator with a validity bitmap, when one is
    /// present.
    pub fn new_with_validity(values: BitmapIter, validity: Option<&Bitmap>) -> (r: Self)
        requires
            values.wf(),
            values.pos() == 0,
            validity matches Some(v) ==> v.wf() && v@.len() == values.seq().len(),
        ensures
            r.wf(),
            r.seq() == zipped(
                values.seq(),
                match validity {
                    Some(v) => Some(v@),
                    None => None::<Seq<bool>>,
                },
            ),
            r.pos() == 0,
    {
        let validity_iter = match validity {
            Some(v) => Some(BitmapIter::new(v.clone())),
            None => None,
        };
        ZipValidity { values, validity: validity_iter }
    }

    /// The next slot, or `None` once every slot has been yielded.
    pub fn next(&mut self) -> (r: Option<Option<bool>>)
        requires
            old(self).wf(),
        ensures
            final(self).wf(),
            final(self).seq() == old(self).seq(),
            ({
                let p = old(self).pos();
                if p < old(self).seq().len() {
                    &&& r == Some(old(self).seq()[p])
                    &&& final(self).pos() == p + 1
                } else {
                    &&& r is None
                    &&& final(self).pos() == p
                }
            }),
    {
        let value = self.values.next();
        match &mut self.validity {
            Some(it) => {
                let valid = it.next();
                match (value, valid) {
                    (Some(v), Some(b)) => if b {
                        Some(Some(v))
                    } else {
                        Some(None)
                    },
                    _ => None,
                }
            },
            None => match value {
                Some(v) => Some(Some(v)),
                None => None,
            },
        }
    }
}

/// An iterator over the non-null values of an array, skipping null slots.
pub struct NonNullValuesIter {
    values: Bitmap,
    validity: Option<Bitmap>,
    index: usize,
    yielded: Ghost<nat>,
}

impl NonNullValuesIter {
    /// The full null-aware sequence being walked.
    pub closed spec fn full(&self) -> Seq<Option<bool>> {
        zipped(
            self.values@,
            match self.validity {
                Some(v) => Some(v@),
                None => None,
            },
        )
    }

    /// The non-null values this iterator yields.
    pub open spec fn seq(&self) -> Seq<bool> {
        some_values(self.full())
    }

    /// How many values have been yielded.
    pub closed spec fn produced(&self) -> nat {
        self.yielded@
    }

    pub closed spec fn wf(&self) -> bool {
        &&& self.values.wf()
        &&& match self.validity {
            Some(v) => v.wf() && v@.len() == self.values@.len(),
            None => true,
        }
        &&& self.index <= self.values@.len()
        &&& some_values(self.full().take(self.index as int)) == self.seq().take(
            self.yielded@ as int,
        )
        &&& self.yielded@ == some_values(self.full().take(self.index as int)).len()
    }

    /// Starts an iterator over the given values and validity.
    pub fn new(values: Bitmap, validity: Option<Bitmap>) -> (r: Self)
        requires
            values.wf(),
            validity matches Some(v) ==> v.wf() && v@.len() == values@.len(),
        ensures
            r.wf(),
            r.seq() == some_values(
                zipped(
                    values@,
                    match validity {
                        Some(v) => Some(v@),
                        None => None::<Seq<bool>>,
                    },
                ),
            ),
            r.produced() == 0,
    {
        let r = NonNullValuesIter { values, validity, index: 0, yielded: Ghost(0nat) };
        proof {
            assert(r.full().take(0) =~= Seq::<Option<bool>>::empty());
            assert(some_values(r.full().take(0)) =~= r.seq().take(0));
        }
        r
    }

    /// Whether the slot at `i` is null.
    fn is_null_at(&self, i: usize) -> (r: bool)
        requires
            self.wf(),
            i < self.full().len(),
        ensures
            r == (self.full()[i as int] is None),
    {
        match &self.validity {
            Some(v) => !v.get_bit(i),
            None => false,
        }
    }

    /// The next non-null value, or `None` once every one has been
    /// yielded.
    #[verifier::loop_isolation(false)]
    pub fn next(&mut self) -> (r: Option<bool>)
        requires
            old(self).wf(),
        ensures
            final(self).wf(),
            final(self).seq() == old(self).seq(),
            ({
                let y = old(self).produced() as int;
                if y < old(self).seq().len() {
                    &&& r == Some(old(self).seq()[y])
                    &&& final(self).produced() == y + 1
                } else {
                    &&& r is None
                    &&& final(self).produced() == y
                }
            }),
    {
        let len = self.values.len();
        while self.index < len && self.is_null_at(self.index)
            invariant
                self.wf(),
                len == self.values@.len(),
                self.full() == old(self).full(),
                self.yielded@ == old(self).yielded@,
            decreases len - self.index,
        {
            proof {
                lemma_some_values_take_step(self.full(), self.index as int);
            }
            self.index = self.index + 1;
            proof {
                assert(some_values(self.full().take(self.index as int)) == self.seq().take(
                    self.yielded@ as int,
                ));
            }
        }
        if self.index < len {
            let v = self.values.get_bit(self.index);
            proof {
                let i = self.index as int;
                let y = self.yielded@ as int;
                lemma_some_values_take_step(self.full(), i);
                lemma_some_values_split(self.full(), i + 1);
                assert(self.full()[i] == Some(v));
                assert(some_values(self.full().take(i + 1)) == self.seq().take(y).push(v));
                assert(self.seq() == self.seq().take(y).push(v) + some_values(
                    self.full().skip(i + 1),
                ));
                assert(self.seq()[y] == v);
                assert(some_values(self.full().take(i + 1)) =~= self.seq().take(y + 1));
            }
            self.index = self.index + 1;
            self.yielded = Ghost(self.yielded@ + 1);
            Some(v)
        } else {
            proof {
                assert(self.full().take(len as int) =~= self.full());
                assert(self.seq().take(self.yielded@ as int) == self.seq());
                assert(self.yielded@ == self.seq().len());
            }
            None
        }
    }
}

} // verus!
