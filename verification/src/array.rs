//! The immutable nullable boolean array: a values bitmap, an optional
//! validity bitmap of the same length, and a logical type tag whose
//! physical representation is boolean. The array is an immutable
//! `Vec<Option<bool>>` of constant-size handle: cloning and slicing share
//! the backing buffers, and mutation goes through explicit clone-on-write
//! conversions.

use vstd::prelude::*;
use vstd::pervasive::unreached;

use crate::bitmap::Bitmap;
use crate::bits::{count_false, lemma_count_false_zero};
use crate::combine::combine_validities_and;
use crate::dtype::{ArrowDataType, PhysicalType};
use crate::either::Either;
use crate::error::Error;
use crate::iterator::{some_values, BitmapIter, NonNullValuesIter, ZipValidity};
use crate::mutable::{first_error_is, MutableBooleanArray};
use crate::mutable_bitmap::MutableBitmap;

verus! {

/// The sequence of optional booleans described by a values sequence and an
/// optional validity sequence: a slot whose validity bit is unset is null,
/// every other slot holds its values bit, and an absent validity means
/// every slot is non-null.
pub open spec fn zipped(values: Seq<bool>, validity: Option<Seq<bool>>) -> Seq<Option<bool>> {
    Seq::new(
        values.len(),
        |i: int|
            match validity {
                Some(v) => if v[i] {
                    Some(values[i])
                } else {
                    None
                },
                None => Some(values[i]),
            },
    )
}

/// The contents of an optional bitmap.
pub open spec fn opt_view(validity: Option<Bitmap>) -> Option<Seq<bool>> {
    match validity {
        Some(v) => Some(v@),
        None => None,
    }
}

/// Law of reading one slot: a slot is null exactly when a validity is
/// present with that slot's bit unset; every other slot holds its values
/// bit.
pub proof fn lemma_get_semantics(a: BooleanArray, i: int)
    requires
        0 <= i < a@.len(),
    ensures
        (a@[i] is None) <==> (a.validity_seq() matches Some(v) && !v[i]),
        a@[i] is Some ==> a@[i] == Some(a.values_seq()[i]),
{
}

/// An immutable, bit-packed array of optional booleans.
#[derive(Debug)]
pub struct BooleanArray {
    dtype: ArrowDataType,
    values: Bitmap,
    validity: Option<Bitmap>,
}

impl View for BooleanArray {
    type V = Seq<Option<bool>>;

    open spec fn view(&self) -> Seq<Option<bool>> {
        zipped(self.values_seq(), self.validity_seq())
    }
}

impl Clone for BooleanArray {
    /// Shares both backing buffers; no byte is copied.
    fn clone(&self) -> (r: Self)
        ensures
            r == *self,
    {
        BooleanArray {
            dtype: self.dtype,
            values: self.values.clone(),
            validity: match &self.validity {
                Some(v) => Some(v.clone()),
                None => None,
            },
        }
    }
}

impl BooleanArray {
    /// The logical type tag.
    pub closed spec fn dtype_spec(&self) -> ArrowDataType {
        self.dtype
    }

    /// The bits of the values bitmap. At a null slot the bit is a stored
    /// "don't care"; the view exposes it only at non-null slots.
    pub closed spec fn values_seq(&self) -> Seq<bool> {
        self.values@
    }

    /// The bits of the validity bitmap, or `None` when every slot is
    /// non-null.
    pub closed spec fn validity_seq(&self) -> Option<Seq<bool>> {
        match self.validity {
            Some(v) => Some(v@),
            None => None,
        }
    }

    /// Both bitmaps are well formed, the validity (when present) is as
    /// long as the values, and the logical type is physically boolean.
    pub closed spec fn wf(&self) -> bool {
        &&& self.values.wf()
        &&& match self.validity {
            Some(v) => v.wf() && v@.len() == self.values@.len(),
            None => true,
        }
        &&& self.dtype.physical_type() == PhysicalType::Boolean
    }

    /// The canonical validating constructor. Fails when the validity is
    /// present with a different length than the values, or when the
    /// logical type is not physically boolean; succeeds on every other
    /// input.
    pub fn try_new(dtype: ArrowDataType, values: Bitmap, validity: Option<Bitmap>) -> (r: Result<
        Self,
        Error,
    >)
        requires
            values.wf(),
            validity matches Some(v) ==> v.wf(),
        ensures
            ({
                let mismatch = validity matches Some(v) && v@.len() != values@.len();
                let wrong = dtype.physical_type() != PhysicalType::Boolean;
                match r {
                    Ok(a) => {
                        &&& !mismatch
                        &&& !wrong
                        &&& a.wf()
                        &&& a.dtype_spec() == dtype
                        &&& a.values_seq() == values@
                        &&& a.validity_seq() == opt_view(validity)
                    },
                    Err(e) => (mismatch || wrong) && e == (if mismatch {
                        Error::ValidityLengthMismatch
                    } else {
                        Error::WrongPhysicalType
                    }),
                }
            }),
    {
        if let Some(v) = &validity {
            if v.len() != values.len() {
                return Err(Error::ValidityLengthMismatch);
            }
        }
        if ArrowDataType::to_physical_type(&dtype) != PhysicalType::Boolean {
            return Err(Error::WrongPhysicalType);
        }
        Ok(BooleanArray { dtype, values, validity })
    }

    /// [`BooleanArray::try_new`] for callers that have already established
    /// both conditions.
    pub fn new(dtype: ArrowDataType, values: Bitmap, validity: Option<Bitmap>) -> (r: Self)
        requires
            values.wf(),
            validity matches Some(v) ==> v.wf() && v@.len() == values@.len(),
            dtype.physical_type() == PhysicalType::Boolean,
        ensures
            r.wf(),
            r.dtype_spec() == dtype,
            r.values_seq() == values@,
            r.validity_seq() == opt_view(validity),
    {
        match Self::try_new(dtype, values, validity) {
            Ok(a) => a,
            Err(_) => unreached(),
        }
    }

    /// The number of slots.
    pub fn len(&self) -> (r: usize)
        ensures
            r == self@.len(),
    {
        self.values.len()
    }

    /// The values bitmap. Bits at null slots are undetermined.
    pub fn values(&self) -> (r: &Bitmap)
        requires
            self.wf(),
        ensures
            r.wf(),
            r@ == self.values_seq(),
    {
        &self.values
    }

    /// The optional validity bitmap.
    pub fn validity(&self) -> (r: Option<&Bitmap>)
        requires
            self.wf(),
        ensures
            match r {
                Some(v) => v.wf() && self.validity_seq() == Some(v@),
                None => self.validity_seq() is None,
            },
    {
        self.validity.as_ref()
    }

    /// The logical type tag.
    pub fn dtype(&self) -> (r: &ArrowDataType)
        ensures
            *r == self.dtype_spec(),
    {
        &self.dtype
    }

    /// The values bit at slot `i`; the index must be in bounds.
    pub fn value(&self, i: usize) -> (r: bool)
        requires
            self.wf(),
            i < self@.len(),
        ensures
            r == self.values_seq()[i as int],
    {
        self.values.get_bit(i)
    }

    /// The values bit at slot `i`; the caller guarantees the bound.
    pub fn value_unchecked(&self, i: usize) -> (r: bool)
        requires
            self.wf(),
            i < self@.len(),
        ensures
            r == self.values_seq()[i as int],
    {
        self.values.get_bit_unchecked(i)
    }

    /// Whether slot `i` is null.
    pub fn is_null(&self, i: usize) -> (r: bool)
        requires
            self.wf(),
            i < self@.len(),
        ensures
            r == (self@[i as int] is None),
    {
        match &self.validity {
            Some(v) => !v.get_bit(i),
            None => false,
        }
    }

    /// The slot at index `i`: `None` exactly when the slot is null, and
    /// its values bit otherwise. The null check comes first; the values
    /// bit of a null slot never reaches the caller.
    pub fn get(&self, i: usize) -> (r: Option<bool>)
        requires
            self.wf(),
            i < self@.len(),
        ensures
            r == self@[i as int],
    {
        if !self.is_null(i) {
            Some(self.value_unchecked(i))
        } else {
            None
        }
    }

    /// Restricts this array in place to the window of `length` slots
    /// starting at `offset`. Both bitmaps stay shared; when the window
    /// holds no null slot the validity collapses to `None`, keeping
    /// "no validity mask" the canonical form of "all valid".
    pub fn slice(&mut self, offset: usize, length: usize)
        requires
            old(self).wf(),
            offset + length <= old(self)@.len(),
        ensures
            final(self).wf(),
            final(self)@ == old(self)@.subrange(offset as int, offset + length),
            final(self).dtype_spec() == old(self).dtype_spec(),
            final(self).values_seq() == old(self).values_seq().subrange(
                offset as int,
                offset + length,
            ),
            final(self).validity_seq() == ({
                match old(self).validity_seq() {
                    Some(v) => {
                        let w = v.subrange(offset as int, offset + length);
                        if count_false(w) == 0 {
                            None::<Seq<bool>>
                        } else {
                            Some(w)
                        }
                    },
                    None => None::<Seq<bool>>,
                }
            }),
    {
        let ghost o = offset as int;
        let taken = self.validity.take();
        match taken {
            Some(mut v) => {
                v.slice(offset, length);
                if v.unset_bits() > 0 {
                    self.validity = Some(v);
                } else {
                    proof {
                        lemma_count_false_zero(v@);
                    }
                    self.validity = None;
                }
            },
            None => {},
        }
        self.values.slice(offset, length);
        proof {
            assert forall|j: int| 0 <= j < length implies self@[j] == old(self)@[o + j] by {
                match old(self).validity_seq() {
                    Some(vs) => {
                        let w = vs.subrange(o, o + length);
                        if self.validity_seq() is None {
                            assert(w[j]);
                            assert(vs[o + j] == w[j]);
                        } else {
                            assert(self.validity_seq() == Some(w));
                            assert(w[j] == vs[o + j]);
                        }
                    },
                    None => {},
                }
            }
            assert(self@ =~= old(self)@.subrange(o, o + length));
        }
    }

    /// [`BooleanArray::slice`]; the caller guarantees the bounds.
    pub fn slice_unchecked(&mut self, offset: usize, length: usize)
        requires
            old(self).wf(),
            offset + length <= old(self)@.len(),
        ensures
            final(self).wf(),
            final(self)@ == old(self)@.subrange(offset as int, offset + length),
            final(self).dtype_spec() == old(self).dtype_spec(),
            final(self).values_seq() == old(self).values_seq().subrange(
                offset as int,
                offset + length,
            ),
            final(self).validity_seq() == ({
                match old(self).validity_seq() {
                    Some(v) => {
                        let w = v.subrange(offset as int, offset + length);
                        if count_false(w) == 0 {
                            None::<Seq<bool>>
                        } else {
                            Some(w)
                        }
                    },
                    None => None::<Seq<bool>>,
                }
            }),
    {
        self.slice(offset, length);
    }

    /// Returns the window of `length` slots starting at `offset`,
    /// consuming this array.
    pub fn sliced(self, offset: usize, length: usize) -> (r: Self)
        requires
            self.wf(),
            offset + length <= self@.len(),
        ensures
            r.wf(),
            r@ == self@.subrange(offset as int, offset + length),
            r.dtype_spec() == self.dtype_spec(),
    {
        let mut out = self;
        out.slice(offset, length);
        out
    }

    /// [`BooleanArray::sliced`]; the caller guarantees the bounds.
    pub fn sliced_unchecked(self, offset: usize, length: usize) -> (r: Self)
        requires
            self.wf(),
            offset + length <= self@.len(),
        ensures
            r.wf(),
            r@ == self@.subrange(offset as int, offset + length),
            r.dtype_spec() == self.dtype_spec(),
    {
        self.sliced(offset, length)
    }

    /// Splits this array into the windows `[0, offset)` and
    /// `[offset, len)`. Both halves share the backing buffers, and their
    /// slot sequences concatenate back to this array's.
    pub fn split_at(&self, offset: usize) -> (r: (Self, Self))
        requires
            self.wf(),
            offset <= self@.len(),
        ensures
            r.0.wf(),
            r.1.wf(),
            r.0.dtype_spec() == self.dtype_spec(),
            r.1.dtype_spec() == self.dtype_spec(),
            r.0@ == self@.subrange(0, offset as int),
            r.1@ == self@.subrange(offset as int, self@.len() as int),
            r.0@ + r.1@ == self@,
    {
        let (lhs_values, rhs_values) = self.values.split_at(offset);
        let (lhs_validity, rhs_validity) = match &self.validity {
            Some(v) => {
                let (l, r) = v.split_at(offset);
                (Some(l), Some(r))
            },
            None => (None, None),
        };
        let lhs = BooleanArray { dtype: self.dtype, values: lhs_values, validity: lhs_validity };
        let rhs = BooleanArray { dtype: self.dtype, values: rhs_values, validity: rhs_validity };
        proof {
            assert(lhs@ =~= self@.subrange(0, offset as int));
            assert(rhs@ =~= self@.subrange(offset as int, self@.len() as int));
            assert(lhs@ + rhs@ =~= self@);
        }
        (lhs, rhs)
    }

    /// [`BooleanArray::split_at`]; the caller guarantees the bound.
    pub fn split_at_unchecked(&self, offset: usize) -> (r: (Self, Self))
        requires
            self.wf(),
            offset <= self@.len(),
        ensures
            r.0.wf(),
            r.1.wf(),
            r.0.dtype_spec() == self.dtype_spec(),
            r.1.dtype_spec() == self.dtype_spec(),
            r.0@ == self@.subrange(0, offset as int),
            r.1@ == self@.subrange(offset as int, self@.len() as int),
            r.0@ + r.1@ == self@,
    {
        self.split_at(offset)
    }

    /// A clone of this array with its values bitmap replaced; the new
    /// values must have this array's length.
    pub fn with_values(&self, values: Bitmap) -> (r: Self)
        requires
            self.wf(),
            values.wf(),
            values@.len() == self@.len(),
        ensures
            r.wf(),
            r.dtype_spec() == self.dtype_spec(),
            r.values_seq() == values@,
            r.validity_seq() == self.validity_seq(),
    {
        let mut out = self.clone();
        out.set_values(values);
        out
    }

    /// Replaces the values bitmap; the new values must have this array's
    /// length.
    pub fn set_values(&mut self, values: Bitmap)
        requires
            old(self).wf(),
            values.wf(),
            values@.len() == old(self)@.len(),
        ensures
            final(self).wf(),
            final(self).dtype_spec() == old(self).dtype_spec(),
            final(self).values_seq() == values@,
            final(self).validity_seq() == old(self).validity_seq(),
    {
        self.values = values;
    }

    /// A clone of this array with its validity replaced; a present
    /// validity must have this array's length.
    pub fn with_validity(&self, validity: Option<Bitmap>) -> (r: Self)
        requires
            self.wf(),
            validity matches Some(v) ==> v.wf() && v@.len() == self@.len(),
        ensures
            r.wf(),
            r.dtype_spec() == self.dtype_spec(),
            r.values_seq() == self.values_seq(),
            r.validity_seq() == opt_view(validity),
    {
        let mut out = self.clone();
        out.set_validity(validity);
        out
    }

    /// Replaces the validity; a present validity must have this array's
    /// length.
    pub fn set_validity(&mut self, validity: Option<Bitmap>)
        requires
            old(self).wf(),
            validity matches Some(v) ==> v.wf() && v@.len() == old(self)@.len(),
        ensures
            final(self).wf(),
            final(self).dtype_spec() == old(self).dtype_spec(),
            final(self).values_seq() == old(self).values_seq(),
            final(self).validity_seq() == opt_view(validity),
    {
        self.validity = validity;
    }

    /// Applies `f` to the values bitmap under the clone-on-write
    /// discipline: the buffer is reclaimed when exclusively owned and
    /// copied otherwise, so `f` always observes the same bits either way
    /// and the outcome is exactly "copy values, apply `f`, replace".
    /// When a validity is present, `f` must preserve the length.
    pub fn apply_values_mut<F: Fn(MutableBitmap) -> MutableBitmap>(&mut self, f: F)
        requires
            old(self).wf(),
            forall|m: MutableBitmap|
                m.wf() && m@ == old(self).values_seq() ==> call_requires(f, (m,)),
            forall|m: MutableBitmap, out: MutableBitmap|
                #[trigger] call_ensures(f, (m,), out) ==> out.wf(),
            old(self).validity_seq() is Some ==> forall|m: MutableBitmap, out: MutableBitmap|
                m@ == old(self).values_seq() && #[trigger] call_ensures(f, (m,), out)
                    ==> out@.len() == m@.len(),
        ensures
            final(self).wf(),
            final(self).dtype_spec() == old(self).dtype_spec(),
            final(self).validity_seq() == old(self).validity_seq(),
            exists|m: MutableBitmap, out: MutableBitmap|
                {
                    &&& m.wf()
                    &&& m@ == old(self).values_seq()
                    &&& #[trigger] call_ensures(f, (m,), out)
                    &&& final(self).values_seq() == out@
                },
    {
        let mut taken = Bitmap::new();
        core::mem::swap(&mut taken, &mut self.values);
        let m = taken.make_mut();
        let ghost gm = m;
        let out = f(m);
        let ghost gout = out;
        self.values = out.freeze();
        proof {
            assert(call_ensures(f, (gm,), gout));
        }
    }

    /// Tries to reclaim both bitmaps for exclusive mutation: the validity
    /// is tested first, then the values, and only when both are uniquely
    /// owned does the array become a mutable builder without copying.
    /// Otherwise the original immutable array comes back unchanged.
    pub fn into_mut(self) -> (r: Either<Self, MutableBooleanArray>)
        requires
            self.wf(),
        ensures
            match r {
                Either::Left(a) => {
                    &&& a.wf()
                    &&& a.dtype_spec() == self.dtype_spec()
                    &&& a.values_seq() == self.values_seq()
                    &&& a.validity_seq() == self.validity_seq()
                },
                Either::Right(m) => {
                    &&& m.wf()
                    &&& m.dtype_spec() == self.dtype_spec()
                    &&& m@ == self@
                },
            },
    {
        let BooleanArray { dtype, values, validity } = self;
        if let Some(bitmap) = validity {
            match bitmap.into_mut() {
                Either::Left(bitmap) => Either::Left(
                    BooleanArray::new(dtype, values, Some(bitmap)),
                ),
                Either::Right(mutable_bitmap) => match values.into_mut() {
                    Either::Left(immutable) => Either::Left(
                        BooleanArray::new(dtype, immutable, Some(mutable_bitmap.freeze())),
                    ),
                    Either::Right(mutable) => match MutableBooleanArray::try_new(
                        dtype,
                        mutable,
                        Some(mutable_bitmap),
                    ) {
                        Ok(m) => Either::Right(m),
                        Err(_) => unreached(),
                    },
                },
            }
        } else {
            match values.into_mut() {
                Either::Left(immutable) => Either::Left(BooleanArray::new(dtype, immutable, None)),
                Either::Right(mutable) => match MutableBooleanArray::try_new(
                    dtype,
                    mutable,
                    None,
                ) {
                    Ok(m) => Either::Right(m),
                    Err(_) => unreached(),
                },
            }
        }
    }

    /// An empty array.
    pub fn new_empty(dtype: ArrowDataType) -> (r: Self)
        requires
            dtype.physical_type() == PhysicalType::Boolean,
        ensures
            r.wf(),
            r.dtype_spec() == dtype,
            r@ == Seq::<Option<bool>>::empty(),
    {
        let r = Self::new(dtype, Bitmap::new(), None);
        proof {
            assert(r@ =~= Seq::<Option<bool>>::empty());
        }
        r
    }

    /// An all-null array: the values bitmap and the validity bitmap are
    /// one and the same all-zero bitmap, sharing storage.
    pub fn new_null(dtype: ArrowDataType, length: usize) -> (r: Self)
        requires
            dtype.physical_type() == PhysicalType::Boolean,
            length <= usize::MAX - 7,
        ensures
            r.wf(),
            r.dtype_spec() == dtype,
            r@ == Seq::new(length as nat, |i: int| None::<bool>),
            r.validity_seq() == Some(Seq::new(length as nat, |i: int| false)),
    {
        let bitmap = Bitmap::new_zeroed(length);
        let r = Self::new(dtype, bitmap.clone(), Some(bitmap));
        proof {
            assert(r@ =~= Seq::new(length as nat, |i: int| None::<bool>));
        }
        r
    }

    /// The bitmap whose bit `i` is set exactly when slot `i` is `true`
    /// and non-null: nulls count as `false`.
    pub fn true_and_valid(&self) -> (r: Bitmap)
        requires
            self.wf(),
        ensures
            r.wf(),
            r@.len() == self@.len(),
            forall|i: int| 0 <= i < self@.len() ==> r@[i] == (self@[i] == Some(true)),
    {
        match &self.validity {
            None => self.values.clone(),
            Some(validity) => match combine_validities_and(Some(&self.values), Some(validity)) {
                Some(b) => b,
                None => unreached(),
            },
        }
    }

    /// The bitmap whose bit `i` is set exactly when slot `i` is `true`
    /// or null: nulls count as `true`. With no validity present the
    /// result is the plain values bitmap.
    pub fn true_or_valid(&self) -> (r: Bitmap)
        requires
            self.wf(),
        ensures
            r.wf(),
            r@.len() == self@.len(),
            forall|i: int| 0 <= i < self@.len() ==> r@[i] == (self@[i] != Some(false)),
    {
        match &self.validity {
            None => self.values.clone(),
            Some(validity) => {
                let len = self.values.len();
                let mut m = MutableBitmap::new();
                let mut i: usize = 0;
                while i < len
                    invariant
                        i <= len,
                        self.wf(),
                        validity.wf(),
                        self.validity_seq() == Some(validity@),
                        len == self@.len(),
                        validity@.len() == len,
                        m.wf(),
                        m@ == Seq::new(i as nat, |j: int| self@[j] != Some(false)),
                    decreases len - i,
                {
                    m.push(self.values.get_bit(i) || !validity.get_bit(i));
                    i = i + 1;
                    proof {
                        assert(m@ =~= Seq::new(i as nat, |j: int| self@[j] != Some(false)));
                    }
                }
                let out = m.freeze();
                out
            },
        }
    }

    /// A lazy, restartable iterator over the optional values, pairing the
    /// values bits with the validity bits; it yields exactly `len()`
    /// slots.
    pub fn iter(&self) -> (r: ZipValidity)
        requires
            self.wf(),
        ensures
            r.wf(),
            r.seq() == self@,
            r.pos() == 0,
    {
        ZipValidity::new_with_validity(self.values_iter(), self.validity())
    }

    /// A lazy iterator over the raw values bits, ignoring nullness.
    pub fn values_iter(&self) -> (r: BitmapIter)
        requires
            self.wf(),
        ensures
            r.wf(),
            r.seq() == self.values_seq(),
            r.pos() == 0,
    {
        BitmapIter::new(self.values.clone())
    }

    /// A lazy iterator over the non-null values only.
    pub fn non_null_values_iter(&self) -> (r: NonNullValuesIter)
        requires
            self.wf(),
        ensures
            r.wf(),
            r.seq() == some_values(self@),
            r.produced() == 0,
    {
        NonNullValuesIter::new(
            self.values.clone(),
            match &self.validity {
                Some(v) => Some(v.clone()),
                None => None,
            },
        )
    }

    /// An array of plain booleans, all non-null.
    pub fn from_slice(slice: &[bool]) -> (r: Self)
        ensures
            r.wf(),
            r.dtype_spec() == ArrowDataType::Boolean,
            r@ == Seq::new(slice@.len(), |i: int| Some(slice@[i])),
    {
        MutableBooleanArray::from_slice(slice).freeze()
    }

    /// An array of plain booleans whose count is already known to be
    /// exact, all non-null.
    pub fn from_trusted_len_values_iter(values: &[bool]) -> (r: Self)
        ensures
            r.wf(),
            r.dtype_spec() == ArrowDataType::Boolean,
            r@ == Seq::new(values@.len(), |i: int| Some(values@[i])),
    {
        MutableBooleanArray::from_trusted_len_values_iter(values).freeze()
    }

    /// An array of optional booleans whose count is already known to be
    /// exact.
    pub fn from_trusted_len_iter(items: &[Option<bool>]) -> (r: Self)
        ensures
            r.wf(),
            r.dtype_spec() == ArrowDataType::Boolean,
            r@ == items@,
    {
        MutableBooleanArray::from_trusted_len_iter(items).freeze()
    }

    /// An array built from fallible items: the first error aborts the
    /// whole construction and is returned, leaving no partial array
    /// observable.
    pub fn try_from_trusted_len_iter<E>(items: Vec<Result<Option<bool>, E>>) -> (r: Result<
        Self,
        E,
    >)
        ensures
            match r {
                Ok(a) => {
                    &&& a.wf()
                    &&& a.dtype_spec() == ArrowDataType::Boolean
                    &&& (forall|i: int| 0 <= i < items@.len() ==> items@[i] is Ok)
                    &&& a@ == Seq::new(items@.len(), |i: int| items@[i]->Ok_0)
                },
                Err(e) => first_error_is(items@, e),
            },
    {
        match MutableBooleanArray::try_from_trusted_len_iter(items) {
            Ok(m) => Ok(m.freeze()),
            Err(e) => Err(e),
        }
    }

    /// Decomposes this array into its logical type, values bitmap and
    /// optional validity bitmap.
    pub fn into_inner(self) -> (r: (ArrowDataType, Bitmap, Option<Bitmap>))
        requires
            self.wf(),
        ensures
            r.0 == self.dtype_spec(),
            r.1.wf(),
            r.1@ == self.values_seq(),
            r.2 matches Some(v) ==> v.wf(),
            opt_view(r.2) == self.validity_seq(),
            r.0.physical_type() == PhysicalType::Boolean,
    {
        let BooleanArray { dtype, values, validity } = self;
        (dtype, values, validity)
    }

    /// Law of the bitmap conversion: `BooleanArray::from` wraps a values
    /// bitmap as an all-valid array of the plain boolean logical type.
    pub proof fn lemma_from_bitmap(values: Bitmap)
        ensures
            ({
                let a = <BooleanArray as vstd::std_specs::convert::FromSpec<Bitmap>>::from_spec(
                    values,
                );
                &&& a.dtype_spec() == ArrowDataType::Boolean
                &&& a.values_seq() == values@
                &&& a.validity_seq() is None
                &&& values.wf() ==> a.wf()
            }),
    {
    }

    /// Recomposes an array from its parts, the inverse of
    /// [`BooleanArray::into_inner`]; the caller guarantees the invariants
    /// that [`BooleanArray::try_new`] would have checked.
    pub fn from_inner_unchecked(
        dtype: ArrowDataType,
        values: Bitmap,
        validity: Option<Bitmap>,
    ) -> (r: Self)
        requires
            values.wf(),
            validity matches Some(v) ==> v.wf() && v@.len() == values@.len(),
            dtype.physical_type() == PhysicalType::Boolean,
        ensures
            r.wf(),
            r.dtype_spec() == dtype,
            r.values_seq() == values@,
            r.validity_seq() == opt_view(validity),
    {
        BooleanArray { dtype, values, validity }
    }
}

impl From<Bitmap> for BooleanArray {
    /// Wraps a values bitmap as an all-valid array of the plain boolean
    /// logical type.
    fn from(values: Bitmap) -> (r: BooleanArray) {
        BooleanArray { dtype: ArrowDataType::Boolean, values, validity: None }
    }
}

impl vstd::std_specs::convert::FromSpecImpl<Bitmap> for BooleanArray {
    open spec fn obeys_from_spec() -> bool {
        true
    }

    closed spec fn from_spec(values: Bitmap) -> BooleanArray {
        BooleanArray { dtype: ArrowDataType::Boolean, values, validity: None }
    }
}

} // verus!
