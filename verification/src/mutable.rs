//! The exclusively owned, growable counterpart of the boolean array: an
//! append-only values buffer plus an optional growable validity buffer.
//! The validity buffer is only materialized once the first null is
//! appended; until then its absence means "no nulls yet". Freezing moves
//! the buffers into an immutable array without copying a bit.

use vstd::prelude::*;

use crate::array::{zipped, BooleanArray};
use crate::dtype::{ArrowDataType, PhysicalType};
use crate::error::Error;
use crate::mutable_bitmap::MutableBitmap;

verus! {

/// `e` is the first error of `s`: some slot holds `Err(e)` and every slot
/// before it holds `Ok`.
#[verifier::opaque]
pub open spec fn first_error_is<E>(s: Seq<Result<Option<bool>, E>>, e: E) -> bool {
    exists|k: int|
        {
            &&& 0 <= k < s.len()
            &&& (#[trigger] s[k]) is Err
            &&& s[k]->Err_0 == e
            &&& forall|j: int| 0 <= j < k ==> s[j] is Ok
        }
}

/// An exclusively owned, growable nullable boolean array.
#[derive(Debug)]
pub struct MutableBooleanArray {
    dtype: ArrowDataType,
    values: MutableBitmap,
    validity: Option<MutableBitmap>,
}

impl View for MutableBooleanArray {
    type V = Seq<Option<bool>>;

    open spec fn view(&self) -> Seq<Option<bool>> {
        zipped(self.values_seq(), self.validity_seq())
    }
}

impl MutableBooleanArray {
    /// The logical type tag.
    pub closed spec fn dtype_spec(&self) -> ArrowDataType {
        self.dtype
    }

    /// The bits of the values buffer.
    pub closed spec fn values_seq(&self) -> Seq<bool> {
        self.values@
    }

    /// The bits of the validity buffer, or `None` while no null has been
    /// appended.
    pub closed spec fn validity_seq(&self) -> Option<Seq<bool>> {
        match self.validity {
            Some(v) => Some(v@),
            None => None,
        }
    }

    /// Both buffers are well formed, the validity (when present) is as
    /// long as the values, and the logical type is physically boolean.
    pub closed spec fn wf(&self) -> bool {
        &&& self.values.wf()
        &&& match self.validity {
            Some(v) => v.wf() && v@.len() == self.values@.len(),
            None => true,
        }
        &&& self.dtype.physical_type() == PhysicalType::Boolean
    }

    /// An empty builder of the plain boolean logical type.
    pub fn new() -> (r: Self)
        ensures
            r.wf(),
            r.dtype_spec() == ArrowDataType::Boolean,
            r@ == Seq::<Option<bool>>::empty(),
            r.validity_seq() is None,
    {
        let r = MutableBooleanArray {
            dtype: ArrowDataType::Boolean,
            values: MutableBitmap::new(),
            validity: None,
        };
        proof {
            assert(r@ =~= Seq::<Option<bool>>::empty());
        }
        r
    }

    /// The validating constructor, with the same contract as the
    /// immutable array's.
    pub fn try_new(dtype: ArrowDataType, values: MutableBitmap, validity: Option<MutableBitmap>)
        -> (r: Result<Self, Error>)
        requires
            values.wf(),
            validity matches Some(v) ==> v.wf(),
        ensures
            ({
                let mismatch = validity matches Some(v) && v@.len() != values@.len();
                let wrong = dtype.physical_type() != PhysicalType::Boolean;
                match r {
                    Ok(m) => {
                        &&& !mismatch
                        &&& !wrong
                        &&& m.wf()
                        &&& m.dtype_spec() == dtype
                        &&& m.values_seq() == values@
                        &&& m.validity_seq() == (match validity {
                            Some(v) => Some(v@),
                            None => None::<Seq<bool>>,
                        })
                    },
                    Err(e) => (mismatch || wrong) && e == (if mismatch {
                        Error::ValidityLengthMismatch
                    } else {
                        Error::WrongPhysicalType
                    }),
                }
            }),
    {
        if let Some(v) = &validity {
            if v.len() != values.len() {
                return Err(Error::ValidityLengthMismatch);
            }
        }
        if ArrowDataType::to_physical_type(&dtype) != PhysicalType::Boolean {
            return Err(Error::WrongPhysicalType);
        }
        Ok(MutableBooleanArray { dtype, values, validity })
    }

    /// The number of slots.
    pub fn len(&self) -> (r: usize)
        ensures
            r == self@.len(),
    {
        self.values.len()
    }

    /// Appends one optional boolean. Appending the first `None`
    /// materializes the validity buffer as "all valid so far, then one
    /// null"; a null slot stores `false` as its don't-care values bit.
    pub fn push(&mut self, value: Option<bool>)
        requires
            old(self).wf(),
            old(self)@.len() < usize::MAX,
        ensures
            final(self).wf(),
            final(self).dtype_spec() == old(self).dtype_spec(),
            final(self)@ == old(self)@.push(value),
    {
        match value {
            Some(v) => {
                self.values.push(v);
                match &mut self.validity {
                    Some(bm) => bm.push(true),
                    None => {},
                }
            },
            None => {
                let len = self.values.len();
                self.values.push(false);
                let has_validity = self.validity.is_some();
                if has_validity {
                    match &mut self.validity {
                        Some(bm) => bm.push(false),
                        None => {},
                    }
                } else {
                    let mut bm = MutableBitmap::new();
                    bm.extend_constant(len, true);
                    bm.push(false);
                    proof {
                        assert(bm@ =~= Seq::new((len + 1) as nat, |i: int| i < len));
                    }
                    self.validity = Some(bm);
                }
            },
        }
        proof {
            assert(self@ =~= old(self)@.push(value));
        }
    }

    /// Builds a builder holding every boolean of the slice, all non-null.
    pub fn from_slice(values: &[bool]) -> (r: Self)
        ensures
            r.wf(),
            r.dtype_spec() == ArrowDataType::Boolean,
            r@ == Seq::new(values@.len(), |i: int| Some(values@[i])),
    {
        let mut out = Self::new();
        let mut i: usize = 0;
        while i < values.len()
            invariant
                i <= values@.len(),
                out.wf(),
                out.dtype_spec() == ArrowDataType::Boolean,
                out@ == Seq::new(i as nat, |j: int| Some(values@[j])),
            decreases values@.len() - i,
        {
            out.push(Some(values[i]));
            i = i + 1;
            proof {
                assert(out@ =~= Seq::new(i as nat, |j: int| Some(values@[j])));
            }
        }
        out
    }

    /// Builds a builder from a sequence of booleans whose length is
    /// already known to be exact, all slots non-null.
    pub fn from_trusted_len_values_iter(values: &[bool]) -> (r: Self)
        ensures
            r.wf(),
            r.dtype_spec() == ArrowDataType::Boolean,
            r@ == Seq::new(values@.len(), |i: int| Some(values@[i])),
    {
        Self::from_slice(values)
    }

    /// Builds a builder from a sequence of optional booleans whose length
    /// is already known to be exact.
    pub fn from_trusted_len_iter(items: &[Option<bool>]) -> (r: Self)
        ensures
            r.wf(),
            r.dtype_spec() == ArrowDataType::Boolean,
            r@ == items@,
    {
        let mut out = Self::new();
        let mut i: usize = 0;
        while i < items.len()
            invariant
                i <= items@.len(),
                out.wf(),
                out.dtype_spec() == ArrowDataType::Boolean,
                out@ == items@.take(i as int),
            decreases items@.len() - i,
        {
            out.push(items[i]);
            i = i + 1;
            proof {
                assert(out@ =~= items@.take(i as int));
            }
        }
        proof {
            assert(items@.take(items@.len() as int) =~= items@);
        }
        out
    }

    /// Builds a builder from fallible items: the first error aborts the
    /// whole construction and is returned, leaving no partial result
    /// observable.
    #[verifier::loop_isolation(false)]
    pub fn try_from_trusted_len_iter<E>(items: Vec<Result<Option<bool>, E>>) -> (r: Result<
        Self,
        E,
    >)
        ensures
            match r {
                Ok(m) => {
                    &&& m.wf()
                    &&& m.dtype_spec() == ArrowDataType::Boolean
                    &&& (forall|i: int| 0 <= i < items@.len() ==> items@[i] is Ok)
                    &&& m@ == Seq::new(items@.len(), |i: int| items@[i]->Ok_0)
                },
                Err(e) => first_error_is(items@, e),
            },
    {
        let ghost orig = items@;
        let mut rest = items;
        let n = rest.len();
        proof {
            assert(orig.len() == n);
        }
        let mut out = Self::new();
        let mut done: usize = 0;
        while rest.len() > 0
            invariant
                out.wf(),
                out.dtype_spec() == ArrowDataType::Boolean,
                orig.len() <= usize::MAX,
                done + rest@.len() == orig.len(),
                rest@ == orig.subrange(done as int, orig.len() as int),
                forall|j: int| 0 <= j < done ==> (#[trigger] orig[j]) is Ok,
                out@ == Seq::new(done as nat, |i: int| orig[i]->Ok_0),
            decreases rest@.len(),
        {
            let item = rest.remove(0);
            proof {
                assert(item == orig[done as int]);
                assert(rest@ =~= orig.subrange(done + 1, orig.len() as int));
            }
            match item {
                Ok(v) => {
                    out.push(v);
                    done = done + 1;
                    proof {
                        assert(out@ =~= Seq::new(done as nat, |i: int| orig[i]->Ok_0));
                    }
                },
                Err(e) => {
                    proof {
                        let k = done as int;
                        assert((#[trigger] orig[k]) is Err && orig[k]->Err_0 == e);
                        assert(forall|j: int| 0 <= j < k ==> orig[j] is Ok);
                        reveal(first_error_is);
                        assert(first_error_is(orig, e));
                    }
                    return Err(e);
                },
            }
        }
        proof {
            assert(out@ =~= Seq::new(orig.len(), |i: int| orig[i]->Ok_0));
        }
        Ok(out)
    }

    /// Freezes this builder into an immutable array: the buffers move,
    /// no bit is copied.
    pub fn freeze(self) -> (r: BooleanArray)
        requires
            self.wf(),
        ensures
            r.wf(),
            r.dtype_spec() == self.dtype_spec(),
            r.values_seq() == self.values_seq(),
            r.validity_seq() == self.validity_seq(),
            r@ == self@,
    {
        let MutableBooleanArray { dtype, values, validity } = self;
        let values = values.freeze();
        let validity = match validity {
            Some(v) => Some(v.freeze()),
            None => None,
        };
        BooleanArray::new(dtype, values, validity)
    }
}

} // verus!
