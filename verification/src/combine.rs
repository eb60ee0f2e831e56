//! Combining two optional validity masks into one: bitwise `and` and
//! bitwise `or`, with absence meaning "all valid".

use vstd::prelude::*;

use crate::bitmap::Bitmap;
use crate::mutable_bitmap::MutableBitmap;

verus! {

/// The bitwise `and` of two equal-length bitmaps.
fn and_bitmaps(lhs: &Bitmap, rhs: &Bitmap) -> (out: Bitmap)
    requires
        lhs.wf(),
        rhs.wf(),
        lhs@.len() == rhs@.len(),
    ensures
        out.wf(),
        out@ == Seq::new(lhs@.len(), |i: int| lhs@[i] && rhs@[i]),
{
    let len = lhs.len();
    let mut m = MutableBitmap::new();
    let mut i: usize = 0;
    while i < len
        invariant
            i <= len,
            len == lhs@.len() == rhs@.len(),
            lhs.wf(),
            rhs.wf(),
            m.wf(),
            m@ == Seq::new(i as nat, |j: int| lhs@[j] && rhs@[j]),
        decreases len - i,
    {
        m.push(lhs.get_bit(i) && rhs.get_bit(i));
        i = i + 1;
        proof {
            assert(m@ =~= Seq::new(i as nat, |j: int| lhs@[j] && rhs@[j]));
        }
    }
    m.freeze()
}

/// The bitwise `or` of two equal-length bitmaps.
fn or_bitmaps(lhs: &Bitmap, rhs: &Bitmap) -> (out: Bitmap)
    requires
        lhs.wf(),
        rhs.wf(),
        lhs@.len() == rhs@.len(),
    ensures
        out.wf(),
        out@ == Seq::new(lhs@.len(), |i: int| lhs@[i] || rhs@[i]),
{
    let len = lhs.len();
    let mut m = MutableBitmap::new();
    let mut i: usize = 0;
    while i < len
        invariant
            i <= len,
            len == lhs@.len() == rhs@.len(),
            lhs.wf(),
            rhs.wf(),
            m.wf(),
            m@ == Seq::new(i as nat, |j: int| lhs@[j] || rhs@[j]),
        decreases len - i,
    {
        m.push(lhs.get_bit(i) || rhs.get_bit(i));
        i = i + 1;
        proof {
            assert(m@ =~= Seq::new(i as nat, |j: int| lhs@[j] || rhs@[j]));
        }
    }
    m.freeze()
}

/// Combines two optional validity masks by bitwise `and`: a slot is valid
/// in the result when it is valid under both masks. Returns `None` when
/// both masks are absent.
pub fn combine_validities_and(lhs: Option<&Bitmap>, rhs: Option<&Bitmap>) -> (r: Option<Bitmap>)
    requires
        lhs matches Some(l) ==> l.wf(),
        rhs matches Some(b) ==> b.wf(),
        lhs matches Some(l) ==> (rhs matches Some(b) ==> l@.len() == b@.len()),
    ensures
        match (lhs, rhs) {
            (Some(l), Some(b)) => r matches Some(out) && out.wf() && out@ == Seq::new(
                l@.len(),
                |i: int| l@[i] && b@[i],
            ),
            (Some(l), None) => r matches Some(out) && out.wf() && out@ == l@,
            (None, Some(b)) => r matches Some(out) && out.wf() && out@ == b@,
            (None, None) => r is None,
        },
{
    match (lhs, rhs) {
        (Some(l), Some(b)) => Some(and_bitmaps(l, b)),
        (Some(l), None) => Some(l.clone()),
        (None, Some(b)) => Some(b.clone()),
        (None, None) => None,
    }
}

/// Combines two optional validity masks by bitwise `or`: a slot is valid
/// in the result when it is valid under either mask. Returns `None` when
/// both masks are absent.
pub fn combine_validities_or(lhs: Option<&Bitmap>, rhs: Option<&Bitmap>) -> (r: Option<Bitmap>)
    requires
        lhs matches Some(l) ==> l.wf(),
        rhs matches Some(b) ==> b.wf(),
        lhs matches Some(l) ==> (rhs matches Some(b) ==> l@.len() == b@.len()),
    ensures
        match (lhs, rhs) {
            (Some(l), Some(b)) => r matches Some(out) && out.wf() && out@ == Seq::new(
                l@.len(),
                |i: int| l@[i] || b@[i],
            ),
            (Some(l), None) => r matches Some(out) && out.wf() && out@ == l@,
            (None, Some(b)) => r matches Some(out) && out.wf() && out@ == b@,
            (None, None) => r is None,
        },
{
    match (lhs, rhs) {
        (Some(l), Some(b)) => Some(or_bitmaps(l, b)),
        (Some(l), None) => Some(l.clone()),
        (None, Some(b)) => Some(b.clone()),
        (None, None) => None,
    }
}

} // verus!
