//! A value of one of two alternatives. The clone-on-write conversions return
//! `Left` with the shared, immutable form when the storage could not be
//! reclaimed, and `Right` with the exclusively owned, mutable form when it
//! could.

use vstd::prelude::*;

verus! {

/// Either a left value or a right value.
#[derive(Debug)]
pub enum Either<L, R> {
    Left(L),
    Right(R),
}

} // verus!
