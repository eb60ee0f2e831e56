//! Recoverable construction errors. Both are compute errors raised by the
//! validating constructors; every other contract violation is excluded by a
//! precondition instead of raised at run time.

use vstd::prelude::*;

verus! {

/// A recoverable error from a validating constructor.
#[derive(Clone, Copy, PartialEq, Eq, Structural, Debug)]
pub enum Error {
    /// The validity mask is present and its length differs from the length
    /// of the values bitmap.
    ValidityLengthMismatch,
    /// The logical type's physical representation is not boolean.
    WrongPhysicalType,
}

impl Error {
    /// A human-readable description of the error.
    pub fn message(&self) -> String {
        match self {
            Error::ValidityLengthMismatch => "validity mask length must match the number of values"
                .to_string(),
            Error::WrongPhysicalType => "BooleanArray can only be initialized with a DataType whose physical type is Boolean"
                .to_string(),
        }
    }
}

} // verus!
