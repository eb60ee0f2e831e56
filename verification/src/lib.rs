//! Nullable boolean column primitive: an immutable, bit-packed array of
//! optional booleans with zero-copy slicing, structural sharing and
//! clone-on-write mutation, together with its bitmap storage, growable
//! builder and null-aware iterators.

pub mod array;
pub mod bitmap;
pub mod bits;
pub mod combine;
pub mod dtype;
pub mod either;
pub mod error;
pub mod iterator;
pub mod mutable;
pub mod mutable_bitmap;

pub use array::BooleanArray;
pub use bitmap::Bitmap;
pub use combine::{combine_validities_and, combine_validities_or};
pub use dtype::{ArrowDataType, PhysicalType};
pub use either::Either;
pub use error::Error;
pub use iterator::{BitmapIter, NonNullValuesIter, ZipValidity};
pub use mutable::MutableBooleanArray;
pub use mutable_bitmap::MutableBitmap;
