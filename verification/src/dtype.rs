//! Logical type tags and their physical representation. The array stores a
//! logical type as an opaque value and only ever asks for its physical type,
//! which must be boolean for a boolean array.

use vstd::prelude::*;

verus! {

/// The physical, bit-level representation behind a logical type.
#[derive(Clone, Copy, PartialEq, Eq, Structural, Debug)]
pub enum PhysicalType {
    Boolean,
    Primitive,
    Utf8,
}

/// A logical type tag. A boolean array accepts any logical type whose
/// physical representation is [`PhysicalType::Boolean`].
#[derive(Clone, Copy, PartialEq, Eq, Structural, Debug)]
pub enum ArrowDataType {
    Boolean,
    Int32,
    Utf8,
}

impl ArrowDataType {
    /// The physical representation of this logical type.
    pub open spec fn physical_type(self) -> PhysicalType {
        match self {
            ArrowDataType::Boolean => PhysicalType::Boolean,
            ArrowDataType::Int32 => PhysicalType::Primitive,
            ArrowDataType::Utf8 => PhysicalType::Utf8,
        }
    }

    /// Queries the physical representation of this logical type.
    pub fn to_physical_type(&self) -> (r: PhysicalType)
        ensures
            r == self.physical_type(),
    {
        match self {
            ArrowDataType::Boolean => PhysicalType::Boolean,
            ArrowDataType::Int32 => PhysicalType::Primitive,
            ArrowDataType::Utf8 => PhysicalType::Utf8,
        }
    }
}

} // verus!
