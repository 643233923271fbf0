//! The catalog of field types and their sizes in bytes.

pub mod array_like;
pub mod scalar;

pub use array_like::ArrayLike;
pub use scalar::ScalarType;

use vstd::prelude::*;

verus! {

/// A type that occupies a fixed number of bytes in a message.
pub trait FieldType {
    /// The number of bytes that a value of the type occupies.
    spec fn byte_size(&self) -> nat;

    /// Computes the size in bytes, where it fits the machine's word.
    fn size_bytes(&self) -> (n: usize)
        requires
            self.byte_size() <= usize::MAX,
        ensures
            n == self.byte_size(),
    ;
}

/// The type of a field: a scalar, an array-like type, or a run of padding
/// bytes.
#[derive(Debug, Clone, Copy, PartialEq, Eq, Structural)]
pub enum FieldType_ {
    Scalar(ScalarType),
    Vector(ArrayLike),
    Padding(usize),
}

impl FieldType_ {
    /// The size in bytes, or nothing where the machine's word cannot hold
    /// it.
    pub fn checked_size_bytes(&self) -> (size: Option<usize>)
        ensures
            size == if self.byte_size() <= usize::MAX {
                Some(self.byte_size() as usize)
            } else {
                None
            },
    {
        match self {
            FieldType_::Scalar(scalar) => Some(scalar.size_bytes()),
            FieldType_::Vector(array) => array.checked_size_bytes(),
            FieldType_::Padding(count) => Some(*count),
        }
    }
}

impl FieldType for FieldType_ {
    open spec fn byte_size(&self) -> nat {
        match self {
            FieldType_::Scalar(scalar) => scalar.byte_size(),
            FieldType_::Vector(array) => array.byte_size(),
            FieldType_::Padding(count) => *count as nat,
        }
    }

    fn size_bytes(&self) -> (n: usize) {
        match self {
            FieldType_::Scalar(scalar) => scalar.size_bytes(),
            FieldType_::Vector(array) => array.size_bytes(),
            FieldType_::Padding(count) => *count,
        }
    }
}

} // verus!
