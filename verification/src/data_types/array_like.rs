//! Fixed-length sequences: arrays of a scalar, ASCII strings, byte blobs.

use crate::data_types::scalar::ByteSize;
use crate::data_types::FieldType;
use crate::data_types::ScalarType;
use vstd::prelude::*;

verus! {

#[derive(Debug, Clone, Copy, PartialEq, Eq, Structural)]
pub enum ArrayLike {
    FixedArray { scalar: ScalarType, length: usize },
    AsciiString { length: usize },
    Bytes { length: usize },
}

impl ArrayLike {
    /// The number of elements.
    pub open spec fn length(self) -> usize {
        match self {
            ArrayLike::FixedArray { scalar, length } => length,
            ArrayLike::AsciiString { length } => length,
            ArrayLike::Bytes { length } => length,
        }
    }

    /// An array-like type holds at least one element.
    pub open spec fn well_formed(self) -> bool {
        self.length() > 0
    }

    /// The array-like type of `length` elements of `scalar`: a blob for
    /// `byte`, a string for `char` and `ascii`, an array for any other.
    pub open spec fn of_scalar(scalar: ScalarType, length: usize) -> ArrayLike {
        match scalar {
            ScalarType::ByteSized(ByteSize::Byte) => ArrayLike::Bytes { length },
            ScalarType::ByteSized(_) => ArrayLike::AsciiString { length },
            _ => ArrayLike::FixedArray { scalar, length },
        }
    }

    /// Builds the array-like type of `length` elements of `scalar`.
    pub fn from_scalar(scalar: ScalarType, length: usize) -> (array: ArrayLike)
        ensures
            array == ArrayLike::of_scalar(scalar, length),
            array.well_formed() == (length > 0),
            array.byte_size() == length * scalar.byte_size(),
    {
        proof {
            lemma_array_like_size(scalar, length);
        }
        match scalar {
            ScalarType::ByteSized(ByteSize::Byte) => ArrayLike::Bytes { length },
            ScalarType::ByteSized(_) => ArrayLike::AsciiString { length },
            _ => ArrayLike::FixedArray { scalar, length },
        }
    }
}

impl ArrayLike {
    /// The size in bytes, or nothing where the machine's word cannot hold
    /// it.
    pub fn checked_size_bytes(&self) -> (size: Option<usize>)
        ensures
            size == if self.byte_size() <= usize::MAX {
                Some(self.byte_size() as usize)
            } else {
                None
            },
    {
        match self {
            ArrayLike::FixedArray { scalar, length } => length.checked_mul(scalar.size_bytes()),
            ArrayLike::AsciiString { length } => Some(*length),
            ArrayLike::Bytes { length } => Some(*length),
        }
    }
}

/// The size of an array is the number of its elements times the size of
/// one; a string or a blob has one byte for each element.
pub proof fn lemma_array_like_size(scalar: ScalarType, length: usize)
    ensures
        (ArrayLike::FixedArray { scalar, length }).byte_size() == length * scalar.byte_size(),
        (ArrayLike::AsciiString { length }).byte_size() == length,
        (ArrayLike::Bytes { length }).byte_size() == length,
        ArrayLike::of_scalar(scalar, length).byte_size() == length * scalar.byte_size(),
{
    if scalar is ByteSized {
        assert(scalar.byte_size() == 1);
        assert(length * 1 == length);
    }
}

impl FieldType for ArrayLike {
    open spec fn byte_size(&self) -> nat {
        match self {
            ArrayLike::FixedArray { scalar, length } => (*length * scalar.byte_size()) as nat,
            ArrayLike::AsciiString { length } => *length as nat,
            ArrayLike::Bytes { length } => *length as nat,
        }
    }

    fn size_bytes(&self) -> (n: usize) {
        match self {
            ArrayLike::FixedArray { scalar, length } => *length * scalar.size_bytes(),
            ArrayLike::AsciiString { length } => *length,
            ArrayLike::Bytes { length } => *length,
        }
    }
}

} // verus!
