//! Binary floating-point numbers of four and eight bytes.

use crate::data_types::FieldType;
use vstd::prelude::*;

verus! {

#[derive(Debug, Clone, Copy, PartialEq, Eq, Structural)]
pub enum Float {
    F32,
    F64,
}

impl Float {
    /// The name under which the type is written in a schema.
    pub open spec fn spelling(self) -> Seq<char> {
        match self {
            Float::F32 => "f32"@,
            Float::F64 => "f64"@,
        }
    }

    /// The type that `txt` names, if it names one.
    pub open spec fn from_spelling(txt: Seq<char>) -> Option<Float> {
        if txt == "f32"@ {
            Some(Float::F32)
        } else if txt == "f64"@ {
            Some(Float::F64)
        } else {
            None
        }
    }

    pub fn try_parse(txt: &str) -> (parsed: Option<Float>)
        ensures
            parsed == Float::from_spelling(txt@),
    {
        if *txt == *"f32" {
            Some(Float::F32)
        } else if *txt == *"f64" {
            Some(Float::F64)
        } else {
            None
        }
    }

    /// Each type is found again under its own name, and under no other.
    pub proof fn lemma_spelling_names_type(self, txt: Seq<char>)
        ensures
            Float::from_spelling(self.spelling()) == Some(self),
            Float::from_spelling(txt) == Some(self) <==> txt == self.spelling(),
    {
        reveal_strlit("f32");
        reveal_strlit("f64");
        assert("f32"@[1] == '3' && "f64"@[1] == '6');
    }
}

impl FieldType for Float {
    open spec fn byte_size(&self) -> nat {
        match self {
            Float::F32 => 4,
            Float::F64 => 8,
        }
    }

    fn size_bytes(&self) -> (n: usize) {
        match self {
            Float::F32 => 4,
            Float::F64 => 8,
        }
    }
}

} // verus!
