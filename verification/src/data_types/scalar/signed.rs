//! Signed integers of one, two, four and eight bytes.

use crate::data_types::FieldType;
use vstd::prelude::*;

verus! {

#[derive(Debug, Clone, Copy, PartialEq, Eq, Structural)]
pub enum Signed {
    I8,
    I16,
    I32,
    I64,
}

impl Signed {
    /// The name under which the type is written in a schema.
    pub open spec fn spelling(self) -> Seq<char> {
        match self {
            Signed::I8 => "i8"@,
            Signed::I16 => "i16"@,
            Signed::I32 => "i32"@,
            Signed::I64 => "i64"@,
        }
    }

    /// The type that `txt` names, if it names one.
    pub open spec fn from_spelling(txt: Seq<char>) -> Option<Signed> {
        if txt == "i8"@ {
            Some(Signed::I8)
        } else if txt == "i16"@ {
            Some(Signed::I16)
        } else if txt == "i32"@ {
            Some(Signed::I32)
        } else if txt == "i64"@ {
            Some(Signed::I64)
        } else {
            None
        }
    }

    pub fn try_parse(txt: &str) -> (parsed: Option<Signed>)
        ensures
            parsed == Signed::from_spelling(txt@),
    {
        if *txt == *"i8" {
            Some(Signed::I8)
        } else if *txt == *"i16" {
            Some(Signed::I16)
        } else if *txt == *"i32" {
            Some(Signed::I32)
        } else if *txt == *"i64" {
            Some(Signed::I64)
        } else {
            None
        }
    }

    /// Each type is found again under its own name, and under no other.
    pub proof fn lemma_spelling_names_type(self, txt: Seq<char>)
        ensures
            Signed::from_spelling(self.spelling()) == Some(self),
            Signed::from_spelling(txt) == Some(self) <==> txt == self.spelling(),
    {
        reveal_strlit("i8");
        reveal_strlit("i16");
        reveal_strlit("i32");
        reveal_strlit("i64");
        assert("i8"@.len() == 2 && "i16"@.len() == 3);
        assert("i16"@[1] == '1' && "i32"@[1] == '3' && "i64"@[1] == '6');
    }
}

impl FieldType for Signed {
    open spec fn byte_size(&self) -> nat {
        match self {
            Signed::I8 => 1,
            Signed::I16 => 2,
            Signed::I32 => 4,
            Signed::I64 => 8,
        }
    }

    fn size_bytes(&self) -> (n: usize) {
        match self {
            Signed::I8 => 1,
            Signed::I16 => 2,
            Signed::I32 => 4,
            Signed::I64 => 8,
        }
    }
}

} // verus!
