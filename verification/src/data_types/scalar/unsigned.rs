//! Unsigned integers of one, two, four and eight bytes.

use crate::data_types::FieldType;
use vstd::prelude::*;

verus! {

#[derive(Debug, Clone, Copy, PartialEq, Eq, Structural)]
pub enum Unsigned {
    U8,
    U16,
    U32,
    U64,
}

impl Unsigned {
    /// The name under which the type is written in a schema.
    pub open spec fn spelling(self) -> Seq<char> {
        match self {
            Unsigned::U8 => "u8"@,
            Unsigned::U16 => "u16"@,
            Unsigned::U32 => "u32"@,
            Unsigned::U64 => "u64"@,
        }
    }

    /// The type that `txt` names, if it names one.
    pub open spec fn from_spelling(txt: Seq<char>) -> Option<Unsigned> {
        if txt == "u8"@ {
            Some(Unsigned::U8)
        } else if txt == "u16"@ {
            Some(Unsigned::U16)
        } else if txt == "u32"@ {
            Some(Unsigned::U32)
        } else if txt == "u64"@ {
            Some(Unsigned::U64)
        } else {
            None
        }
    }

    pub fn try_parse(txt: &str) -> (parsed: Option<Unsigned>)
        ensures
            parsed == Unsigned::from_spelling(txt@),
    {
        if *txt == *"u8" {
            Some(Unsigned::U8)
        } else if *txt == *"u16" {
            Some(Unsigned::U16)
        } else if *txt == *"u32" {
            Some(Unsigned::U32)
        } else if *txt == *"u64" {
            Some(Unsigned::U64)
        } else {
            None
        }
    }

    /// Each type is found again under its own name, and under no other.
    pub proof fn lemma_spelling_names_type(self, txt: Seq<char>)
        ensures
            Unsigned::from_spelling(self.spelling()) == Some(self),
            Unsigned::from_spelling(txt) == Some(self) <==> txt == self.spelling(),
    {
        reveal_strlit("u8");
        reveal_strlit("u16");
        reveal_strlit("u32");
        reveal_strlit("u64");
        assert("u8"@.len() == 2 && "u16"@.len() == 3);
        assert("u16"@[1] == '1' && "u32"@[1] == '3' && "u64"@[1] == '6');
    }
}

impl FieldType for Unsigned {
    open spec fn byte_size(&self) -> nat {
        match self {
            Unsigned::U8 => 1,
            Unsigned::U16 => 2,
            Unsigned::U32 => 4,
            Unsigned::U64 => 8,
        }
    }

    fn size_bytes(&self) -> (n: usize) {
        match self {
            Unsigned::U8 => 1,
            Unsigned::U16 => 2,
            Unsigned::U32 => 4,
            Unsigned::U64 => 8,
        }
    }
}

} // verus!
