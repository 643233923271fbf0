//! The kinds of scalar that occupy a single byte.

use crate::data_types::FieldType;
use vstd::prelude::*;

verus! {

#[derive(Debug, Clone, Copy, PartialEq, Eq, Structural)]
pub enum ByteSize {
    Byte,
    Char,
    Ascii,
}

impl ByteSize {
    /// The name under which the type is written in a schema.
    pub open spec fn spelling(self) -> Seq<char> {
        match self {
            ByteSize::Byte => "byte"@,
            ByteSize::Char => "char"@,
            ByteSize::Ascii => "ascii"@,
        }
    }

    /// The type that `txt` names, if it names one.
    pub open spec fn from_spelling(txt: Seq<char>) -> Option<ByteSize> {
        if txt == "byte"@ {
            Some(ByteSize::Byte)
        } else if txt == "char"@ {
            Some(ByteSize::Char)
        } else if txt == "ascii"@ {
            Some(ByteSize::Ascii)
        } else {
            None
        }
    }

    pub fn try_parse(txt: &str) -> (parsed: Option<ByteSize>)
        ensures
            parsed == ByteSize::from_spelling(txt@),
    {
        if *txt == *"byte" {
            Some(ByteSize::Byte)
        } else if *txt == *"char" {
            Some(ByteSize::Char)
        } else if *txt == *"ascii" {
            Some(ByteSize::Ascii)
        } else {
            None
        }
    }

    /// Each type is found again under its own name, and under no other.
    pub proof fn lemma_spelling_names_type(self, txt: Seq<char>)
        ensures
            ByteSize::from_spelling(self.spelling()) == Some(self),
            ByteSize::from_spelling(txt) == Some(self) <==> txt == self.spelling(),
    {
        reveal_strlit("byte");
        reveal_strlit("char");
        reveal_strlit("ascii");
        assert("byte"@.len() == 4 && "ascii"@.len() == 5);
        assert("byte"@[0] == 'b' && "char"@[0] == 'c');
    }
}

impl FieldType for ByteSize {
    open spec fn byte_size(&self) -> nat {
        1
    }

    fn size_bytes(&self) -> (n: usize) {
        1
    }
}

} // verus!
