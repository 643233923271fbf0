//! The scalar types of the schema language: sized integers, floating-point
//! numbers and the kinds of a single byte.

pub mod byte_size;
pub mod float;
pub mod signed;
pub mod unsigned;

pub use byte_size::ByteSize;
pub use float::Float;
pub use signed::Signed;
pub use unsigned::Unsigned;

use crate::data_types::FieldType;
use vstd::prelude::*;

verus! {

#[derive(Debug, Clone, Copy, PartialEq, Eq, Structural)]
pub enum ScalarType {
    Unsigned(Unsigned),
    Signed(Signed),
    Float(Float),
    ByteSized(ByteSize),
}

impl ScalarType {
    /// The name under which the type is written in a schema.
    pub open spec fn spelling(self) -> Seq<char> {
        match self {
            ScalarType::Unsigned(u) => u.spelling(),
            ScalarType::Signed(s) => s.spelling(),
            ScalarType::Float(f) => f.spelling(),
            ScalarType::ByteSized(b) => b.spelling(),
        }
    }

    /// The type that `txt` names, if it names one. The categories are asked
    /// in a fixed order and the first that knows the name decides: unsigned,
    /// signed, floating point, single byte.
    pub open spec fn from_spelling(txt: Seq<char>) -> Option<ScalarType> {
        if let Some(u) = Unsigned::from_spelling(txt) {
            Some(ScalarType::Unsigned(u))
        } else if let Some(s) = Signed::from_spelling(txt) {
            Some(ScalarType::Signed(s))
        } else if let Some(f) = Float::from_spelling(txt) {
            Some(ScalarType::Float(f))
        } else if let Some(b) = ByteSize::from_spelling(txt) {
            Some(ScalarType::ByteSized(b))
        } else {
            None
        }
    }

    pub fn try_parse(txt: &str) -> (parsed: Option<ScalarType>)
        ensures
            parsed == ScalarType::from_spelling(txt@),
    {
        if let Some(u) = Unsigned::try_parse(txt) {
            Some(ScalarType::Unsigned(u))
        } else if let Some(s) = Signed::try_parse(txt) {
            Some(ScalarType::Signed(s))
        } else if let Some(f) = Float::try_parse(txt) {
            Some(ScalarType::Float(f))
        } else if let Some(b) = ByteSize::try_parse(txt) {
            Some(ScalarType::ByteSized(b))
        } else {
            None
        }
    }

    /// Each scalar type is found again under its own name, and under no
    /// other: no category shadows a name of another.
    pub proof fn lemma_spelling_names_type(self, txt: Seq<char>)
        ensures
            ScalarType::from_spelling(self.spelling()) == Some(self),
            ScalarType::from_spelling(txt) == Some(self) <==> txt == self.spelling(),
    {
        ScalarType::lemma_first_letter(txt);
        ScalarType::lemma_first_letter(self.spelling());
        match self {
            ScalarType::Unsigned(u) => {
                u.lemma_spelling_names_type(txt);
            },
            ScalarType::Signed(s) => {
                s.lemma_spelling_names_type(txt);
            },
            ScalarType::Float(f) => {
                f.lemma_spelling_names_type(txt);
            },
            ScalarType::ByteSized(b) => {
                b.lemma_spelling_names_type(txt);
            },
        }
    }

    /// The first letter of a name tells its category apart from the
    /// categories asked before it.
    proof fn lemma_first_letter(txt: Seq<char>)
        ensures
            Unsigned::from_spelling(txt) is Some ==> txt.len() > 0 && txt[0] == 'u',
            Signed::from_spelling(txt) is Some ==> txt.len() > 0 && txt[0] == 'i',
            Float::from_spelling(txt) is Some ==> txt.len() > 0 && txt[0] == 'f',
            ByteSize::from_spelling(txt) is Some ==> txt.len() > 0 && (txt[0] == 'b' || txt[0]
                == 'c' || txt[0] == 'a'),
    {
        reveal_strlit("u8");
        reveal_strlit("u16");
        reveal_strlit("u32");
        reveal_strlit("u64");
        reveal_strlit("i8");
        reveal_strlit("i16");
        reveal_strlit("i32");
        reveal_strlit("i64");
        reveal_strlit("f32");
        reveal_strlit("f64");
        reveal_strlit("byte");
        reveal_strlit("char");
        reveal_strlit("ascii");
    }
}

impl FieldType for ScalarType {
    open spec fn byte_size(&self) -> nat {
        match self {
            ScalarType::Unsigned(u) => u.byte_size(),
            ScalarType::Signed(s) => s.byte_size(),
            ScalarType::Float(f) => f.byte_size(),
            ScalarType::ByteSized(b) => b.byte_size(),
        }
    }

    fn size_bytes(&self) -> (n: usize) {
        match self {
            ScalarType::Unsigned(u) => u.size_bytes(),
            ScalarType::Signed(s) => s.size_bytes(),
            ScalarType::Float(f) => f.size_bytes(),
            ScalarType::ByteSized(b) => b.size_bytes(),
        }
    }
}

} // verus!
