//! An enumeration: a name, the integer type beneath it and its values.

use vstd::prelude::*;

verus! {

#[derive(Debug, Clone, Copy, PartialEq, Eq, Structural)]
pub enum Signedness {
    Signed,
    Unsigned,
}

#[derive(Debug, Clone, Copy, PartialEq, Eq, Structural)]
pub enum Endianness {
    BigEndian,
    LittleEndian,
}

#[derive(Debug, Clone, Copy, PartialEq, Eq, Structural)]
pub enum BuiltInType {
    Integer { size_bits: usize, signedness: Signedness, maybe_endianness: Option<Endianness> },
    AsciiFixedString { length: usize },
}

#[derive(Debug, Clone, Copy, PartialEq, Eq, Structural)]
pub enum FixedStringType {
    Ascii { length_bytes: usize },
}

/// One value of an enumeration: its name and the text of its number.
#[derive(Debug, PartialEq, Eq)]
pub struct EnumValue {
    pub name: String,
    pub value: String,
}

/// What an `EnumValue` stands for.
pub ghost struct EnumValueView {
    pub name: Seq<char>,
    pub value: Seq<char>,
}

impl View for EnumValue {
    type V = EnumValueView;

    open spec fn view(&self) -> EnumValueView {
        EnumValueView { name: self.name@, value: self.value@ }
    }
}

#[derive(Debug, PartialEq, Eq)]
pub struct EnumDeclarationSyntax {
    pub name: String,
    pub underlying_type: BuiltInType,
    pub values: Vec<EnumValue>,
}

/// What an `EnumDeclarationSyntax` stands for.
pub ghost struct EnumView {
    pub name: Seq<char>,
    pub underlying_type: BuiltInType,
    pub values: Seq<EnumValueView>,
}

impl View for EnumDeclarationSyntax {
    type V = EnumView;

    open spec fn view(&self) -> EnumView {
        EnumView {
            name: self.name@,
            underlying_type: self.underlying_type,
            values: self.values@.map_values(|value: EnumValue| value@),
        }
    }
}

/// A type that a schema declares itself.
#[derive(Debug, PartialEq, Eq)]
pub enum CustomType {
    Enum(EnumDeclarationSyntax),
}

} // verus!
