use sss::data_types::scalar::{ByteSize, Float, Signed, Unsigned};
use sss::data_types::{ArrayLike, FieldType, FieldType_, ScalarType};
use sss::syntax::{
    BuiltInType, FieldDeclaration, MemberDeclaration, MessageDeclarationSyntax, Signedness,
    SyntaxUnit, ProtocolDeclarationSyntax, DeclarationSyntax,
};

#[test]
fn main() {
    println!("Hello, world!");
    let my_struct = MessageDeclarationSyntax {
        name: String::from("message_1"),
        id: 1usize,
        members: vec![MemberDeclaration::Field(FieldDeclaration {
            name: String::from("field1"),
            field_type: FieldType_::Scalar(ScalarType::Signed(Signed::I16)),
            description: Some(String::from("the first field")),
        })],
    };
    let built_in = BuiltInType::Integer {
        size_bits: 16,
        signedness: Signedness::Signed,
        maybe_endianness: None,
    };
    println!("{:?}", my_struct);
    println!("{:?}", built_in);
    assert_eq!(my_struct.members.len(), 1);
}

#[test]
fn scalar_names() {
    assert_eq!(Unsigned::try_parse("u8"), Some(Unsigned::U8));
    assert_eq!(Unsigned::try_parse("u16"), Some(Unsigned::U16));
    assert_eq!(Unsigned::try_parse("u32"), Some(Unsigned::U32));
    assert_eq!(Unsigned::try_parse("u64"), Some(Unsigned::U64));
    assert_eq!(Unsigned::try_parse("u128"), None);
    assert_eq!(Unsigned::try_parse("i8"), None);
    assert_eq!(Signed::try_parse("i8"), Some(Signed::I8));
    assert_eq!(Signed::try_parse("i16"), Some(Signed::I16));
    assert_eq!(Signed::try_parse("i32"), Some(Signed::I32));
    assert_eq!(Signed::try_parse("i64"), Some(Signed::I64));
    assert_eq!(Signed::try_parse("I64"), None);
    assert_eq!(Float::try_parse("f32"), Some(Float::F32));
    assert_eq!(Float::try_parse("f64"), Some(Float::F64));
    assert_eq!(Float::try_parse("f16"), None);
    assert_eq!(ByteSize::try_parse("byte"), Some(ByteSize::Byte));
    assert_eq!(ByteSize::try_parse("char"), Some(ByteSize::Char));
    assert_eq!(ByteSize::try_parse("ascii"), Some(ByteSize::Ascii));
    assert_eq!(ByteSize::try_parse("bytes"), None);
    assert_eq!(ByteSize::try_parse(""), None);
}

#[test]
fn scalar_catalog_asks_each_category() {
    assert_eq!(ScalarType::try_parse("u32"), Some(ScalarType::Unsigned(Unsigned::U32)));
    assert_eq!(ScalarType::try_parse("i16"), Some(ScalarType::Signed(Signed::I16)));
    assert_eq!(ScalarType::try_parse("f64"), Some(ScalarType::Float(Float::F64)));
    assert_eq!(ScalarType::try_parse("byte"), Some(ScalarType::ByteSized(ByteSize::Byte)));
    assert_eq!(ScalarType::try_parse("char"), Some(ScalarType::ByteSized(ByteSize::Char)));
    assert_eq!(ScalarType::try_parse("ascii"), Some(ScalarType::ByteSized(ByteSize::Ascii)));
    assert_eq!(ScalarType::try_parse("frobnicate"), None);
    assert_eq!(ScalarType::try_parse("u 8"), None);
}

#[test]
fn scalar_sizes() {
    assert_eq!(Unsigned::U8.size_bytes(), 1);
    assert_eq!(Unsigned::U16.size_bytes(), 2);
    assert_eq!(Unsigned::U32.size_bytes(), 4);
    assert_eq!(Unsigned::U64.size_bytes(), 8);
    assert_eq!(Signed::I8.size_bytes(), 1);
    assert_eq!(Signed::I16.size_bytes(), 2);
    assert_eq!(Signed::I32.size_bytes(), 4);
    assert_eq!(Signed::I64.size_bytes(), 8);
    assert_eq!(Float::F32.size_bytes(), 4);
    assert_eq!(Float::F64.size_bytes(), 8);
    assert_eq!(ByteSize::Byte.size_bytes(), 1);
    assert_eq!(ByteSize::Char.size_bytes(), 1);
    assert_eq!(ByteSize::Ascii.size_bytes(), 1);
    assert_eq!(ScalarType::Float(Float::F64).size_bytes(), 8);
    assert_eq!(ScalarType::ByteSized(ByteSize::Ascii).size_bytes(), 1);
}

#[test]
fn array_sizes() {
    let quad = ArrayLike::FixedArray { scalar: ScalarType::Unsigned(Unsigned::U32), length: 4 };
    assert_eq!(quad.size_bytes(), 16);
    assert_eq!(ArrayLike::AsciiString { length: 10 }.size_bytes(), 10);
    assert_eq!(ArrayLike::Bytes { length: 7 }.size_bytes(), 7);
    assert_eq!(
        ArrayLike::FixedArray { scalar: ScalarType::Signed(Signed::I64), length: 3 }.size_bytes(),
        24
    );
    assert_eq!(
        ArrayLike::FixedArray { scalar: ScalarType::ByteSized(ByteSize::Byte), length: 3 }
            .size_bytes(),
        3
    );
    assert_eq!(
        ArrayLike::FixedArray { scalar: ScalarType::Float(Float::F32), length: usize::MAX / 4 }
            .size_bytes(),
        (usize::MAX / 4) * 4
    );
}

#[test]
fn arrays_of_single_bytes_are_strings_and_blobs() {
    assert_eq!(
        ArrayLike::from_scalar(ScalarType::ByteSized(ByteSize::Byte), 5),
        ArrayLike::Bytes { length: 5 }
    );
    assert_eq!(
        ArrayLike::from_scalar(ScalarType::ByteSized(ByteSize::Char), 5),
        ArrayLike::AsciiString { length: 5 }
    );
    assert_eq!(
        ArrayLike::from_scalar(ScalarType::ByteSized(ByteSize::Ascii), 5),
        ArrayLike::AsciiString { length: 5 }
    );
    assert_eq!(
        ArrayLike::from_scalar(ScalarType::Float(Float::F64), 5),
        ArrayLike::FixedArray { scalar: ScalarType::Float(Float::F64), length: 5 }
    );
    assert_eq!(ArrayLike::from_scalar(ScalarType::Float(Float::F64), 5).size_bytes(), 40);
}

#[test]
fn field_type_sizes() {
    assert_eq!(FieldType_::Scalar(ScalarType::Unsigned(Unsigned::U16)).size_bytes(), 2);
    assert_eq!(FieldType_::Vector(ArrayLike::Bytes { length: 9 }).size_bytes(), 9);
    assert_eq!(FieldType_::Padding(12).size_bytes(), 12);
    assert_eq!(FieldType_::Padding(0).size_bytes(), 0);
}

#[test]
fn syntax_unit_collects_declarations() {
    let protocol = ProtocolDeclarationSyntax::new(vec![String::from("a"), String::from("b")]);
    assert_eq!(protocol.components, vec![String::from("a"), String::from("b")]);
    let mut unit = SyntaxUnit::new(protocol);
    assert_eq!(unit.declarations.len(), 0);
    let first = DeclarationSyntax::Message(MessageDeclarationSyntax {
        name: String::from("m"),
        id: 1,
        members: vec![],
    });
    let second = DeclarationSyntax::Message(MessageDeclarationSyntax {
        name: String::from("n"),
        id: 1,
        members: vec![MemberDeclaration::Padding(2)],
    });
    unit.add_declaration(first);
    unit.add_declaration(second);
    assert_eq!(unit.declarations.len(), 2);
    match &unit.declarations[1] {
        DeclarationSyntax::Message(m) => assert_eq!(m.name, "n"),
        other => panic!("not a message: {:?}", other),
    }
    assert_eq!(unit.protocol.components.len(), 2);
}

#[test]
fn sizes_that_do_not_fit_are_told() {
    let quad = ArrayLike::FixedArray { scalar: ScalarType::Unsigned(Unsigned::U32), length: 4 };
    assert_eq!(quad.checked_size_bytes(), Some(16));
    assert_eq!(ArrayLike::AsciiString { length: usize::MAX }.checked_size_bytes(), Some(usize::MAX));
    assert_eq!(ArrayLike::Bytes { length: 1 }.checked_size_bytes(), Some(1));
    let huge = ArrayLike::FixedArray {
        scalar: ScalarType::Unsigned(Unsigned::U64),
        length: usize::MAX / 8 + 1,
    };
    assert_eq!(huge.checked_size_bytes(), None);
    let edge = ArrayLike::FixedArray {
        scalar: ScalarType::Unsigned(Unsigned::U64),
        length: usize::MAX / 8,
    };
    assert_eq!(edge.checked_size_bytes(), Some((usize::MAX / 8) * 8));
    assert_eq!(FieldType_::Vector(huge).checked_size_bytes(), None);
    assert_eq!(FieldType_::Vector(quad).checked_size_bytes(), Some(16));
    assert_eq!(FieldType_::Padding(5).checked_size_bytes(), Some(5));
    assert_eq!(
        FieldType_::Scalar(ScalarType::Float(Float::F32)).checked_size_bytes(),
        Some(4)
    );
}
