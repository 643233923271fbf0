use sss::data_types::scalar::{ByteSize, Unsigned};
use sss::data_types::{ArrayLike, FieldType_, ScalarType};
use sss::lexer::{tokenize, Keyword, Token, TokenType};
use sss::parser::number::parse_decimal;
use sss::parser::{parse, ParseError, Parser};
use sss::source::{SourcePoint, SourceRange};
use sss::syntax::{
    DeclarationSyntax, FieldDeclaration, MemberDeclaration, MessageDeclarationSyntax,
    ProtocolDeclarationSyntax, SyntaxUnit,
};

fn names(parts: &[&str]) -> Vec<String> {
    parts.iter().map(|x| String::from(*x)).collect()
}

fn field(name: &str, field_type: FieldType_) -> MemberDeclaration {
    MemberDeclaration::Field(FieldDeclaration {
        name: String::from(name),
        field_type,
        description: None,
    })
}

fn foop() -> MessageDeclarationSyntax {
    MessageDeclarationSyntax {
        name: String::from("foop"),
        id: 123,
        members: vec![
            MemberDeclaration::Padding(12),
            field("skibbidy", FieldType_::Scalar(ScalarType::Unsigned(Unsigned::U32))),
            field("pow", FieldType_::Scalar(ScalarType::ByteSized(ByteSize::Byte))),
            field("txt", FieldType_::Vector(ArrayLike::AsciiString { length: 10 })),
        ],
    }
}

#[test]
fn test_parse_message() {
    let tokens = tokenize(
        "message foop [123] {\
            12;\
            u32: skibbidy;\
            byte: pow;\
            ascii[10]: txt;\
        \
        }",
    );
    let mut parser = Parser::new(&tokens);

    let dec = parser.parse_declaration();

    println!("{:?}", dec);
    assert_eq!(dec, Ok(Some(DeclarationSyntax::Message(foop()))));
}

#[test]
fn test_parse_protocol_declaration() {
    let tokens = tokenize("protocol foo.bar.baz;");
    let mut parser = Parser::new(&tokens);

    let proto = parser.parse_protocol();

    assert_eq!(
        proto,
        Ok(ProtocolDeclarationSyntax::new(
            vec!["foo", "bar", "baz"]
                .into_iter()
                .map(|x| String::from(x))
                .collect()
        ))
    );
}

#[test]
fn test_parse_qualified_name() {
    let text = "foo.bar.baz;";

    let tokens = tokenize(text);

    let mut parser = Parser::new(&tokens);

    let proto = parser.parse_qualified_name();

    assert_eq!(
        proto,
        Ok(vec!["foo", "bar", "baz"]
            .into_iter()
            .map(|x| String::from(x))
            .collect::<Vec<_>>())
    );
}

#[test]
fn qualified_name_without_keyword() {
    let parser_tokens = tokenize("foo.bar.baz");
    let mut parser = Parser::new(&parser_tokens);
    assert_eq!(parser.parse_qualified_name(), Ok(names(&["foo", "bar", "baz"])));
    let single_tokens = tokenize("foo bar");
    let mut single = Parser::new(&single_tokens);
    assert_eq!(single.parse_qualified_name(), Ok(names(&["foo"])));
    assert_eq!(single.parse_qualified_name(), Ok(names(&["bar"])));
}

#[test]
fn qualified_name_must_not_end_in_a_dot() {
    let parser_tokens = tokenize("foo.");
    let mut parser = Parser::new(&parser_tokens);
    assert_eq!(
        parser.parse_qualified_name(),
        Err(ParseError::UnexpectedToken(
            Token::from_point(TokenType::Dot, SourcePoint::new(0, 3)),
            None
        ))
    );
    let longer_tokens = tokenize("a.b.;");
    let mut longer = Parser::new(&longer_tokens);
    assert_eq!(
        longer.parse_qualified_name(),
        Err(ParseError::UnexpectedToken(
            Token::from_point(TokenType::Dot, SourcePoint::new(0, 3)),
            None
        ))
    );
}

#[test]
fn qualified_name_needs_an_identifier() {
    assert_eq!(
        Parser::new(&tokenize("")).parse_qualified_name(),
        Err(ParseError::MissingIdentifier)
    );
    assert_eq!(
        Parser::new(&tokenize(".a")).parse_qualified_name(),
        Err(ParseError::MissingIdentifier)
    );
    assert_eq!(
        Parser::new(&tokenize("protocol ;")).parse_protocol(),
        Err(ParseError::MissingIdentifier)
    );
}

#[test]
fn protocol_declaration_failures() {
    assert_eq!(
        Parser::new(&tokenize("")).parse_protocol(),
        Err(ParseError::ExpectedProtocolDeclaration)
    );
    assert_eq!(
        Parser::new(&tokenize("message a.b;")).parse_protocol(),
        Err(ParseError::UnexpectedToken(
            Token::from_range(
                TokenType::Keyword(Keyword::Message),
                SourceRange::new(SourcePoint::new(0, 0), SourcePoint::new(0, 7))
            ),
            None
        ))
    );
    assert_eq!(
        Parser::new(&tokenize("protocol a.b")).parse_protocol(),
        Err(ParseError::ExpectedAToken)
    );
    assert_eq!(
        Parser::new(&tokenize("protocol a.b:")).parse_protocol(),
        Err(ParseError::UnexpectedToken(
            Token::from_point(TokenType::Colon, SourcePoint::new(0, 12)),
            None
        ))
    );
}

#[test]
fn protocol_word_may_be_an_identifier_token() {
    let tokens = vec![
        Token::from_point(TokenType::Identifier(String::from("protocol")), SourcePoint::new(0, 0)),
        Token::from_point(TokenType::Identifier(String::from("a")), SourcePoint::new(0, 9)),
        Token::from_point(TokenType::SemiColon, SourcePoint::new(0, 10)),
    ];
    assert_eq!(
        Parser::new(&tokens).parse_protocol(),
        Ok(ProtocolDeclarationSyntax::new(names(&["a"])))
    );
}

#[test]
fn message_members_keep_their_order() {
    let text = "message foop [123] { 12; u32: skibbidy; byte: pow; ascii[10]: txt; }";
    assert_eq!(
        Parser::new(&tokenize(text)).parse_declaration(),
        Ok(Some(DeclarationSyntax::Message(foop())))
    );
}

#[test]
fn message_body_may_be_empty_or_hold_lone_semicolons() {
    assert_eq!(
        Parser::new(&tokenize("message m [0] { }")).parse_declaration(),
        Ok(Some(DeclarationSyntax::Message(MessageDeclarationSyntax {
            name: String::from("m"),
            id: 0,
            members: vec![],
        })))
    );
    assert_eq!(
        Parser::new(&tokenize("message m [7] { ; 1; ; }")).parse_declaration(),
        Ok(Some(DeclarationSyntax::Message(MessageDeclarationSyntax {
            name: String::from("m"),
            id: 7,
            members: vec![MemberDeclaration::Padding(1)],
        })))
    );
}

#[test]
fn message_failures() {
    assert_eq!(
        Parser::new(&tokenize("message")).parse_declaration(),
        Err(ParseError::ExpectedAToken)
    );
    assert_eq!(
        Parser::new(&tokenize("message [1] {}")).parse_declaration(),
        Err(ParseError::UnexpectedToken(
            Token::from_point(TokenType::OpenBracket, SourcePoint::new(0, 8)),
            None
        ))
    );
    assert_eq!(
        Parser::new(&tokenize("message m [x] {}")).parse_declaration(),
        Err(ParseError::UnexpectedToken(
            Token::from_range(
                TokenType::Identifier(String::from("x")),
                SourceRange::new(SourcePoint::new(0, 11), SourcePoint::new(0, 12))
            ),
            None
        ))
    );
    assert_eq!(
        Parser::new(&tokenize("message m [99999999999999999999999999] {}")).parse_declaration(),
        Err(ParseError::InvalidNumberFormat)
    );
    assert_eq!(
        Parser::new(&tokenize("message m [1] { u8: x;")).parse_declaration(),
        Err(ParseError::ExpectedAToken)
    );
    assert_eq!(
        Parser::new(&tokenize("message m [1] { , }")).parse_declaration(),
        Err(ParseError::UnexpectedToken(
            Token::from_point(TokenType::Comma, SourcePoint::new(0, 16)),
            None
        ))
    );
}

#[test]
fn declaration_dispatch() {
    assert_eq!(Parser::new(&tokenize("")).parse_declaration(), Ok(None));
    assert_eq!(
        Parser::new(&tokenize("enum e {}")).parse_declaration(),
        Err(ParseError::UnexpectedToken(
            Token::from_range(
                TokenType::Keyword(Keyword::Enum),
                SourceRange::new(SourcePoint::new(0, 0), SourcePoint::new(0, 4))
            ),
            Some(String::from("Declarations of this kind are not supported"))
        ))
    );
    assert_eq!(
        Parser::new(&tokenize("bitflags b {}")).parse_declaration(),
        Err(ParseError::UnexpectedToken(
            Token::from_range(
                TokenType::Identifier(String::from("bitflags")),
                SourceRange::new(SourcePoint::new(0, 0), SourcePoint::new(0, 8))
            ),
            Some(String::from("Declarations of this kind are not supported"))
        ))
    );
    assert_eq!(
        Parser::new(&tokenize("union u {}")).parse_declaration(),
        Err(ParseError::UnexpectedToken(
            Token::from_range(
                TokenType::Identifier(String::from("union")),
                SourceRange::new(SourcePoint::new(0, 0), SourcePoint::new(0, 5))
            ),
            Some(String::from("Unexpected identifier, expected one of {message, enum, bitflags}"))
        ))
    );
    assert_eq!(
        Parser::new(&tokenize("struct s {}")).parse_declaration(),
        Err(ParseError::UnexpectedToken(
            Token::from_range(
                TokenType::Keyword(Keyword::Struct),
                SourceRange::new(SourcePoint::new(0, 0), SourcePoint::new(0, 6))
            ),
            Some(String::from("Unexpected identifier, expected one of {message, enum, bitflags}"))
        ))
    );
    assert_eq!(
        Parser::new(&tokenize("; message")).parse_declaration(),
        Err(ParseError::UnexpectedToken(
            Token::from_point(TokenType::SemiColon, SourcePoint::new(0, 0)),
            Some(String::from("Expected an identifier"))
        ))
    );
}

#[test]
fn array_length_zero_is_rejected() {
    let parser_tokens = tokenize("u32[0]: x;");
    let mut parser = Parser::new(&parser_tokens);
    assert_eq!(
        parser.parse_member(),
        Err(ParseError::UnexpectedToken(
            Token::from_range(
                TokenType::IntegerLiteral(String::from("0")),
                SourceRange::new(SourcePoint::new(0, 4), SourcePoint::new(0, 5))
            ),
            Some(String::from("Expected an non-zero integer size"))
        ))
    );
    let behind_type_tokens = tokenize("[0]: x;");
    let mut behind_type = Parser::new(&behind_type_tokens);
    assert!(matches!(
        behind_type.try_parse_field("u32"),
        Err(ParseError::UnexpectedToken(_, _))
    ));
    assert_eq!(
        Parser::new(&tokenize("u32[")).parse_member(),
        Err(ParseError::ExpectedAToken)
    );
    assert_eq!(
        Parser::new(&tokenize("u32[000]: x;")).parse_member().is_err(),
        true
    );
}

#[test]
fn unknown_type_is_rejected() {
    assert_eq!(
        Parser::new(&tokenize("frobnicate: x;")).parse_member(),
        Err(ParseError::UnknownType)
    );
    assert_eq!(
        Parser::new(&tokenize(": x;")).try_parse_field("frobnicate"),
        Err(ParseError::UnknownType)
    );
    assert_eq!(
        Parser::new(&tokenize(": x;")).try_parse_field("U32"),
        Err(ParseError::UnknownType)
    );
}

#[test]
fn fields_of_every_shape() {
    assert_eq!(
        Parser::new(&tokenize("u32: x;")).parse_member(),
        Ok(Some(field("x", FieldType_::Scalar(ScalarType::Unsigned(Unsigned::U32)))))
    );
    assert_eq!(
        Parser::new(&tokenize("u32[4]: xs;")).parse_member(),
        Ok(Some(field(
            "xs",
            FieldType_::Vector(ArrayLike::FixedArray {
                scalar: ScalarType::Unsigned(Unsigned::U32),
                length: 4
            })
        )))
    );
    assert_eq!(
        Parser::new(&tokenize("byte[16]: blob;")).parse_member(),
        Ok(Some(field("blob", FieldType_::Vector(ArrayLike::Bytes { length: 16 }))))
    );
    assert_eq!(
        Parser::new(&tokenize("char[3]: s;")).parse_member(),
        Ok(Some(field("s", FieldType_::Vector(ArrayLike::AsciiString { length: 3 }))))
    );
    assert_eq!(
        Parser::new(&tokenize("ascii[10]: txt;")).parse_member(),
        Ok(Some(field("txt", FieldType_::Vector(ArrayLike::AsciiString { length: 10 }))))
    );
    assert_eq!(
        Parser::new(&tokenize("12;")).parse_member(),
        Ok(Some(MemberDeclaration::Padding(12)))
    );
    assert_eq!(Parser::new(&tokenize(";")).parse_member(), Ok(None));
    assert_eq!(Parser::new(&tokenize("")).parse_member(), Ok(None));
    assert_eq!(
        Parser::new(&tokenize(": x;")).try_parse_field("i8"),
        Ok(Some(FieldDeclaration {
            name: String::from("x"),
            field_type: FieldType_::Scalar(ScalarType::Signed(
                sss::data_types::scalar::Signed::I8
            )),
            description: None,
        }))
    );
}

#[test]
fn field_failures() {
    assert_eq!(
        Parser::new(&tokenize("u8")).parse_member(),
        Err(ParseError::ExpectedAToken)
    );
    assert_eq!(
        Parser::new(&tokenize("u8 x;")).parse_member(),
        Err(ParseError::UnexpectedToken(
            Token::from_range(
                TokenType::Identifier(String::from("x")),
                SourceRange::new(SourcePoint::new(0, 3), SourcePoint::new(0, 4))
            ),
            None
        ))
    );
    assert_eq!(
        Parser::new(&tokenize("u8:")).parse_member(),
        Err(ParseError::ExpectedAToken)
    );
    assert_eq!(
        Parser::new(&tokenize("u8: ;")).parse_member(),
        Err(ParseError::UnexpectedToken(
            Token::from_point(TokenType::SemiColon, SourcePoint::new(0, 4)),
            Some(String::from("Expected an identifier"))
        ))
    );
    assert_eq!(
        Parser::new(&tokenize("u8: x")).parse_member(),
        Err(ParseError::ExpectedAToken)
    );
    assert_eq!(
        Parser::new(&tokenize("u8[2: x;")).parse_member(),
        Err(ParseError::UnexpectedToken(
            Token::from_point(TokenType::Colon, SourcePoint::new(0, 4)),
            None
        ))
    );
    assert_eq!(
        Parser::new(&tokenize("u8[2] x;")).parse_member(),
        Err(ParseError::UnexpectedToken(
            Token::from_range(
                TokenType::Identifier(String::from("x")),
                SourceRange::new(SourcePoint::new(0, 6), SourcePoint::new(0, 7))
            ),
            None
        ))
    );
    assert_eq!(
        Parser::new(&tokenize("u8[x]: y;")).parse_member(),
        Err(ParseError::UnexpectedToken(
            Token::from_range(
                TokenType::Identifier(String::from("x")),
                SourceRange::new(SourcePoint::new(0, 3), SourcePoint::new(0, 4))
            ),
            Some(String::from("Expected an non-zero integer size"))
        ))
    );
    assert_eq!(
        Parser::new(&tokenize("u8[99999999999999999999999999]: y;")).parse_member(),
        Err(ParseError::InvalidNumberFormat)
    );
    assert_eq!(
        Parser::new(&tokenize("99999999999999999999999999;")).parse_member(),
        Err(ParseError::InvalidNumberFormat)
    );
    assert_eq!(
        Parser::new(&tokenize("12 x")).parse_member(),
        Err(ParseError::UnexpectedToken(
            Token::from_range(
                TokenType::Identifier(String::from("x")),
                SourceRange::new(SourcePoint::new(0, 3), SourcePoint::new(0, 4))
            ),
            None
        ))
    );
}

#[test]
fn vector_type_behind_the_bracket() {
    assert_eq!(
        Parser::new(&tokenize("4]")).try_parse_vector_type(ScalarType::Unsigned(Unsigned::U16)),
        Ok(ArrayLike::FixedArray { scalar: ScalarType::Unsigned(Unsigned::U16), length: 4 })
    );
    assert_eq!(
        Parser::new(&tokenize("4]")).try_parse_vector_type(ScalarType::ByteSized(ByteSize::Byte)),
        Ok(ArrayLike::Bytes { length: 4 })
    );
    assert_eq!(
        Parser::new(&tokenize("4]")).try_parse_vector_type(ScalarType::ByteSized(ByteSize::Char)),
        Ok(ArrayLike::AsciiString { length: 4 })
    );
    assert_eq!(
        Parser::new(&tokenize("4")).try_parse_vector_type(ScalarType::ByteSized(ByteSize::Char)),
        Err(ParseError::ExpectedAToken)
    );
}

#[test]
fn next_token_must_match() {
    let parser_tokens = tokenize("; :");
    let mut parser = Parser::new(&parser_tokens);
    assert_eq!(
        parser.assert_next_token_matches(TokenType::SemiColon),
        Ok(Token::from_point(TokenType::SemiColon, SourcePoint::new(0, 0)))
    );
    assert_eq!(
        parser.assert_next_token_matches(TokenType::SemiColon),
        Err(ParseError::UnexpectedToken(
            Token::from_point(TokenType::Colon, SourcePoint::new(0, 2)),
            None
        ))
    );
    assert_eq!(
        parser.assert_next_token_matches(TokenType::SemiColon),
        Err(ParseError::ExpectedAToken)
    );
    let words_tokens = tokenize("ab cd");
    let mut words = Parser::new(&words_tokens);
    assert!(words
        .assert_next_token_matches(TokenType::Identifier(String::from("ab")))
        .is_ok());
    assert!(words
        .assert_next_token_matches(TokenType::Identifier(String::from("ab")))
        .is_err());
}

#[test]
fn identifiers_and_numbers() {
    let parser_tokens = tokenize("ab 12 ;");
    let mut parser = Parser::new(&parser_tokens);
    assert_eq!(parser.get_identifier(), Ok(Some(String::from("ab"))));
    assert_eq!(parser.parse_number(), Ok(12));
    assert_eq!(
        parser.parse_number(),
        Err(ParseError::UnexpectedToken(
            Token::from_point(TokenType::SemiColon, SourcePoint::new(0, 6)),
            None
        ))
    );
    assert_eq!(parser.get_identifier(), Ok(None));
    assert_eq!(parser.parse_number(), Err(ParseError::ExpectedAToken));
    assert_eq!(
        Parser::new(&tokenize("message")).get_identifier(),
        Err(ParseError::UnexpectedToken(
            Token::from_range(
                TokenType::Keyword(Keyword::Message),
                SourceRange::new(SourcePoint::new(0, 0), SourcePoint::new(0, 7))
            ),
            Some(String::from("Expected an identifier"))
        ))
    );
}

#[test]
fn decimal_values() {
    assert_eq!(parse_decimal("0"), Some(0));
    assert_eq!(parse_decimal("123"), Some(123));
    assert_eq!(parse_decimal("000123"), Some(123));
    assert_eq!(parse_decimal(""), None);
    assert_eq!(parse_decimal("+1"), None);
    assert_eq!(parse_decimal("-1"), None);
    assert_eq!(parse_decimal("12a"), None);
    assert_eq!(parse_decimal("1 2"), None);
    assert_eq!(parse_decimal(&usize::MAX.to_string()), Some(usize::MAX));
    assert_eq!(parse_decimal(&format!("{}0", usize::MAX)), None);
    let above = (usize::MAX as u128 + 1).to_string();
    assert_eq!(parse_decimal(&above), None);
    for n in [1usize, 9, 10, 99, 100, 4096, 65535, 1000000007] {
        assert_eq!(parse_decimal(&n.to_string()), Some(n));
    }
}

#[test]
fn whole_schemas() {
    assert_eq!(
        parse(&tokenize("protocol a;")),
        Ok(SyntaxUnit {
            protocol: ProtocolDeclarationSyntax::new(names(&["a"])),
            declarations: vec![],
        })
    );
    let one = parse(&tokenize("protocol a.b; message m [1] { u8: x; }")).unwrap();
    assert_eq!(one.declarations.len(), 1);
    let text = "protocol foo.bar.baz;\n\
        message foop [123] { 12; u32: skibbidy; byte: pow; ascii[10]: txt; }\n\
        message second [2] { }\n\
        message third [3] { i64[2]: pair; 4; f32: ratio; }\n";
    let three = parse(&tokenize(text)).unwrap();
    assert_eq!(three.protocol.components, names(&["foo", "bar", "baz"]));
    assert_eq!(three.declarations.len(), 3);
    assert_eq!(three.declarations[0], DeclarationSyntax::Message(foop()));
    match &three.declarations[2] {
        DeclarationSyntax::Message(m) => {
            assert_eq!(m.name, "third");
            assert_eq!(m.id, 3);
            assert_eq!(m.members.len(), 3);
            assert_eq!(m.members[1], MemberDeclaration::Padding(4));
        }
        other => panic!("not a message: {:?}", other),
    }
    let parser_tokens = tokenize(text);
    let mut parser = Parser::new(&parser_tokens);
    assert_eq!(parser.parse(), Ok(three));
    assert_eq!(parser.parse_declaration(), Ok(None));
}

#[test]
fn first_failure_ends_the_parse() {
    assert_eq!(parse(&tokenize("")), Err(ParseError::ExpectedProtocolDeclaration));
    assert_eq!(parse(&[]), Err(ParseError::ExpectedProtocolDeclaration));
    assert_eq!(
        parse(&tokenize("protocol a; message m [1] { bogus: x; } message n [2] { }")),
        Err(ParseError::UnknownType)
    );
    assert!(matches!(
        parse(&tokenize("protocol a; message m [1] { } }")),
        Err(ParseError::UnexpectedToken(_, Some(_)))
    ));
    assert!(matches!(
        parse(&tokenize("protocol a; enum e { }")),
        Err(ParseError::UnexpectedToken(_, Some(_)))
    ));
}

#[test]
fn parser_counts_what_it_consumed() {
    let tokens = tokenize("u8: x; 3; }");
    let mut parser = Parser::new(&tokens);
    assert_eq!(parser.consumed(), 0);
    assert!(parser.parse_member().is_ok());
    assert_eq!(parser.consumed(), 4);
    let checkpoint = parser.clone();
    assert_eq!(parser.parse_member(), Ok(Some(MemberDeclaration::Padding(3))));
    assert_eq!(parser.consumed(), 6);
    assert_eq!(checkpoint.consumed(), 4);
    assert!(parser.parse_member().is_err());
    assert_eq!(parser.consumed(), 7);
    assert_eq!(parser.parse_member(), Ok(None));
    assert_eq!(parser.consumed(), 7);
}

#[test]
fn failing_token_is_consumed() {
    let tokens = tokenize("a.b. ; x");
    let mut parser = Parser::new(&tokens);
    assert!(parser.parse_qualified_name().is_err());
    assert_eq!(parser.consumed(), 4);
    let tokens = tokenize("; ;");
    let mut parser = Parser::new(&tokens);
    assert_eq!(parser.parse_qualified_name(), Err(ParseError::MissingIdentifier));
    assert_eq!(parser.consumed(), 0);
    assert!(parser.assert_next_token_matches(TokenType::Colon).is_err());
    assert_eq!(parser.consumed(), 1);
    assert!(parser.try_parse_field("nothing").is_err());
    assert_eq!(parser.consumed(), 1);
}

#[test]
fn next_token_is_asked_by_a_closure() {
    let tokens = tokenize("ab 12 ;");
    let mut parser = Parser::new(&tokens);
    let text = parser.get_next_token_if(|t| match t.get() {
        TokenType::Identifier(id) => Some(id.clone()),
        _ => None,
    });
    assert_eq!(text, Ok(String::from("ab")));
    let refused = parser.get_next_token_if(|t| match t.get() {
        TokenType::Identifier(id) => Some(id.clone()),
        _ => None,
    });
    assert_eq!(
        refused,
        Err(Some(Token::from_range(
            TokenType::IntegerLiteral(String::from("12")),
            SourceRange::new(SourcePoint::new(0, 3), SourcePoint::new(0, 5))
        )))
    );
    assert_eq!(
        parser.assert_next_token(|t| *t.get() == TokenType::SemiColon),
        Ok(Token::from_point(TokenType::SemiColon, SourcePoint::new(0, 6)))
    );
    assert_eq!(parser.assert_next_token(|_| true), Err(None));
    assert_eq!(parser.get_next_token_if(|_| Some(1)), Err(None));
    let tokens = tokenize(":");
    let mut parser = Parser::new(&tokens);
    assert_eq!(
        parser.assert_next_token(|t| *t.get() == TokenType::SemiColon),
        Err(Some(Token::from_point(TokenType::Colon, SourcePoint::new(0, 0))))
    );
    assert_eq!(parser.consumed(), 1);
}

#[test]
fn written_schema_is_parsed_back() {
    let text = "protocol a.b ; message m [ 7 ] { 3 ; u32 [ 12 ] : xs ; byte [ 2 ] : raw ; \
                ascii [ 5 ] : name ; f64 : ratio ; } message n [ 0 ] { }";
    let unit = parse(&tokenize(text)).unwrap();
    assert_eq!(
        unit,
        SyntaxUnit {
            protocol: ProtocolDeclarationSyntax::new(names(&["a", "b"])),
            declarations: vec![
                DeclarationSyntax::Message(MessageDeclarationSyntax {
                    name: String::from("m"),
                    id: 7,
                    members: vec![
                        MemberDeclaration::Padding(3),
                        field(
                            "xs",
                            FieldType_::Vector(ArrayLike::FixedArray {
                                scalar: ScalarType::Unsigned(Unsigned::U32),
                                length: 12
                            })
                        ),
                        field("raw", FieldType_::Vector(ArrayLike::Bytes { length: 2 })),
                        field("name", FieldType_::Vector(ArrayLike::AsciiString { length: 5 })),
                        field(
                            "ratio",
                            FieldType_::Scalar(ScalarType::Float(
                                sss::data_types::scalar::Float::F64
                            ))
                        ),
                    ],
                }),
                DeclarationSyntax::Message(MessageDeclarationSyntax {
                    name: String::from("n"),
                    id: 0,
                    members: vec![],
                }),
            ],
        }
    );
}
