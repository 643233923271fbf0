use sss::lexer::{
    decode, is_digit, is_identifier_char, is_letter, is_whitespace, lex_keyword, tokenize,
    tokenize_strict, Keyword, Lexer, LexerError, Token, TokenType,
};
use sss::source::{SourceLocation, SourcePoint, SourceRange};

fn kinds(text: &str) -> Vec<TokenType> {
    tokenize(text).iter().map(|t| t.get().clone()).collect()
}

fn identifier(text: &str) -> TokenType {
    TokenType::Identifier(String::from(text))
}

fn number(text: &str) -> TokenType {
    TokenType::IntegerLiteral(String::from(text))
}

#[test]
fn test_token_macro() {
    assert_eq!(TokenType::Colon, TokenType::Colon);

    assert_eq!(TokenType::Comma, TokenType::Comma);

    assert_eq!(TokenType::SemiColon, TokenType::SemiColon);
    assert_eq!(identifier("foo"), TokenType::Identifier(String::from("foo")));
}

#[test]
fn test_lex_identifier() {
    assert_eq!(kinds("a"), vec![identifier("a")]);
}

#[test]
fn test_lex_colon_after_identifier() {
    assert_eq!(kinds("id:   "), vec![identifier("id"), TokenType::Colon]);
}

#[test]
fn test_lex_locations_valid_with_whitespace() {
    assert_eq!(kinds("    id :"), vec![identifier("id"), TokenType::Colon]);
}

#[test]
fn test_lexer() {
    assert_eq!(
        kinds("an_identifier 123 [ ] ;\n:foobert421_fasga:\n, { }"),
        vec![
            identifier("an_identifier"),
            number("123"),
            TokenType::OpenBracket,
            TokenType::CloseBracket,
            TokenType::SemiColon,
            TokenType::Colon,
            identifier("foobert421_fasga"),
            TokenType::Colon,
            TokenType::Comma,
            TokenType::OpenBrace,
            TokenType::CloseBrace,
        ]
    );
}

#[test]
fn lexer_records_locations() {
    let tokens = tokenize("ab 12\n  ;x");
    let expected = vec![
        Token::from_range(
            identifier("ab"),
            SourceRange::new(SourcePoint::new(0, 0), SourcePoint::new(0, 2)),
        ),
        Token::new(
            number("12"),
            SourceLocation::Range(SourceRange::new(SourcePoint::new(0, 3), SourcePoint::new(0, 5))),
        ),
        Token::from_point(TokenType::SemiColon, SourcePoint::new(1, 2)),
        Token::from_range(
            identifier("x"),
            SourceRange::new(SourcePoint::new(1, 3), SourcePoint::new(1, 4)),
        ),
    ];
    assert_eq!(tokens, expected);
    assert_eq!(tokens[2].get_location(), SourceLocation::Point(SourcePoint::new(1, 2)));
    assert_eq!(kinds("protocol")[0], TokenType::Keyword(Keyword::Protocol));
}

#[test]
fn test_lex_type() {
    assert_eq!(
        kinds("struct foo {\n    uint32 id;\n    uint8  flags;\n    bool   enabled;\n} "),
        vec![
            TokenType::Keyword(Keyword::Struct),
            identifier("foo"),
            TokenType::OpenBrace,
            identifier("uint32"),
            identifier("id"),
            TokenType::SemiColon,
            identifier("uint8"),
            identifier("flags"),
            TokenType::SemiColon,
            identifier("bool"),
            identifier("enabled"),
            TokenType::SemiColon,
            TokenType::CloseBrace,
        ]
    );
}

#[test]
fn protocol_line_gives_seven_tokens() {
    assert_eq!(
        kinds("protocol foo.bar.baz;"),
        vec![
            TokenType::Keyword(Keyword::Protocol),
            identifier("foo"),
            TokenType::Dot,
            identifier("bar"),
            TokenType::Dot,
            identifier("baz"),
            TokenType::SemiColon,
        ]
    );
}

#[test]
fn keywords_are_matched_exactly() {
    assert_eq!(lex_keyword("enum"), Some(Keyword::Enum));
    assert_eq!(lex_keyword("message"), Some(Keyword::Message));
    assert_eq!(lex_keyword("protocol"), Some(Keyword::Protocol));
    assert_eq!(lex_keyword("reserved"), Some(Keyword::Reserved));
    assert_eq!(lex_keyword("struct"), Some(Keyword::Struct));
    assert_eq!(lex_keyword("Struct"), None);
    assert_eq!(lex_keyword("structs"), None);
    assert_eq!(lex_keyword(""), None);
    assert_eq!(
        kinds("enum Enum enums message_ reserved"),
        vec![
            TokenType::Keyword(Keyword::Enum),
            identifier("Enum"),
            identifier("enums"),
            identifier("message_"),
            TokenType::Keyword(Keyword::Reserved),
        ]
    );
}

#[test]
fn words_and_numbers_take_the_longest_run() {
    assert_eq!(kinds("12ab"), vec![number("12"), identifier("ab")]);
    assert_eq!(kinds("ab12_c3"), vec![identifier("ab12_c3")]);
    assert_eq!(kinds("007"), vec![number("007")]);
    assert_eq!(kinds("a.b"), vec![identifier("a"), TokenType::Dot, identifier("b")]);
}

#[test]
fn empty_and_blank_texts_have_no_token() {
    assert_eq!(kinds(""), vec![]);
    assert_eq!(kinds(" \t\r\n\u{a0}\u{3000} "), vec![]);
    assert_eq!(tokenize_strict(""), Ok(vec![]));
    assert_eq!(tokenize_strict("  \n "), Ok(vec![]));
}

#[test]
fn unknown_character_ends_the_tokens() {
    assert_eq!(kinds("ab # cd"), vec![identifier("ab")]);
    assert_eq!(kinds("_x"), vec![]);
    assert_eq!(kinds("x = 1"), vec![identifier("x")]);
}

#[test]
fn strict_lexing_reports_the_character() {
    assert_eq!(
        tokenize_strict("ab # cd"),
        Err(LexerError::UnexpectedError(SourcePoint::new(0, 3)))
    );
    assert_eq!(
        tokenize_strict("a;\n  _x"),
        Err(LexerError::InvalidIdentifier(SourcePoint::new(1, 2)))
    );
    assert_eq!(
        tokenize_strict("a -5"),
        Err(LexerError::InvalidInteger(SourcePoint::new(0, 2)))
    );
    assert_eq!(
        tokenize_strict("a +7"),
        Err(LexerError::InvalidInteger(SourcePoint::new(0, 2)))
    );
    assert_eq!(tokenize_strict("a -"), Err(LexerError::UnexpectedError(SourcePoint::new(0, 2))));
    assert_eq!(tokenize_strict("a -b"), Err(LexerError::UnexpectedError(SourcePoint::new(0, 2))));
    assert_eq!(tokenize_strict("\u{e9}"), Err(LexerError::UnexpectedError(SourcePoint::new(0, 0))));
}

#[test]
fn strict_lexing_agrees_where_nothing_is_wrong() {
    let text = "protocol a.b;\nmessage m [1] { u8: x; 4; }";
    assert_eq!(tokenize_strict(text), Ok(tokenize(text)));
    assert_eq!(tokenize(text).len(), 18);
}

#[test]
fn lexer_steps_through_characters() {
    let chars = decode("a\nbc");
    let mut lexer = Lexer::new(&chars);
    assert_eq!(lexer.current_char(), Some('a'));
    assert!(lexer.has_current_char());
    assert_eq!(lexer.peek_next_char(), Some('\n'));
    assert!(lexer.has_next_char());
    assert_eq!(lexer.current_location(), SourcePoint::new(0, 0));
    assert_eq!(lexer.next_char(), Some('\n'));
    assert_eq!(lexer.current_location(), SourcePoint::new(0, 1));
    assert_eq!(lexer.next_char(), Some('b'));
    assert_eq!(lexer.current_location(), SourcePoint::new(1, 0));
    assert_eq!(lexer.peek_next_char(), Some('c'));
    assert_eq!(lexer.next_char(), Some('c'));
    assert_eq!(lexer.current_location(), SourcePoint::new(1, 1));
    assert!(!lexer.has_next_char());
    assert_eq!(lexer.peek_next_char(), None);
    assert_eq!(lexer.next_char(), None);
    assert_eq!(lexer.current_location(), SourcePoint::new(1, 2));
    assert!(!lexer.has_current_char());
    assert_eq!(lexer.next_char(), None);
    assert_eq!(lexer.current_location(), SourcePoint::new(1, 2));
}

#[test]
fn lexer_advances_by_a_count() {
    let chars = decode("ab\ncd");
    let mut lexer = Lexer::new(&chars);
    lexer.advance_cursor(0);
    assert_eq!(lexer.current_char(), Some('a'));
    lexer.advance_cursor(3);
    assert_eq!(lexer.current_char(), Some('c'));
    assert_eq!(lexer.current_location(), SourcePoint::new(1, 0));
    lexer.advance_cursor(100);
    assert_eq!(lexer.current_char(), None);
    assert_eq!(lexer.current_location(), SourcePoint::new(1, 2));
}

#[test]
fn lexer_hands_out_tokens_one_by_one() {
    let chars = decode(" u8 : x ; ?");
    let mut lexer = Lexer::new(&chars);
    let mut copy = lexer.clone();
    assert_eq!(lexer.next_token().map(|t| t.get().clone()), Some(identifier("u8")));
    assert_eq!(lexer.next_token().map(|t| t.get().clone()), Some(TokenType::Colon));
    assert_eq!(copy.next_token().map(|t| t.get().clone()), Some(identifier("u8")));
    assert_eq!(lexer.next_token().map(|t| t.get().clone()), Some(identifier("x")));
    assert_eq!(lexer.next_token().map(|t| t.get().clone()), Some(TokenType::SemiColon));
    assert_eq!(lexer.next_token(), None);
    assert_eq!(lexer.current_char(), Some('?'));
    assert_eq!(lexer.next_token(), None);
    assert_eq!(
        lexer.next_token_strict(),
        Err(LexerError::UnexpectedError(SourcePoint::new(0, 10)))
    );
    let short = decode("x ");
    let mut at_end = Lexer::new(&short);
    assert!(at_end.next_token_strict().unwrap().is_some());
    assert_eq!(at_end.next_token_strict(), Ok(None));
}

#[test]
fn reading_a_token_again_gives_the_same_token() {
    let text = "protocol a.b;\n\n  message foo_1 [42] {\n\tu8[3]: xs; }";
    for token in tokenize(text) {
        let (start, written) = match (token.get_location(), token.get()) {
            (SourceLocation::Point(p), TokenType::SemiColon) => (p, String::from(";")),
            (SourceLocation::Point(p), TokenType::Colon) => (p, String::from(":")),
            (SourceLocation::Point(p), TokenType::Comma) => (p, String::from(",")),
            (SourceLocation::Point(p), TokenType::Dot) => (p, String::from(".")),
            (SourceLocation::Point(p), TokenType::OpenBrace) => (p, String::from("{")),
            (SourceLocation::Point(p), TokenType::CloseBrace) => (p, String::from("}")),
            (SourceLocation::Point(p), TokenType::OpenBracket) => (p, String::from("[")),
            (SourceLocation::Point(p), TokenType::CloseBracket) => (p, String::from("]")),
            (SourceLocation::Range(r), TokenType::Identifier(s)) => (r.from, s.clone()),
            (SourceLocation::Range(r), TokenType::IntegerLiteral(s)) => (r.from, s.clone()),
            (SourceLocation::Range(r), TokenType::Keyword(k)) => (
                r.from,
                String::from(match k {
                    Keyword::Enum => "enum",
                    Keyword::Message => "message",
                    Keyword::Protocol => "protocol",
                    Keyword::Reserved => "reserved",
                    Keyword::Struct => "struct",
                }),
            ),
            other => panic!("a token of the lexer has no such shape: {:?}", other),
        };
        let mut rebuilt = String::new();
        for _ in 0..start.line {
            rebuilt.push('\n');
        }
        for _ in 0..start.col {
            rebuilt.push(' ');
        }
        rebuilt.push_str(&written);
        assert_eq!(tokenize(&rebuilt), vec![token]);
    }
}

#[test]
fn white_space_is_that_of_the_standard_library() {
    for code in 0..=0x10FFFFu32 {
        if let Some(ch) = char::from_u32(code) {
            assert_eq!(is_whitespace(ch), ch.is_whitespace(), "U+{:04X}", code);
            assert_eq!(is_letter(ch), ch.is_ascii_alphabetic(), "U+{:04X}", code);
            assert_eq!(is_digit(ch), ch.is_ascii_digit(), "U+{:04X}", code);
            assert_eq!(
                is_identifier_char(ch),
                ch.is_ascii_alphanumeric() || ch == '_',
                "U+{:04X}",
                code
            );
        }
    }
}

#[test]
fn tokens_compare_by_kind_text_and_place() {
    let a = Token::from_point(TokenType::Dot, SourcePoint::new(0, 1));
    let b = Token::new(TokenType::Dot, SourceLocation::Point(SourcePoint::new(0, 1)));
    let c = Token::from_point(TokenType::Dot, SourcePoint::new(0, 2));
    let d = Token::from_point(TokenType::Comma, SourcePoint::new(0, 1));
    assert_eq!(a, b);
    assert_ne!(a, c);
    assert_ne!(a, d);
    assert_eq!(a.clone(), a);
    assert_ne!(identifier("a"), identifier("b"));
    assert_ne!(identifier("1"), number("1"));
    assert_ne!(TokenType::Illegal, TokenType::Dot);
    assert_eq!(*a.get(), TokenType::Dot);
}

#[test]
fn decoding_gives_the_characters() {
    assert_eq!(decode(""), Vec::<char>::new());
    assert_eq!(decode("a\u{e9}\u{1F600}b"), vec!['a', '\u{e9}', '\u{1F600}', 'b']);
}
