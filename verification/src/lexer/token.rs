//! Tokens: what the lexer hands to the parser.

use crate::source::SourceLocation;
use crate::source::SourcePoint;
use crate::source::SourceRange;
use vstd::prelude::*;
use vstd::std_specs::cmp::PartialEqSpecImpl;

verus! {

/// The reserved words of the schema language.
#[derive(Debug, Clone, Copy, PartialEq, Eq, Structural)]
pub enum Keyword {
    Enum,
    Message,
    Protocol,
    Reserved,
    Struct,
}

impl Keyword {
    /// The way the keyword is written.
    pub open spec fn spelling(self) -> Seq<char> {
        match self {
            Keyword::Enum => "enum"@,
            Keyword::Message => "message"@,
            Keyword::Protocol => "protocol"@,
            Keyword::Reserved => "reserved"@,
            Keyword::Struct => "struct"@,
        }
    }

    /// The keyword that is written as `txt`, if there is one. The match is
    /// exact: case counts, and a keyword inside a longer word is none.
    pub open spec fn from_spelling(txt: Seq<char>) -> Option<Keyword> {
        if txt == "enum"@ {
            Some(Keyword::Enum)
        } else if txt == "message"@ {
            Some(Keyword::Message)
        } else if txt == "protocol"@ {
            Some(Keyword::Protocol)
        } else if txt == "reserved"@ {
            Some(Keyword::Reserved)
        } else if txt == "struct"@ {
            Some(Keyword::Struct)
        } else {
            None
        }
    }

    /// Each keyword is found again under its own spelling, and under no
    /// other.
    pub proof fn lemma_spelling_names_keyword(self, txt: Seq<char>)
        ensures
            Keyword::from_spelling(self.spelling()) == Some(self),
            Keyword::from_spelling(txt) == Some(self) <==> txt == self.spelling(),
    {
        reveal_strlit("enum");
        reveal_strlit("message");
        reveal_strlit("protocol");
        reveal_strlit("reserved");
        reveal_strlit("struct");
        assert("enum"@[0] == 'e' && "message"@[0] == 'm' && "protocol"@[0] == 'p'
            && "reserved"@[0] == 'r' && "struct"@[0] == 's');
    }
}

/// Looks `txt` up among the keywords.
pub fn lex_keyword(txt: &str) -> (keyword: Option<Keyword>)
    ensures
        keyword == Keyword::from_spelling(txt@),
{
    if *txt == *"enum" {
        Some(Keyword::Enum)
    } else if *txt == *"message" {
        Some(Keyword::Message)
    } else if *txt == *"protocol" {
        Some(Keyword::Protocol)
    } else if *txt == *"reserved" {
        Some(Keyword::Reserved)
    } else if *txt == *"struct" {
        Some(Keyword::Struct)
    } else {
        None
    }
}

/// The kinds of token, with the text of those that carry one.
#[derive(Debug, Eq)]
pub enum TokenType {
    Illegal,
    Identifier(String),
    Keyword(Keyword),
    IntegerLiteral(String),
    SemiColon,
    Colon,
    Comma,
    Dot,
    OpenBrace,
    CloseBrace,
    OpenBracket,
    CloseBracket,
}

/// What a `TokenType` stands for: its kind, with the text as a sequence of
/// characters.
pub ghost enum TokenKind {
    Illegal,
    Identifier(Seq<char>),
    Keyword(Keyword),
    IntegerLiteral(Seq<char>),
    SemiColon,
    Colon,
    Comma,
    Dot,
    OpenBrace,
    CloseBrace,
    OpenBracket,
    CloseBracket,
}

impl View for TokenType {
    type V = TokenKind;

    open spec fn view(&self) -> TokenKind {
        match self {
            TokenType::Illegal => TokenKind::Illegal,
            TokenType::Identifier(text) => TokenKind::Identifier(text@),
            TokenType::Keyword(keyword) => TokenKind::Keyword(*keyword),
            TokenType::IntegerLiteral(text) => TokenKind::IntegerLiteral(text@),
            TokenType::SemiColon => TokenKind::SemiColon,
            TokenType::Colon => TokenKind::Colon,
            TokenType::Comma => TokenKind::Comma,
            TokenType::Dot => TokenKind::Dot,
            TokenType::OpenBrace => TokenKind::OpenBrace,
            TokenType::CloseBrace => TokenKind::CloseBrace,
            TokenType::OpenBracket => TokenKind::OpenBracket,
            TokenType::CloseBracket => TokenKind::CloseBracket,
        }
    }
}

impl Clone for TokenType {
    fn clone(&self) -> (copy: TokenType)
        ensures
            copy == *self,
    {
        match self {
            TokenType::Illegal => TokenType::Illegal,
            TokenType::Identifier(text) => TokenType::Identifier(text.clone()),
            TokenType::Keyword(keyword) => TokenType::Keyword(*keyword),
            TokenType::IntegerLiteral(text) => TokenType::IntegerLiteral(text.clone()),
            TokenType::SemiColon => TokenType::SemiColon,
            TokenType::Colon => TokenType::Colon,
            TokenType::Comma => TokenType::Comma,
            TokenType::Dot => TokenType::Dot,
            TokenType::OpenBrace => TokenType::OpenBrace,
            TokenType::CloseBrace => TokenType::CloseBrace,
            TokenType::OpenBracket => TokenType::OpenBracket,
            TokenType::CloseBracket => TokenType::CloseBracket,
        }
    }
}

impl PartialEq for TokenType {
    fn eq(&self, other: &TokenType) -> (same: bool) {
        match (self, other) {
            (TokenType::Illegal, TokenType::Illegal) => true,
            (TokenType::Identifier(a), TokenType::Identifier(b)) => *a == *b,
            (TokenType::Keyword(a), TokenType::Keyword(b)) => *a == *b,
            (TokenType::IntegerLiteral(a), TokenType::IntegerLiteral(b)) => *a == *b,
            (TokenType::SemiColon, TokenType::SemiColon) => true,
            (TokenType::Colon, TokenType::Colon) => true,
            (TokenType::Comma, TokenType::Comma) => true,
            (TokenType::Dot, TokenType::Dot) => true,
            (TokenType::OpenBrace, TokenType::OpenBrace) => true,
            (TokenType::CloseBrace, TokenType::CloseBrace) => true,
            (TokenType::OpenBracket, TokenType::OpenBracket) => true,
            (TokenType::CloseBracket, TokenType::CloseBracket) => true,
            _ => false,
        }
    }
}

impl PartialEqSpecImpl for TokenType {
    open spec fn obeys_eq_spec() -> bool {
        true
    }

    open spec fn eq_spec(&self, other: &TokenType) -> bool {
        self@ == other@
    }
}

/// A token: its kind and the place in the source text where it stands.
#[derive(Debug, Eq)]
pub struct Token {
    token: TokenType,
    location: SourceLocation,
}

/// What a `Token` stands for.
pub ghost struct TokenView {
    pub kind: TokenKind,
    pub location: SourceLocation,
}

impl View for Token {
    type V = TokenView;

    closed spec fn view(&self) -> TokenView {
        TokenView { kind: self.token@, location: self.location }
    }
}

impl Token {
    /// The kind of the token.
    pub fn get(&self) -> (token: &TokenType)
        ensures
            token@ == self@.kind,
    {
        &self.token
    }

    /// The place of the token in the source text.
    pub fn get_location(&self) -> (location: SourceLocation)
        ensures
            location == self@.location,
    {
        self.location
    }

    /// A token that stands at a single position.
    pub fn from_point(token: TokenType, source_point: SourcePoint) -> (made: Token)
        ensures
            made@ == (TokenView { kind: token@, location: SourceLocation::Point(source_point) }),
    {
        Token { token, location: SourceLocation::Point(source_point) }
    }

    /// A token that covers a span.
    pub fn from_range(token: TokenType, source_range: SourceRange) -> (made: Token)
        ensures
            made@ == (TokenView { kind: token@, location: SourceLocation::Range(source_range) }),
    {
        Token { token, location: SourceLocation::Range(source_range) }
    }

    pub fn new(token: TokenType, location: SourceLocation) -> (made: Token)
        ensures
            made@ == (TokenView { kind: token@, location }),
    {
        Token { token, location }
    }
}

impl Clone for Token {
    fn clone(&self) -> (copy: Token)
        ensures
            copy == *self,
    {
        Token { token: self.token.clone(), location: self.location }
    }
}

impl PartialEq for Token {
    fn eq(&self, other: &Token) -> (same: bool) {
        self.token == other.token && self.location == other.location
    }
}

impl PartialEqSpecImpl for Token {
    open spec fn obeys_eq_spec() -> bool {
        true
    }

    open spec fn eq_spec(&self, other: &Token) -> bool {
        self@ == other@
    }
}

/// The views of a sequence of tokens, in the same order.
pub open spec fn token_views(tokens: Seq<Token>) -> Seq<TokenView> {
    tokens.map_values(|token: Token| token@)
}

} // verus!
