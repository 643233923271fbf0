//! The parser: from tokens to the syntax tree.
//!
//! A [`Parser`] holds the tokens and a position among them. Each parsing
//! function reads one construct from the position on and leaves the
//! position behind the last token that it consumed. What it returns, and
//! where it stops, is what the grammar in [`grammar`] says for the tokens
//! and the position at which it started.

pub mod error;
pub mod grammar;
pub mod laws;
pub mod number;
pub mod written;

pub use error::{ParseError, ParseErrorView};

use crate::data_types::{ArrayLike, FieldType_, ScalarType};
use crate::lexer::{token_views, Keyword, Token, TokenKind, TokenType, TokenView};
use crate::parser::error::{optional_view, plain_result, result_view};
use crate::parser::grammar::{has_token, Step};
use crate::parser::laws::lemma_unit_well_formed;
use crate::parser::number::parse_decimal;
use crate::syntax::{
    member_views, DeclarationSyntax, FieldDeclaration, MemberDeclaration,
    MessageDeclarationSyntax, ProtocolDeclarationSyntax, SyntaxUnit,
};
use vstd::prelude::*;

verus! {

/// A cursor over a sequence of tokens. The tokens are borrowed, so a copy
/// of the parser is a checkpoint: it costs no more than the position, and
/// reading on with either leaves the other where it was.
#[derive(Debug)]
pub struct Parser<'a> {
    tokens: &'a [Token],
    position: usize,
}

/// Parses a whole schema from its tokens.
pub fn parse(tokens: &[Token]) -> (unit: Result<SyntaxUnit, ParseError>)
    ensures
        result_view(unit) == grammar::unit(token_views(tokens@), 0).result,
        unit matches Ok(schema) ==> schema@.well_formed(),
{
    let mut parser = Parser::new(tokens);
    parser.parse()
}

/// `found` is what comes of asking `token_matches` about `token`: its
/// answer, or the token itself where it gave none.
pub open spec fn asked<R, F: FnOnce(&Token) -> Option<R>>(
    token_matches: F,
    token: Token,
    found: Result<R, Option<Token>>,
) -> bool {
    match found {
        Ok(answer) => call_ensures(token_matches, (&token,), Some(answer)),
        Err(given) => given == Some(token) && call_ensures(token_matches, (&token,), None::<R>),
    }
}

impl<'a> Parser<'a> {
    /// The position lies among the tokens or at their end.
    #[verifier::type_invariant]
    spec fn well_formed(&self) -> bool {
        self.position <= self.tokens.len()
    }

    /// The tokens that are parsed.
    pub closed spec fn tokens(&self) -> Seq<TokenView> {
        token_views(self.tokens@)
    }

    /// The number of tokens that have been consumed.
    pub closed spec fn position(&self) -> int {
        self.position as int
    }

    /// A parser in front of the first of `tokens`.
    pub fn new(tokens: &'a [Token]) -> (parser: Parser<'a>)
        ensures
            parser.tokens() == token_views(tokens@),
            parser.position() == 0,
    {
        Parser { tokens, position: 0 }
    }

    /// The number of tokens that have been consumed.
    pub fn consumed(&self) -> (count: usize)
        ensures
            count == self.position(),
            count <= self.tokens().len(),
    {
        proof {
            use_type_invariant(self);
        }
        self.position
    }

    /// Consumes the token at the position, if there is one.
    fn next(&mut self) -> (token: Option<Token>)
        ensures
            final(self).tokens() == old(self).tokens(),
            0 <= old(self).position() <= old(self).tokens().len(),
            match token {
                Some(found) => {
                    &&& has_token(old(self).tokens(), old(self).position())
                    &&& found@ == old(self).tokens()[old(self).position()]
                    &&& final(self).position() == old(self).position() + 1
                },
                None => {
                    &&& !has_token(old(self).tokens(), old(self).position())
                    &&& final(self).position() == old(self).position()
                },
            },
    {
        proof {
            use_type_invariant(&*self);
        }
        if self.position < self.tokens.len() {
            let token = self.tokens[self.position].clone();
            self.position = self.position + 1;
            Some(token)
        } else {
            None
        }
    }

    /// Consumes the next token and asks `token_matches` what it holds. An
    /// answer is returned as it is; where there is none, the token itself
    /// is the failure, and where the tokens have ended, the failure is
    /// empty.
    pub fn get_next_token_if<R, F: FnOnce(&Token) -> Option<R>>(&mut self, token_matches: F) -> (found:
        Result<R, Option<Token>>)
        requires
            forall|token: &Token| call_requires(token_matches, (token,)),
        ensures
            final(self).tokens() == old(self).tokens(),
            !has_token(old(self).tokens(), old(self).position()) ==> {
                &&& found == Err::<R, Option<Token>>(None)
                &&& final(self).position() == old(self).position()
            },
            has_token(old(self).tokens(), old(self).position()) ==> {
                &&& final(self).position() == old(self).position() + 1
                &&& exists|token: Token|
                    token@ == old(self).tokens()[old(self).position()] && #[trigger] asked(
                        token_matches,
                        token,
                        found,
                    )
            },
    {
        match self.next() {
            None => Err(None),
            Some(token) => {
                let ghost seen = token;
                let found = match token_matches(&token) {
                    None => Err(Some(token)),
                    Some(answer) => Ok(answer),
                };
                assert(asked(token_matches, seen, found));
                found
            },
        }
    }

    /// Consumes the next token, which `token_matches` must accept. A token
    /// that it does not accept is the failure, and where the tokens have
    /// ended, the failure is empty.
    pub fn assert_next_token<F: FnOnce(&Token) -> bool>(&mut self, token_matches: F) -> (found:
        Result<Token, Option<Token>>)
        requires
            forall|token: &Token| call_requires(token_matches, (token,)),
        ensures
            final(self).tokens() == old(self).tokens(),
            !has_token(old(self).tokens(), old(self).position()) ==> {
                &&& found == Err::<Token, Option<Token>>(None)
                &&& final(self).position() == old(self).position()
            },
            has_token(old(self).tokens(), old(self).position()) ==> {
                &&& final(self).position() == old(self).position() + 1
                &&& match found {
                    Ok(token) => {
                        &&& token@ == old(self).tokens()[old(self).position()]
                        &&& call_ensures(token_matches, (&token,), true)
                    },
                    Err(Some(token)) => {
                        &&& token@ == old(self).tokens()[old(self).position()]
                        &&& call_ensures(token_matches, (&token,), false)
                    },
                    Err(None) => false,
                }
            },
    {
        match self.next() {
            None => Err(None),
            Some(token) => {
                if token_matches(&token) {
                    Ok(token)
                } else {
                    Err(Some(token))
                }
            },
        }
    }

    /// Consumes the next token, which must be of the kind `tt`.
    pub fn assert_next_token_matches(&mut self, tt: TokenType) -> (token: Result<
        Token,
        ParseError,
    >)
        ensures
            final(self).tokens() == old(self).tokens(),
            (Step { result: result_view(token), position: final(self).position() })
                == grammar::expect(old(self).tokens(), old(self).position(), tt@),
    {
        match self.next() {
            Some(token) => {
                if *token.get() == tt {
                    Ok(token)
                } else {
                    Err(ParseError::UnexpectedToken(token, None))
                }
            },
            None => Err(ParseError::ExpectedAToken),
        }
    }

    /// Consumes an identifier and returns its text, or nothing where the
    /// tokens have ended.
    pub fn get_identifier(&mut self) -> (name: Result<Option<String>, ParseError>)
        ensures
            final(self).tokens() == old(self).tokens(),
            (Step { result: optional_view(name), position: final(self).position() })
                == grammar::identifier(old(self).tokens(), old(self).position()),
    {
        match self.next() {
            Some(token) => match token.get() {
                TokenType::Identifier(text) => Ok(Some(text.clone())),
                _ => Err(
                    ParseError::UnexpectedToken(token, Some("Expected an identifier".to_owned())),
                ),
            },
            None => Ok(None),
        }
    }

    /// Consumes an integer literal and returns its value.
    pub fn parse_number(&mut self) -> (value: Result<usize, ParseError>)
        ensures
            final(self).tokens() == old(self).tokens(),
            (Step { result: plain_result(value), position: final(self).position() })
                == grammar::number(old(self).tokens(), old(self).position()),
    {
        match self.next() {
            None => Err(ParseError::ExpectedAToken),
            Some(token) => match token.get() {
                TokenType::IntegerLiteral(text) => match parse_decimal(text.as_str()) {
                    Some(value) => Ok(value),
                    None => Err(ParseError::InvalidNumberFormat),
                },
                _ => Err(ParseError::UnexpectedToken(token, None)),
            },
        }
    }

    /// Reads the length of an array behind its opening bracket, with the
    /// closing bracket, and builds the array-like type of `scalar_type`.
    pub fn try_parse_vector_type(&mut self, scalar_type: ScalarType) -> (array: Result<
        ArrayLike,
        ParseError,
    >)
        ensures
            final(self).tokens() == old(self).tokens(),
            (Step { result: plain_result(array), position: final(self).position() })
                == grammar::vector_type(old(self).tokens(), old(self).position(), scalar_type),
    {
        let length = match self.next() {
            None => {
                return Err(ParseError::ExpectedAToken);
            },
            Some(token) => match token.get() {
                TokenType::IntegerLiteral(text) => match parse_decimal(text.as_str()) {
                    None => {
                        return Err(ParseError::InvalidNumberFormat);
                    },
                    Some(length) => {
                        if length == 0 {
                            return Err(
                                ParseError::UnexpectedToken(
                                    token,
                                    Some("Expected an non-zero integer size".to_owned()),
                                ),
                            );
                        }
                        length
                    },
                },
                _ => {
                    return Err(
                        ParseError::UnexpectedToken(
                            token,
                            Some("Expected an non-zero integer size".to_owned()),
                        ),
                    );
                },
            },
        };
        match self.assert_next_token_matches(TokenType::CloseBracket) {
            Err(error) => Err(error),
            Ok(_) => Ok(ArrayLike::from_scalar(scalar_type, length)),
        }
    }

    /// Reads what follows the name of a field's type, up to the colon.
    fn parse_field_type(&mut self, scalar_type: ScalarType) -> (field_type: Result<
        FieldType_,
        ParseError,
    >)
        ensures
            final(self).tokens() == old(self).tokens(),
            (Step { result: plain_result(field_type), position: final(self).position() })
                == grammar::field_type(old(self).tokens(), old(self).position(), scalar_type),
    {
        match self.next() {
            None => Err(ParseError::ExpectedAToken),
            Some(token) => match token.get() {
                TokenType::OpenBracket => {
                    let array = match self.try_parse_vector_type(scalar_type) {
                        Err(error) => {
                            return Err(error);
                        },
                        Ok(array) => array,
                    };
                    match self.assert_next_token_matches(TokenType::Colon) {
                        Err(error) => Err(error),
                        Ok(_) => Ok(FieldType_::Vector(array)),
                    }
                },
                TokenType::Colon => Ok(FieldType_::Scalar(scalar_type)),
                _ => Err(ParseError::UnexpectedToken(token, None)),
            },
        }
    }

    /// Reads a field behind the name of its type, which is `identifier`.
    /// A field that is read is always returned: there is no `Ok(None)`.
    pub fn try_parse_field(&mut self, identifier: &str) -> (field: Result<
        Option<FieldDeclaration>,
        ParseError,
    >)
        ensures
            final(self).tokens() == old(self).tokens(),
            final(self).position() == grammar::field(
                old(self).tokens(),
                old(self).position(),
                identifier@,
            ).position,
            optional_view(field) == match grammar::field(
                old(self).tokens(),
                old(self).position(),
                identifier@,
            ).result {
                Ok(declared) => Ok(Some(declared)),
                Err(error) => Err(error),
            },
    {
        let scalar_type = match ScalarType::try_parse(identifier) {
            None => {
                return Err(ParseError::UnknownType);
            },
            Some(scalar_type) => scalar_type,
        };
        let field_type = match self.parse_field_type(scalar_type) {
            Err(error) => {
                return Err(error);
            },
            Ok(field_type) => field_type,
        };
        let name = match self.get_identifier() {
            Err(error) => {
                return Err(error);
            },
            Ok(None) => {
                return Err(ParseError::ExpectedAToken);
            },
            Ok(Some(name)) => name,
        };
        match self.assert_next_token_matches(TokenType::SemiColon) {
            Err(error) => Err(error),
            Ok(_) => Ok(Some(FieldDeclaration { name, field_type, description: None })),
        }
    }

    /// Reads one member of a message body. A semicolon alone is no member,
    /// and neither is the end of the tokens.
    pub fn parse_member(&mut self) -> (member: Result<Option<MemberDeclaration>, ParseError>)
        ensures
            final(self).tokens() == old(self).tokens(),
            (Step { result: optional_view(member), position: final(self).position() })
                == grammar::member(old(self).tokens(), old(self).position()),
    {
        match self.next() {
            None => Ok(None),
            Some(token) => match token.get() {
                TokenType::Identifier(type_text) => match self.try_parse_field(
                    type_text.as_str(),
                ) {
                    Err(error) => Err(error),
                    Ok(None) => Ok(None),
                    Ok(Some(field)) => Ok(Some(MemberDeclaration::Field(field))),
                },
                TokenType::IntegerLiteral(text) => match parse_decimal(text.as_str()) {
                    None => Err(ParseError::InvalidNumberFormat),
                    Some(count) => match self.assert_next_token_matches(TokenType::SemiColon) {
                        Err(error) => Err(error),
                        Ok(_) => Ok(Some(MemberDeclaration::Padding(count))),
                    },
                },
                TokenType::SemiColon => Ok(None),
                _ => Err(ParseError::UnexpectedToken(token, None)),
            },
        }
    }

    /// Reads a message behind the word `message`: its name, its number in
    /// brackets, and its members in braces, in the order in which they are
    /// written.
    #[verifier::loop_isolation(false)]
    pub fn parse_message_declaration(&mut self) -> (message: Result<
        MessageDeclarationSyntax,
        ParseError,
    >)
        ensures
            final(self).tokens() == old(self).tokens(),
            (Step { result: result_view(message), position: final(self).position() })
                == grammar::message(old(self).tokens(), old(self).position()),
    {
        let identifier = |token: &Token| -> (text: Option<String>)
            ensures
                match text {
                    Some(text) => token@.kind == TokenKind::Identifier(text@),
                    None => !(token@.kind is Identifier),
                },
            {
                match token.get() {
                    TokenType::Identifier(text) => Some(text.clone()),
                    _ => None,
                }
            };
        let name = match self.get_next_token_if(identifier) {
            Err(None) => {
                return Err(ParseError::ExpectedAToken);
            },
            Err(Some(token)) => {
                return Err(ParseError::UnexpectedToken(token, None));
            },
            Ok(name) => name,
        };
        match self.assert_next_token_matches(TokenType::OpenBracket) {
            Err(error) => {
                return Err(error);
            },
            Ok(_) => {},
        }
        let id = match self.parse_number() {
            Err(error) => {
                return Err(error);
            },
            Ok(id) => id,
        };
        match self.assert_next_token_matches(TokenType::CloseBracket) {
            Err(error) => {
                return Err(error);
            },
            Ok(_) => {},
        }
        match self.assert_next_token_matches(TokenType::OpenBrace) {
            Err(error) => {
                return Err(error);
            },
            Ok(_) => {},
        }
        let ghost body = self.position();
        let mut members: Vec<MemberDeclaration> = Vec::new();
        assert(member_views(members@) =~= Seq::empty());
        loop
            invariant
                self.tokens() == old(self).tokens(),
                0 <= self.position() <= self.tokens().len(),
                grammar::members(self.tokens(), body, Seq::empty()) == grammar::members(
                    self.tokens(),
                    self.position(),
                    member_views(members@),
                ),
            decreases self.tokens().len() - self.position(),
        {
            proof {
                use_type_invariant(&*self);
                grammar::lemma_member_moves_on(self.tokens(), self.position());
            }
            if self.position >= self.tokens.len() {
                return Err(ParseError::ExpectedAToken);
            }
            if *self.tokens[self.position].get() == TokenType::CloseBrace {
                self.position = self.position + 1;
                return Ok(MessageDeclarationSyntax { name, id, members });
            }
            let ghost found = member_views(members@);
            match self.parse_member() {
                Err(error) => {
                    return Err(error);
                },
                Ok(None) => {},
                Ok(Some(member)) => {
                    members.push(member);
                    assert(member_views(members@) =~= found.push(member@));
                },
            }
            proof {
                use_type_invariant(&*self);
            }
        }
    }

    /// Reads one declaration, or nothing where the tokens have ended.
    pub fn parse_declaration(&mut self) -> (declaration: Result<
        Option<DeclarationSyntax>,
        ParseError,
    >)
        ensures
            final(self).tokens() == old(self).tokens(),
            (Step { result: optional_view(declaration), position: final(self).position() })
                == grammar::declaration(old(self).tokens(), old(self).position()),
    {
        let token = match self.next() {
            None => {
                return Ok(None);
            },
            Some(token) => token,
        };
        proof {
            Keyword::Message.lemma_spelling_names_keyword("enum"@);
            Keyword::Enum.lemma_spelling_names_keyword("message"@);
        }
        let starts_message = match token.get() {
            TokenType::Keyword(Keyword::Message) => true,
            TokenType::Identifier(text) => *text.as_str() == *"message",
            _ => false,
        };
        if starts_message {
            return match self.parse_message_declaration() {
                Err(error) => Err(error),
                Ok(message) => Ok(Some(DeclarationSyntax::Message(message))),
            };
        }
        let known = match token.get() {
            TokenType::Keyword(Keyword::Enum) => true,
            TokenType::Identifier(text) => *text.as_str() == *"enum" || *text.as_str()
                == *"bitflags",
            _ => false,
        };
        let word = match token.get() {
            TokenType::Keyword(_) => true,
            TokenType::Identifier(_) => true,
            _ => false,
        };
        let hint = if known {
            "Declarations of this kind are not supported"
        } else if word {
            "Unexpected identifier, expected one of {message, enum, bitflags}"
        } else {
            "Expected an identifier"
        };
        Err(ParseError::UnexpectedToken(token, Some(hint.to_owned())))
    }

    /// Reads a dotted name and returns its parts.
    pub fn parse_qualified_name(&mut self) -> (name: Result<Vec<String>, ParseError>)
        ensures
            final(self).tokens() == old(self).tokens(),
            (Step {
                result: match name {
                    Ok(parts) => Ok(parts.deep_view()),
                    Err(error) => Err(error@),
                },
                position: final(self).position(),
            }) == grammar::qualified_name(old(self).tokens(), old(self).position()),
    {
        let ghost start = self.position();
        let first = self.position;
        let mut parts: Vec<String> = Vec::new();
        let mut dot_expected = false;
        proof {
            use_type_invariant(&*self);
            assert(parts.deep_view() =~= grammar::name_parts(self.tokens(), start, 0));
        }
        while self.position < self.tokens.len()
            invariant
                self.tokens() == old(self).tokens(),
                start == old(self).position(),
                start <= self.position() <= self.tokens().len(),
                dot_expected == ((self.position() - start) % 2 == 1),
                grammar::name_run(self.tokens(), start, false) == (self.position() - start)
                    + grammar::name_run(self.tokens(), self.position(), dot_expected),
                parts.deep_view() == grammar::name_parts(
                    self.tokens(),
                    start,
                    ((self.position() - start + 1) / 2) as nat,
                ),
                self.position() > start ==> grammar::name_run(
                    self.tokens(),
                    self.position() - 1,
                    !dot_expected,
                ) > 0,
            ensures
                self.tokens() == old(self).tokens(),
                start <= self.position() <= self.tokens().len(),
                dot_expected == ((self.position() - start) % 2 == 1),
                grammar::name_run(self.tokens(), start, false) == self.position() - start,
                parts.deep_view() == grammar::name_parts(
                    self.tokens(),
                    start,
                    ((self.position() - start + 1) / 2) as nat,
                ),
            decreases self.tokens().len() - self.position(),
        {
            let ghost seen = parts.deep_view();
            let ghost count = (self.position() - start + 1) / 2;
            match self.tokens[self.position].get() {
                TokenType::Identifier(text) => {
                    if dot_expected {
                        break ;
                    }
                    parts.push(text.clone());
                    assert(parts.deep_view() =~= seen.push(text@));
                    assert(seen.push(text@) =~= grammar::name_parts(
                        self.tokens(),
                        start,
                        (count + 1) as nat,
                    ));
                },
                TokenType::Dot => {
                    if !dot_expected {
                        break ;
                    }
                },
                _ => {
                    break ;
                },
            }
            dot_expected = !dot_expected;
            self.position = self.position + 1;
        }
        if self.position == first {
            Err(ParseError::MissingIdentifier)
        } else if !dot_expected {
            Err(ParseError::UnexpectedToken(self.tokens[self.position - 1].clone(), None))
        } else {
            Ok(parts)
        }
    }

    /// Reads the declaration of the namespace.
    pub fn parse_protocol(&mut self) -> (protocol: Result<ProtocolDeclarationSyntax, ParseError>)
        ensures
            final(self).tokens() == old(self).tokens(),
            (Step { result: result_view(protocol), position: final(self).position() })
                == grammar::protocol(old(self).tokens(), old(self).position()),
    {
        let token = match self.next() {
            None => {
                return Err(ParseError::ExpectedProtocolDeclaration);
            },
            Some(token) => token,
        };
        let starts_protocol = match token.get() {
            TokenType::Keyword(Keyword::Protocol) => true,
            TokenType::Identifier(text) => *text.as_str() == *"protocol",
            _ => false,
        };
        if !starts_protocol {
            return Err(ParseError::UnexpectedToken(token, None));
        }
        let components = match self.parse_qualified_name() {
            Err(error) => {
                return Err(error);
            },
            Ok(components) => components,
        };
        match self.assert_next_token_matches(TokenType::SemiColon) {
            Err(error) => Err(error),
            Ok(_) => Ok(ProtocolDeclarationSyntax::new(components)),
        }
    }

    /// Reads a whole schema: the namespace, then declarations up to the
    /// end of the tokens.
    #[verifier::loop_isolation(false)]
    pub fn parse(&mut self) -> (unit: Result<SyntaxUnit, ParseError>)
        ensures
            final(self).tokens() == old(self).tokens(),
            (Step { result: result_view(unit), position: final(self).position() })
                == grammar::unit(old(self).tokens(), old(self).position()),
            unit matches Ok(schema) ==> schema@.well_formed(),
    {
        proof {
            lemma_unit_well_formed(self.tokens(), self.position());
        }
        let protocol = match self.parse_protocol() {
            Err(error) => {
                return Err(error);
            },
            Ok(protocol) => protocol,
        };
        let ghost rest = self.position();
        let mut unit = SyntaxUnit::new(protocol);
        loop
            invariant
                self.tokens() == old(self).tokens(),
                0 <= self.position() <= self.tokens().len(),
                unit@.protocol == protocol@,
                grammar::declarations(self.tokens(), rest, Seq::empty()) == grammar::declarations(
                    self.tokens(),
                    self.position(),
                    unit@.declarations,
                ),
            decreases self.tokens().len() - self.position(),
        {
            proof {
                grammar::lemma_declaration_moves_on(self.tokens(), self.position());
            }
            match self.parse_declaration() {
                Err(error) => {
                    return Err(error);
                },
                Ok(None) => {
                    return Ok(unit);
                },
                Ok(Some(declaration)) => {
                    unit.add_declaration(declaration);
                },
            }
            proof {
                use_type_invariant(&*self);
            }
        }
    }
}

impl<'a> Clone for Parser<'a> {
    /// A second cursor over the same tokens, at the same position.
    fn clone(&self) -> (copy: Parser<'a>)
        ensures
            copy.tokens() == self.tokens(),
            copy.position() == self.position(),
    {
        proof {
            use_type_invariant(self);
        }
        Parser { tokens: self.tokens, position: self.position }
    }
}

} // verus!
