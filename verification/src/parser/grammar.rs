//! The grammar of the schema language, stated over a sequence of tokens:
//! for each construct, what is read from a given position on, and where
//! reading stops.
//!
//! ```text
//! unit           := protocol declaration*
//! protocol       := "protocol" qualified_name ";"
//! qualified_name := IDENT ("." IDENT)*
//! declaration    := "message" message
//! message        := IDENT "[" NUMBER "]" "{" member* "}"
//! member         := field | NUMBER ";" | ";"
//! field          := TYPE ("[" NUMBER "]")? ":" IDENT ";"
//! ```
//!
//! A token that is required is consumed, also where it is the wrong one
//! and reading fails at it; nothing behind a failure is read. Only a
//! dotted name stops in front of the token that does not continue it.

use crate::data_types::{ArrayLike, FieldType_, ScalarType};
use crate::lexer::{Keyword, TokenKind, TokenView};
use crate::parser::error::{
    hint_declaration, hint_identifier, hint_size, hint_unsupported, ParseErrorView,
};
use crate::parser::number::number_value;
use crate::syntax::{
    DeclarationView, FieldView, MemberView, MessageView, ProtocolView, UnitView,
};
use vstd::prelude::*;

verus! {

/// What reading a construct gives: the construct or the failure, and the
/// position behind the last token that was consumed.
pub ghost struct Step<T> {
    pub result: Result<T, ParseErrorView>,
    pub position: int,
}

/// Reading succeeded with `value` and stopped at `position`.
pub open spec fn done<T>(value: T, position: int) -> Step<T> {
    Step { result: Ok(value), position }
}

/// Reading failed with `error` and stopped at `position`.
pub open spec fn fail<T>(error: ParseErrorView, position: int) -> Step<T> {
    Step { result: Err(error), position }
}

/// There is a token at `at`.
pub open spec fn has_token(tokens: Seq<TokenView>, at: int) -> bool {
    0 <= at < tokens.len()
}

/// The token is the keyword, or an identifier that is spelled like it.
pub open spec fn is_word(kind: TokenKind, keyword: Keyword) -> bool {
    kind == TokenKind::Keyword(keyword) || kind == TokenKind::Identifier(keyword.spelling())
}

/// A token of the given kind is required: it is consumed and returned.
/// Another token is consumed too, and reported.
pub open spec fn expect(tokens: Seq<TokenView>, at: int, kind: TokenKind) -> Step<TokenView> {
    if !has_token(tokens, at) {
        fail(ParseErrorView::ExpectedAToken, at)
    } else if tokens[at].kind == kind {
        done(tokens[at], at + 1)
    } else {
        fail(ParseErrorView::UnexpectedToken(tokens[at], None), at + 1)
    }
}

/// An integer literal is required, and its value must fit the machine's
/// word.
pub open spec fn number(tokens: Seq<TokenView>, at: int) -> Step<usize> {
    if !has_token(tokens, at) {
        fail(ParseErrorView::ExpectedAToken, at)
    } else {
        match tokens[at].kind {
            TokenKind::IntegerLiteral(text) => match number_value(text) {
                Some(value) => done(value, at + 1),
                None => fail(ParseErrorView::InvalidNumberFormat, at + 1),
            },
            _ => fail(ParseErrorView::UnexpectedToken(tokens[at], None), at + 1),
        }
    }
}

/// An identifier, or nothing where the tokens have ended. Any other token
/// is reported.
pub open spec fn identifier(tokens: Seq<TokenView>, at: int) -> Step<Option<Seq<char>>> {
    if !has_token(tokens, at) {
        done(None, at)
    } else {
        match tokens[at].kind {
            TokenKind::Identifier(text) => done(Some(text), at + 1),
            _ => fail(
                ParseErrorView::UnexpectedToken(tokens[at], Some(hint_identifier())),
                at + 1,
            ),
        }
    }
}

/// The length of the longest run of tokens from `at` on in which
/// identifiers and dots take turns; `dot_expected` tells whose turn it is.
pub open spec fn name_run(tokens: Seq<TokenView>, at: int, dot_expected: bool) -> nat
    decreases tokens.len() - at,
{
    if has_token(tokens, at) && (if dot_expected {
        tokens[at].kind == TokenKind::Dot
    } else {
        tokens[at].kind is Identifier
    }) {
        1 + name_run(tokens, at + 1, !dot_expected)
    } else {
        0
    }
}

/// The first `count` identifiers of a run that starts at `at`: they stand
/// at every other token.
pub open spec fn name_parts(tokens: Seq<TokenView>, at: int, count: nat) -> Seq<Seq<char>> {
    Seq::new(count, |k: int| tokens[at + 2 * k].kind->Identifier_0)
}

/// A dotted name: the longest run of identifiers and dots in turn is
/// consumed. It must hold an identifier, and must not end in a dot.
pub open spec fn qualified_name(tokens: Seq<TokenView>, at: int) -> Step<Seq<Seq<char>>> {
    let run = name_run(tokens, at, false);
    if run == 0 {
        fail(ParseErrorView::MissingIdentifier, at)
    } else if run % 2 == 0 {
        fail(ParseErrorView::UnexpectedToken(tokens[at + run - 1], None), at + run)
    } else {
        done(name_parts(tokens, at, (run + 1) / 2), at + run)
    }
}

/// The declaration of the namespace: the word `protocol`, a dotted name
/// and a semicolon.
pub open spec fn protocol(tokens: Seq<TokenView>, at: int) -> Step<ProtocolView> {
    if !has_token(tokens, at) {
        fail(ParseErrorView::ExpectedProtocolDeclaration, at)
    } else if !is_word(tokens[at].kind, Keyword::Protocol) {
        fail(ParseErrorView::UnexpectedToken(tokens[at], None), at + 1)
    } else {
        let name = qualified_name(tokens, at + 1);
        match name.result {
            Err(error) => fail(error, name.position),
            Ok(components) => {
                let end = expect(tokens, name.position, TokenKind::SemiColon);
                match end.result {
                    Err(error) => fail(error, end.position),
                    Ok(_) => done(ProtocolView { components }, end.position),
                }
            },
        }
    }
}

/// The length of an array behind its opening bracket: an integer literal
/// that is not zero, and the closing bracket. Single-byte scalars make a
/// blob or a string, the others an array.
pub open spec fn vector_type(tokens: Seq<TokenView>, at: int, scalar: ScalarType) -> Step<
    ArrayLike,
> {
    if !has_token(tokens, at) {
        fail(ParseErrorView::ExpectedAToken, at)
    } else {
        match tokens[at].kind {
            TokenKind::IntegerLiteral(text) => match number_value(text) {
                None => fail(ParseErrorView::InvalidNumberFormat, at + 1),
                Some(length) => if length == 0 {
                    fail(ParseErrorView::UnexpectedToken(tokens[at], Some(hint_size())), at + 1)
                } else {
                    let close = expect(tokens, at + 1, TokenKind::CloseBracket);
                    match close.result {
                        Err(error) => fail(error, close.position),
                        Ok(_) => done(ArrayLike::of_scalar(scalar, length), close.position),
                    }
                },
            },
            _ => fail(ParseErrorView::UnexpectedToken(tokens[at], Some(hint_size())), at + 1),
        }
    }
}

/// What follows the name of a field's type, up to the colon: the colon
/// alone for a scalar, or a length in brackets and the colon.
pub open spec fn field_type(tokens: Seq<TokenView>, at: int, scalar: ScalarType) -> Step<
    FieldType_,
> {
    if !has_token(tokens, at) {
        fail(ParseErrorView::ExpectedAToken, at)
    } else {
        match tokens[at].kind {
            TokenKind::OpenBracket => {
                let vector = vector_type(tokens, at + 1, scalar);
                match vector.result {
                    Err(error) => fail(error, vector.position),
                    Ok(array) => {
                        let colon = expect(tokens, vector.position, TokenKind::Colon);
                        match colon.result {
                            Err(error) => fail(error, colon.position),
                            Ok(_) => done(FieldType_::Vector(array), colon.position),
                        }
                    },
                }
            },
            TokenKind::Colon => done(FieldType_::Scalar(scalar), at + 1),
            _ => fail(ParseErrorView::UnexpectedToken(tokens[at], None), at + 1),
        }
    }
}

/// A field behind the name of its type, which was read as `type_text`:
/// the rest of the type, the field's name and a semicolon.
pub open spec fn field(tokens: Seq<TokenView>, at: int, type_text: Seq<char>) -> Step<FieldView> {
    match ScalarType::from_spelling(type_text) {
        None => fail(ParseErrorView::UnknownType, at),
        Some(scalar) => {
            let typed = field_type(tokens, at, scalar);
            match typed.result {
                Err(error) => fail(error, typed.position),
                Ok(field_type) => {
                    let name = identifier(tokens, typed.position);
                    match name.result {
                        Err(error) => fail(error, name.position),
                        Ok(None) => fail(ParseErrorView::ExpectedAToken, name.position),
                        Ok(Some(name_text)) => {
                            let end = expect(tokens, name.position, TokenKind::SemiColon);
                            match end.result {
                                Err(error) => fail(error, end.position),
                                Ok(_) => done(
                                    FieldView { name: name_text, field_type, description: None },
                                    end.position,
                                ),
                            }
                        },
                    }
                },
            }
        },
    }
}

/// One member of a message body: a field, which starts with an
/// identifier; padding, which is an integer literal and a semicolon; or
/// nothing, for a semicolon alone and where the tokens have ended.
pub open spec fn member(tokens: Seq<TokenView>, at: int) -> Step<Option<MemberView>> {
    if !has_token(tokens, at) {
        done(None, at)
    } else {
        match tokens[at].kind {
            TokenKind::Identifier(type_text) => {
                let read = field(tokens, at + 1, type_text);
                match read.result {
                    Err(error) => fail(error, read.position),
                    Ok(declared) => done(Some(MemberView::Field(declared)), read.position),
                }
            },
            TokenKind::IntegerLiteral(text) => match number_value(text) {
                None => fail(ParseErrorView::InvalidNumberFormat, at + 1),
                Some(count) => {
                    let end = expect(tokens, at + 1, TokenKind::SemiColon);
                    match end.result {
                        Err(error) => fail(error, end.position),
                        Ok(_) => done(Some(MemberView::Padding(count)), end.position),
                    }
                },
            },
            TokenKind::SemiColon => done(None, at + 1),
            _ => fail(ParseErrorView::UnexpectedToken(tokens[at], None), at + 1),
        }
    }
}

/// The rest of a message body, behind the members `found` so far: members
/// up to the closing brace, which is consumed. The tokens must not end
/// before it.
pub open spec fn members(tokens: Seq<TokenView>, at: int, found: Seq<MemberView>) -> Step<
    Seq<MemberView>,
>
    decreases tokens.len() - at,
    via members_decreases
{
    if !has_token(tokens, at) {
        fail(ParseErrorView::ExpectedAToken, at)
    } else if tokens[at].kind == TokenKind::CloseBrace {
        done(found, at + 1)
    } else {
        let one = member(tokens, at);
        match one.result {
            Err(error) => fail(error, one.position),
            Ok(Some(declared)) => members(tokens, one.position, found.push(declared)),
            Ok(None) => members(tokens, one.position, found),
        }
    }
}

#[via_fn]
proof fn members_decreases(tokens: Seq<TokenView>, at: int, found: Seq<MemberView>) {
    lemma_member_moves_on(tokens, at);
}

/// A message behind the word `message`: its name, its number in brackets
/// and its body in braces.
pub open spec fn message(tokens: Seq<TokenView>, at: int) -> Step<MessageView> {
    if !has_token(tokens, at) {
        fail(ParseErrorView::ExpectedAToken, at)
    } else {
        match tokens[at].kind {
            TokenKind::Identifier(name) => {
                let open = expect(tokens, at + 1, TokenKind::OpenBracket);
                let id = number(tokens, open.position);
                let close = expect(tokens, id.position, TokenKind::CloseBracket);
                let brace = expect(tokens, close.position, TokenKind::OpenBrace);
                let body = members(tokens, brace.position, Seq::empty());
                if open.result is Err {
                    fail(open.result->Err_0, open.position)
                } else if id.result is Err {
                    fail(id.result->Err_0, id.position)
                } else if close.result is Err {
                    fail(close.result->Err_0, close.position)
                } else if brace.result is Err {
                    fail(brace.result->Err_0, brace.position)
                } else {
                    match body.result {
                        Err(error) => fail(error, body.position),
                        Ok(found) => done(
                            MessageView { name, id: id.result->Ok_0, members: found },
                            body.position,
                        ),
                    }
                }
            },
            _ => fail(ParseErrorView::UnexpectedToken(tokens[at], None), at + 1),
        }
    }
}

/// The token is the identifier `bitflags`.
pub open spec fn is_bitflags(kind: TokenKind) -> bool {
    kind == TokenKind::Identifier("bitflags"@)
}

/// One declaration, or nothing where the tokens have ended. The word
/// `message` starts a message. The words `enum` and `bitflags` are known,
/// but have no grammar: they fail at once. Any other word, and any token
/// that is no word, is reported with a hint.
pub open spec fn declaration(tokens: Seq<TokenView>, at: int) -> Step<Option<DeclarationView>> {
    if !has_token(tokens, at) {
        done(None, at)
    } else {
        let kind = tokens[at].kind;
        if is_word(kind, Keyword::Message) {
            let read = message(tokens, at + 1);
            match read.result {
                Err(error) => fail(error, read.position),
                Ok(declared) => done(Some(DeclarationView::Message(declared)), read.position),
            }
        } else if is_word(kind, Keyword::Enum) || is_bitflags(kind) {
            fail(ParseErrorView::UnexpectedToken(tokens[at], Some(hint_unsupported())), at + 1)
        } else if kind is Identifier || kind is Keyword {
            fail(ParseErrorView::UnexpectedToken(tokens[at], Some(hint_declaration())), at + 1)
        } else {
            fail(ParseErrorView::UnexpectedToken(tokens[at], Some(hint_identifier())), at + 1)
        }
    }
}

/// The declarations up to the end of the tokens, behind those `found` so
/// far.
pub open spec fn declarations(
    tokens: Seq<TokenView>,
    at: int,
    found: Seq<DeclarationView>,
) -> Step<Seq<DeclarationView>>
    decreases tokens.len() - at,
    via declarations_decreases
{
    let one = declaration(tokens, at);
    match one.result {
        Err(error) => fail(error, one.position),
        Ok(None) => done(found, one.position),
        Ok(Some(declared)) => declarations(tokens, one.position, found.push(declared)),
    }
}

#[via_fn]
proof fn declarations_decreases(tokens: Seq<TokenView>, at: int, found: Seq<DeclarationView>) {
    lemma_declaration_moves_on(tokens, at);
}

/// A whole schema: the namespace, then declarations up to the end of the
/// tokens.
pub open spec fn unit(tokens: Seq<TokenView>, at: int) -> Step<UnitView> {
    let head = protocol(tokens, at);
    match head.result {
        Err(error) => fail(error, head.position),
        Ok(named) => {
            let rest = declarations(tokens, head.position, Seq::empty());
            match rest.result {
                Err(error) => fail(error, rest.position),
                Ok(found) => done(UnitView { protocol: named, declarations: found }, rest.position),
            }
        },
    }
}

/// Reading a member consumes at least one token where there is one, and
/// none behind the end.
pub proof fn lemma_member_moves_on(tokens: Seq<TokenView>, at: int)
    ensures
        has_token(tokens, at) ==> at < member(tokens, at).position <= tokens.len(),
        !has_token(tokens, at) ==> member(tokens, at).position == at,
{
}

/// Reading a message stays inside the tokens.
pub proof fn lemma_members_bounded(tokens: Seq<TokenView>, at: int, found: Seq<MemberView>)
    requires
        0 <= at <= tokens.len(),
    ensures
        at <= members(tokens, at, found).position <= tokens.len(),
    decreases tokens.len() - at,
{
    if has_token(tokens, at) && tokens[at].kind != TokenKind::CloseBrace {
        lemma_member_moves_on(tokens, at);
        let one = member(tokens, at);
        match one.result {
            Err(error) => {},
            Ok(Some(declared)) => lemma_members_bounded(tokens, one.position, found.push(declared)),
            Ok(None) => lemma_members_bounded(tokens, one.position, found),
        }
    }
}

/// Reading a declaration consumes at least one token where one is found,
/// and none behind the end.
pub proof fn lemma_declaration_moves_on(tokens: Seq<TokenView>, at: int)
    ensures
        has_token(tokens, at) ==> at < declaration(tokens, at).position <= tokens.len(),
        !has_token(tokens, at) ==> declaration(tokens, at).position == at,
{
    if has_token(tokens, at) && is_word(tokens[at].kind, Keyword::Message) {
        if has_token(tokens, at + 1) && tokens[at + 1].kind is Identifier {
            let open = expect(tokens, at + 2, TokenKind::OpenBracket);
            let id = number(tokens, open.position);
            let close = expect(tokens, id.position, TokenKind::CloseBracket);
            let brace = expect(tokens, close.position, TokenKind::OpenBrace);
            if open.result is Ok && id.result is Ok && close.result is Ok && brace.result is Ok {
                lemma_members_bounded(tokens, brace.position, Seq::empty());
            }
        }
    }
}

} // verus!
