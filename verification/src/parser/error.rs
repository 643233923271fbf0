//! What the parser reports when the tokens are no schema.

use crate::lexer::{Token, TokenView};
use vstd::prelude::*;

verus! {

/// The ways in which parsing fails. The first failure ends the parse.
#[derive(Debug, PartialEq, Eq)]
pub enum ParseError {
    /// A token that cannot stand where it was found, with a hint at what
    /// was expected there, where one is given.
    UnexpectedToken(Token, Option<String>),
    /// The tokens ended where one more was needed.
    ExpectedAToken,
    /// A name was needed, and the next token cannot start one.
    MissingIdentifier,
    /// There are no tokens at all.
    ExpectedProtocolDeclaration,
    /// The text of an integer literal is no number that the machine can
    /// hold.
    InvalidNumberFormat,
    /// A field's type is none of the scalar types.
    UnknownType,
}

/// What a `ParseError` stands for.
pub ghost enum ParseErrorView {
    UnexpectedToken(TokenView, Option<Seq<char>>),
    ExpectedAToken,
    MissingIdentifier,
    ExpectedProtocolDeclaration,
    InvalidNumberFormat,
    UnknownType,
}

impl View for ParseError {
    type V = ParseErrorView;

    open spec fn view(&self) -> ParseErrorView {
        match self {
            ParseError::UnexpectedToken(token, hint) => ParseErrorView::UnexpectedToken(
                token@,
                match hint {
                    Some(text) => Some(text@),
                    None => None,
                },
            ),
            ParseError::ExpectedAToken => ParseErrorView::ExpectedAToken,
            ParseError::MissingIdentifier => ParseErrorView::MissingIdentifier,
            ParseError::ExpectedProtocolDeclaration => ParseErrorView::ExpectedProtocolDeclaration,
            ParseError::InvalidNumberFormat => ParseErrorView::InvalidNumberFormat,
            ParseError::UnknownType => ParseErrorView::UnknownType,
        }
    }
}

/// The hint for a token that stands where a name was expected.
pub open spec fn hint_identifier() -> Seq<char> {
    "Expected an identifier"@
}

/// The hint for a token that stands where the length of an array was
/// expected.
pub open spec fn hint_size() -> Seq<char> {
    "Expected an non-zero integer size"@
}

/// The hint for a word that starts no declaration.
pub open spec fn hint_declaration() -> Seq<char> {
    "Unexpected identifier, expected one of {message, enum, bitflags}"@
}

/// The hint for a word that names a kind of declaration for which there
/// is no grammar.
pub open spec fn hint_unsupported() -> Seq<char> {
    "Declarations of this kind are not supported"@
}

/// The result of a parsing function with its error as a view.
pub open spec fn plain_result<T>(result: Result<T, ParseError>) -> Result<T, ParseErrorView> {
    match result {
        Ok(value) => Ok(value),
        Err(error) => Err(error@),
    }
}

/// The result of a parsing function as views.
pub open spec fn result_view<T: View>(result: Result<T, ParseError>) -> Result<
    T::V,
    ParseErrorView,
> {
    match result {
        Ok(value) => Ok(value@),
        Err(error) => Err(error@),
    }
}

/// The result of a parsing function that may find nothing, as views.
pub open spec fn optional_view<T: View>(result: Result<Option<T>, ParseError>) -> Result<
    Option<T::V>,
    ParseErrorView,
> {
    match result {
        Ok(Some(value)) => Ok(Some(value@)),
        Ok(None) => Ok(None),
        Err(error) => Err(error@),
    }
}

} // verus!
