//! What the lexer reports when it meets a character that starts no token.

use crate::lexer::chars::digit;
use crate::lexer::scan::point_at;
use crate::source::SourcePoint;
use vstd::prelude::*;

verus! {

/// The ways in which a text can fail to be made of tokens, each with the
/// position of the character that is at fault.
#[derive(Debug, Clone, Copy, PartialEq, Eq, Structural)]
pub enum LexerError {
    /// A sign in front of a digit: integers are written without one.
    InvalidInteger(SourcePoint),
    /// An underscore where a word should start: it may continue an
    /// identifier, but not begin one.
    InvalidIdentifier(SourcePoint),
    /// Any other character that starts no token.
    UnexpectedError(SourcePoint),
}

/// The error for the character at `at`, which starts no token.
pub open spec fn lex_error_at(source: Seq<char>, at: int) -> LexerError {
    let point = point_at(source, at);
    if source[at] == '_' {
        LexerError::InvalidIdentifier(point)
    } else if (source[at] == '+' || source[at] == '-') && at + 1 < source.len() && digit(
        source[at + 1],
    ) {
        LexerError::InvalidInteger(point)
    } else {
        LexerError::UnexpectedError(point)
    }
}

} // verus!
