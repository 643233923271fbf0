//! The rules of lexing, stated over a source text as a sequence of
//! characters: where a token starts, how far it reaches, what it is and
//! where it stands.

use crate::lexer::chars::{digit, identifier_char, letter, white_space};
use crate::lexer::token::{Keyword, TokenKind, TokenView};
use crate::source::{SourceLocation, SourcePoint, SourceRange};
use vstd::prelude::*;

verus! {

/// The line of the character at `offset`: the number of line feeds in
/// front of it.
pub open spec fn line_at(source: Seq<char>, offset: int) -> nat
    decreases offset,
{
    if offset <= 0 {
        0
    } else if source[offset - 1] == '\n' {
        line_at(source, offset - 1) + 1
    } else {
        line_at(source, offset - 1)
    }
}

/// The column of the character at `offset`: the number of characters
/// between it and the last line feed in front of it, or the start of the
/// text.
pub open spec fn column_at(source: Seq<char>, offset: int) -> nat
    decreases offset,
{
    if offset <= 0 {
        0
    } else if source[offset - 1] == '\n' {
        0
    } else {
        column_at(source, offset - 1) + 1
    }
}

/// The position of the character at `offset`.
pub open spec fn point_at(source: Seq<char>, offset: int) -> SourcePoint {
    SourcePoint { line: line_at(source, offset) as usize, col: column_at(source, offset) as usize }
}

/// The offset of the first character at or behind `from` that is not white
/// space; the length of the text where there is none.
pub open spec fn skip_white_space(source: Seq<char>, from: int) -> int
    decreases source.len() - from,
{
    if 0 <= from < source.len() && white_space(source[from]) {
        skip_white_space(source, from + 1)
    } else {
        from
    }
}

/// The length of the longest run of identifier characters that starts at
/// `from`.
pub open spec fn word_length(source: Seq<char>, from: int) -> nat
    decreases source.len() - from,
{
    if 0 <= from < source.len() && identifier_char(source[from]) {
        1 + word_length(source, from + 1)
    } else {
        0
    }
}

/// The length of the longest run of digits that starts at `from`.
pub open spec fn number_length(source: Seq<char>, from: int) -> nat
    decreases source.len() - from,
{
    if 0 <= from < source.len() && digit(source[from]) {
        1 + number_length(source, from + 1)
    } else {
        0
    }
}

/// What a word is: the keyword that is spelled so, or else an identifier.
pub open spec fn word_kind(text: Seq<char>) -> TokenKind {
    match Keyword::from_spelling(text) {
        Some(keyword) => TokenKind::Keyword(keyword),
        None => TokenKind::Identifier(text),
    }
}

/// The punctuation mark that `ch` is, if it is one.
pub open spec fn punctuation(ch: char) -> Option<TokenKind> {
    if ch == '[' {
        Some(TokenKind::OpenBracket)
    } else if ch == ']' {
        Some(TokenKind::CloseBracket)
    } else if ch == '{' {
        Some(TokenKind::OpenBrace)
    } else if ch == '}' {
        Some(TokenKind::CloseBrace)
    } else if ch == ',' {
        Some(TokenKind::Comma)
    } else if ch == ':' {
        Some(TokenKind::Colon)
    } else if ch == ';' {
        Some(TokenKind::SemiColon)
    } else if ch == '.' {
        Some(TokenKind::Dot)
    } else {
        None
    }
}

/// The span between two offsets of the text.
pub open spec fn span(source: Seq<char>, from: int, to: int) -> SourceLocation {
    SourceLocation::Range(SourceRange { from: point_at(source, from), to: point_at(source, to) })
}

/// The token that starts exactly at `at`, with the offset behind it. A
/// letter starts a word, which reaches as far as identifier characters
/// follow; a digit starts a number, which reaches as far as digits follow;
/// a punctuation mark stands alone. At the end of the text, and at any
/// other character, there is no token.
pub open spec fn token_at(source: Seq<char>, at: int) -> Option<(TokenView, int)> {
    if !(0 <= at < source.len()) {
        None
    } else if letter(source[at]) {
        let end = at + 1 + word_length(source, at + 1);
        Some(
            (
                TokenView {
                    kind: word_kind(source.subrange(at, end)),
                    location: span(source, at, end),
                },
                end,
            ),
        )
    } else if digit(source[at]) {
        let end = at + 1 + number_length(source, at + 1);
        Some(
            (
                TokenView {
                    kind: TokenKind::IntegerLiteral(source.subrange(at, end)),
                    location: span(source, at, end),
                },
                end,
            ),
        )
    } else if let Some(kind) = punctuation(source[at]) {
        Some((TokenView { kind, location: SourceLocation::Point(point_at(source, at)) }, at + 1))
    } else {
        None
    }
}

/// The first token at or behind `from`, with the offset behind it: white
/// space is passed over, then the token is read.
pub open spec fn next_token(source: Seq<char>, from: int) -> Option<(TokenView, int)> {
    token_at(source, skip_white_space(source, from))
}

/// The tokens of the text from `from` on, in order. The sequence ends at
/// the end of the text, or in front of the first character that starts no
/// token.
pub open spec fn tokens_from(source: Seq<char>, from: int) -> Seq<TokenView>
    decreases source.len() - from,
    via tokens_from_decreases
{
    match next_token(source, from) {
        None => Seq::empty(),
        Some((token, end)) => seq![token] + tokens_from(source, end),
    }
}

#[via_fn]
proof fn tokens_from_decreases(source: Seq<char>, from: int) {
    lemma_next_token_moves_on(source, from);
}

/// The offset at which the tokens of the text from `from` on end: the
/// length of the text, or the offset of the first character that starts no
/// token.
pub open spec fn lexing_end(source: Seq<char>, from: int) -> int
    decreases source.len() - from,
    via lexing_end_decreases
{
    match next_token(source, from) {
        None => skip_white_space(source, from),
        Some((token, end)) => lexing_end(source, end),
    }
}

#[via_fn]
proof fn lexing_end_decreases(source: Seq<char>, from: int) {
    lemma_next_token_moves_on(source, from);
}

/// All tokens of a source text.
pub open spec fn tokens_of(source: Seq<char>) -> Seq<TokenView> {
    tokens_from(source, 0)
}

/// Passing over white space moves forward, stays inside the text, passes
/// white space only and stops at the first character that is none.
pub proof fn lemma_skip_white_space(source: Seq<char>, from: int)
    ensures
        from <= skip_white_space(source, from),
        0 <= from <= source.len() ==> skip_white_space(source, from) <= source.len(),
        forall|i: int| from <= i < skip_white_space(source, from) ==> white_space(source[i]),
        0 <= skip_white_space(source, from) < source.len() ==> !white_space(
            source[skip_white_space(source, from)],
        ),
    decreases source.len() - from,
{
    if 0 <= from < source.len() && white_space(source[from]) {
        lemma_skip_white_space(source, from + 1);
    }
}

/// A run of identifier characters, and one of digits, ends inside the
/// text, holds only such characters, and no such character follows it.
pub proof fn lemma_run_lengths(source: Seq<char>, from: int)
    requires
        0 <= from <= source.len(),
    ensures
        from + word_length(source, from) <= source.len(),
        from + number_length(source, from) <= source.len(),
        forall|i: int| from <= i < from + word_length(source, from) ==> identifier_char(source[i]),
        forall|i: int| from <= i < from + number_length(source, from) ==> digit(source[i]),
        from + word_length(source, from) < source.len() ==> !identifier_char(
            source[from + word_length(source, from)],
        ),
        from + number_length(source, from) < source.len() ==> !digit(
            source[from + number_length(source, from)],
        ),
    decreases source.len() - from,
{
    if from < source.len() {
        lemma_run_lengths(source, from + 1);
    }
}

/// A token lies behind the offset from which it was looked for, and
/// inside the text.
pub proof fn lemma_next_token_moves_on(source: Seq<char>, from: int)
    ensures
        next_token(source, from) matches Some((token, end)) ==> from < end <= source.len(),
{
    lemma_skip_white_space(source, from);
    let at = skip_white_space(source, from);
    if 0 <= at < source.len() {
        lemma_run_lengths(source, at + 1);
    }
}

/// A position in a text is no further from its start than the offset:
/// line and column together count each character in front at most once.
pub proof fn lemma_point_within_offset(source: Seq<char>, offset: int)
    requires
        0 <= offset,
    ensures
        line_at(source, offset) + column_at(source, offset) <= offset,
    decreases offset,
{
    if offset > 0 {
        lemma_point_within_offset(source, offset - 1);
    }
}

} // verus!
