//! What holds of every token that the lexer finds, and of reading a token
//! again from its own text and place.

use crate::data_types::ScalarType;
use crate::lexer::chars::{digit, identifier_char, letter, white_space};
use crate::lexer::scan::{
    column_at, lemma_next_token_moves_on, lemma_point_within_offset, lemma_run_lengths,
    lemma_skip_white_space, line_at, next_token, number_length, point_at, punctuation,
    skip_white_space, token_at, tokens_from, tokens_of, word_kind, word_length,
};
use crate::lexer::token::{Keyword, TokenKind, TokenView};
use crate::source::SourceLocation;
use vstd::prelude::*;

verus! {

/// The characters with which a token of this kind is written.
pub open spec fn written(kind: TokenKind) -> Seq<char> {
    match kind {
        TokenKind::Illegal => Seq::empty(),
        TokenKind::Identifier(text) => text,
        TokenKind::Keyword(keyword) => keyword.spelling(),
        TokenKind::IntegerLiteral(text) => text,
        TokenKind::SemiColon => seq![';'],
        TokenKind::Colon => seq![':'],
        TokenKind::Comma => seq![','],
        TokenKind::Dot => seq!['.'],
        TokenKind::OpenBrace => seq!['{'],
        TokenKind::CloseBrace => seq!['}'],
        TokenKind::OpenBracket => seq!['['],
        TokenKind::CloseBracket => seq![']'],
    }
}

/// The token carries a text: it is a word or a number.
pub open spec fn has_text(kind: TokenKind) -> bool {
    kind is Identifier || kind is Keyword || kind is IntegerLiteral
}

/// The text of an identifier: it starts with a letter, is made of
/// identifier characters and is no keyword.
pub open spec fn is_identifier(text: Seq<char>) -> bool {
    &&& text.len() > 0 && letter(text[0])
    &&& forall|i: int| 0 <= i < text.len() ==> identifier_char(#[trigger] text[i])
    &&& Keyword::from_spelling(text) is None
}

/// The kinds of token that the lexer can find, with the texts that it
/// can find in them: an identifier has the text of one, a number is made
/// of digits, and no token is illegal.
pub open spec fn lexical_kind(kind: TokenKind) -> bool {
    match kind {
        TokenKind::Illegal => false,
        TokenKind::Identifier(text) => is_identifier(text),
        TokenKind::IntegerLiteral(text) => {
            &&& text.len() > 0
            &&& forall|i: int| 0 <= i < text.len() ==> digit(#[trigger] text[i])
        },
        _ => true,
    }
}

/// What the lexer can find: a token of a lexical kind at a place that
/// fits it. A token with a text covers a span on one line, as long as the
/// text; a punctuation mark stands at a point.
pub open spec fn lexical(token: TokenView) -> bool {
    &&& lexical_kind(token.kind)
    &&& if has_text(token.kind) {
        &&& token.location matches SourceLocation::Range(range)
        &&& range.to.line == range.from.line
        &&& range.to.col == range.from.col + written(token.kind).len()
    } else {
        token.location is Point
    }
}

/// A text that holds the token at its place and nothing else: as many
/// line feeds as its line, as many spaces as its column, and then the
/// characters with which it is written.
pub open spec fn rebuilt(token: TokenView) -> Seq<char> {
    let start = token.location.start();
    Seq::new(start.line as nat, |i: int| '\n') + Seq::new(start.col as nat, |i: int| ' ')
        + written(token.kind)
}

/// Over characters that are no line feed the line stays and the column
/// counts on.
pub proof fn lemma_same_line(source: Seq<char>, from: int, to: int)
    requires
        0 <= from <= to,
        forall|i: int| from <= i < to ==> source[i] != '\n',
    ensures
        line_at(source, to) == line_at(source, from),
        column_at(source, to) == column_at(source, from) + (to - from),
    decreases to - from,
{
    if from < to {
        lemma_same_line(source, from, to - 1);
    }
}

/// Behind line feeds alone, the line is their number and the column is 0.
pub proof fn lemma_line_feeds(source: Seq<char>, count: int)
    requires
        0 <= count,
        forall|i: int| 0 <= i < count ==> source[i] == '\n',
    ensures
        line_at(source, count) == count,
        column_at(source, count) == 0,
    decreases count,
{
    if count > 0 {
        lemma_line_feeds(source, count - 1);
    }
}

/// White space up to a character that is none, or up to the end of the
/// text, is passed over as a whole.
pub proof fn lemma_skip_to(source: Seq<char>, from: int, to: int)
    requires
        0 <= from <= to <= source.len(),
        forall|i: int| from <= i < to ==> white_space(source[i]),
        to < source.len() ==> !white_space(source[to]),
    ensures
        skip_white_space(source, from) == to,
    decreases to - from,
{
    if from < to {
        lemma_skip_to(source, from + 1, to);
    }
}

/// Identifier characters up to a character that is none, or up to the end
/// of the text, are one run.
pub proof fn lemma_word_to(source: Seq<char>, from: int, to: int)
    requires
        0 <= from <= to <= source.len(),
        forall|i: int| from <= i < to ==> identifier_char(source[i]),
        to < source.len() ==> !identifier_char(source[to]),
    ensures
        word_length(source, from) == to - from,
    decreases to - from,
{
    if from < to {
        lemma_word_to(source, from + 1, to);
    }
}

/// Digits up to a character that is none, or up to the end of the text,
/// are one run.
pub proof fn lemma_number_to(source: Seq<char>, from: int, to: int)
    requires
        0 <= from <= to <= source.len(),
        forall|i: int| from <= i < to ==> digit(source[i]),
        to < source.len() ==> !digit(source[to]),
    ensures
        number_length(source, from) == to - from,
    decreases to - from,
{
    if from < to {
        lemma_number_to(source, from + 1, to);
    }
}

/// A keyword is written as a word: it starts with a letter and is made of
/// letters.
pub proof fn lemma_keyword_is_word(keyword: Keyword)
    ensures
        keyword.spelling().len() > 0,
        forall|i: int| 0 <= i < keyword.spelling().len() ==> letter(#[trigger] keyword.spelling()[i]),
{
    reveal_strlit("enum");
    reveal_strlit("message");
    reveal_strlit("protocol");
    reveal_strlit("reserved");
    reveal_strlit("struct");
    let text = keyword.spelling();
    assert forall|i: int| 0 <= i < text.len() implies letter(#[trigger] text[i]) by {
        if i == 0 {
        } else if i == 1 {
        } else if i == 2 {
        } else if i == 3 {
        } else if i == 4 {
        } else if i == 5 {
        } else if i == 6 {
        } else if i == 7 {
        }
    }
}

/// The name of a scalar type is written as a word and is no keyword: the
/// lexer finds it as an identifier.
pub proof fn lemma_type_name_is_identifier(scalar: ScalarType)
    ensures
        scalar.spelling().len() > 0,
        letter(scalar.spelling()[0]),
        forall|i: int|
            0 <= i < scalar.spelling().len() ==> identifier_char(#[trigger] scalar.spelling()[i]),
        word_kind(scalar.spelling()) == TokenKind::Identifier(scalar.spelling()),
{
    reveal_strlit("u8");
    reveal_strlit("u16");
    reveal_strlit("u32");
    reveal_strlit("u64");
    reveal_strlit("i8");
    reveal_strlit("i16");
    reveal_strlit("i32");
    reveal_strlit("i64");
    reveal_strlit("f32");
    reveal_strlit("f64");
    reveal_strlit("byte");
    reveal_strlit("char");
    reveal_strlit("ascii");
    reveal_strlit("enum");
    reveal_strlit("message");
    reveal_strlit("protocol");
    reveal_strlit("reserved");
    reveal_strlit("struct");
    let text = scalar.spelling();
    assert(text.len() <= 5);
    assert forall|i: int| 0 <= i < text.len() implies identifier_char(#[trigger] text[i]) by {
        if i == 0 {
        } else if i == 1 {
        } else if i == 2 {
        } else if i == 3 {
        } else if i == 4 {
        }
    }
    assert(Keyword::from_spelling(text) is None) by {
        assert("enum"@[0] == 'e' && "message"@[0] == 'm' && "protocol"@[0] == 'p'
            && "reserved"@[0] == 'r' && "struct"@[0] == 's');
        assert(text[0] == 'u' || text[0] == 'i' || text[0] == 'f' || text[0] == 'b' || text[0]
            == 'c' || text[0] == 'a');
    }
}

/// The token that starts at a character of a text is lexical.
pub proof fn lemma_token_at_is_lexical(source: Seq<char>, at: int)
    requires
        source.len() <= usize::MAX,
    ensures
        token_at(source, at) matches Some((token, end)) ==> lexical(token),
{
    if 0 <= at < source.len() {
        lemma_run_lengths(source, at + 1);
        lemma_point_within_offset(source, at);
        if letter(source[at]) {
            let end = at + 1 + word_length(source, at + 1);
            let text = source.subrange(at, end);
            lemma_same_line(source, at, end);
            lemma_point_within_offset(source, end);
            match Keyword::from_spelling(text) {
                Some(keyword) => {
                    keyword.lemma_spelling_names_keyword(text);
                },
                None => {},
            }
        } else if digit(source[at]) {
            let end = at + 1 + number_length(source, at + 1);
            lemma_same_line(source, at, end);
            lemma_point_within_offset(source, end);
        }
    }
}

/// Every token of a text is lexical.
pub proof fn lemma_tokens_are_lexical(source: Seq<char>, from: int)
    requires
        source.len() <= usize::MAX,
    ensures
        forall|i: int|
            0 <= i < tokens_from(source, from).len() ==> lexical(
                #[trigger] tokens_from(source, from)[i],
            ),
    decreases source.len() - from,
{
    lemma_next_token_moves_on(source, from);
    match next_token(source, from) {
        None => {},
        Some((token, end)) => {
            lemma_token_at_is_lexical(source, skip_white_space(source, from));
            lemma_tokens_are_lexical(source, end);
            let rest = tokens_from(source, end);
            assert forall|i: int| 0 <= i < tokens_from(source, from).len() implies lexical(
                #[trigger] tokens_from(source, from)[i],
            ) by {
                if i > 0 {
                    assert(tokens_from(source, from)[i] == rest[i - 1]);
                }
            }
        },
    }
}

/// A lexical token is read again from the text that holds it at its
/// place and nothing else: that text has this one token, with the same
/// kind, the same text and the same place.
pub proof fn lemma_read_again(token: TokenView)
    requires
        lexical(token),
        rebuilt(token).len() <= usize::MAX,
    ensures
        tokens_of(rebuilt(token)) == seq![token],
{
    let source = rebuilt(token);
    let start = token.location.start();
    let margin = start.line + start.col;
    let text = written(token.kind);
    let end = source.len() as int;
    if let TokenKind::Keyword(keyword) = token.kind {
        lemma_keyword_is_word(keyword);
        keyword.lemma_spelling_names_keyword(text);
    }
    assert(text.len() > 0);
    assert(end == margin + text.len());
    assert forall|i: int| 0 <= i < text.len() implies source[margin + i] == text[i] by {}
    assert(source.subrange(margin, end) =~= text);
    assert(!white_space(source[margin]));
    lemma_skip_to(source, 0, margin);
    lemma_line_feeds(source, start.line as int);
    lemma_same_line(source, start.line as int, margin);
    assert(point_at(source, margin) == start);
    if has_text(token.kind) {
        assert forall|i: int| margin <= i < end implies source[i] != '\n' by {
            assert(source[i] == text[i - margin]);
        }
        lemma_same_line(source, margin, end);
        if token.kind is IntegerLiteral {
            assert forall|i: int| margin + 1 <= i < end implies digit(source[i]) by {
                assert(source[i] == text[i - margin]);
            }
            lemma_number_to(source, margin + 1, end);
        } else {
            assert forall|i: int| margin + 1 <= i < end implies identifier_char(source[i]) by {
                assert(source[i] == text[i - margin]);
            }
            lemma_word_to(source, margin + 1, end);
        }
    }
    assert(token_at(source, margin) == Some((token, end)));
    lemma_skip_white_space(source, end);
    assert(tokens_from(source, end) =~= Seq::empty());
    assert(tokens_from(source, 0) =~= seq![token] + tokens_from(source, end));
}

/// Each token of a text is read again, alone, from the text that holds
/// it at its place and nothing else.
pub proof fn lemma_tokens_read_again(source: Seq<char>, index: int)
    requires
        source.len() <= usize::MAX,
        0 <= index < tokens_of(source).len(),
    ensures
        tokens_of(rebuilt(tokens_of(source)[index])) == seq![tokens_of(source)[index]],
{
    lemma_tokens_are_lexical(source, 0);
    lemma_tokens_fit(source, 0);
    lemma_read_again(tokens_of(source)[index]);
}

/// The text that holds a token of a source at its place is no longer
/// than the source.
pub proof fn lemma_tokens_fit(source: Seq<char>, from: int)
    requires
        source.len() <= usize::MAX,
    ensures
        forall|i: int|
            0 <= i < tokens_from(source, from).len() ==> rebuilt(
                #[trigger] tokens_from(source, from)[i],
            ).len() <= source.len(),
    decreases source.len() - from,
{
    lemma_next_token_moves_on(source, from);
    match next_token(source, from) {
        None => {},
        Some((token, end)) => {
            let at = skip_white_space(source, from);
            lemma_skip_white_space(source, from);
            lemma_point_within_offset(source, at);
            lemma_token_at_is_lexical(source, at);
            if let TokenKind::Keyword(keyword) = token.kind {
                keyword.lemma_spelling_names_keyword(source.subrange(at, end));
            }
            lemma_tokens_fit(source, end);
            let rest = tokens_from(source, end);
            assert(rebuilt(token).len() <= source.len());
            assert forall|i: int| 0 <= i < tokens_from(source, from).len() implies rebuilt(
                #[trigger] tokens_from(source, from)[i],
            ).len() <= source.len() by {
                if i > 0 {
                    assert(tokens_from(source, from)[i] == rest[i - 1]);
                }
            }
        },
    }
}

} // verus!
