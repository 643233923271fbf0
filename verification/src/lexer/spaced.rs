//! Token kinds written out as text, each followed by a space, and that the
//! lexer finds these kinds again in that text.

use crate::lexer::chars::{digit, identifier_char, white_space};
use crate::lexer::laws::{
    lemma_keyword_is_word, lemma_number_to, lemma_word_to, lexical_kind, written,
};
use crate::lexer::scan::{
    lemma_next_token_moves_on, lemma_run_lengths, lemma_skip_white_space, next_token,
    number_length, skip_white_space, tokens_from, tokens_of, word_length,
};
use crate::lexer::token::{TokenKind, TokenView};
use vstd::prelude::*;

verus! {

/// The kinds of a sequence of tokens, in the same order.
pub open spec fn kinds_of(tokens: Seq<TokenView>) -> Seq<TokenKind> {
    tokens.map_values(|token: TokenView| token.kind)
}

/// The text in which each of the kinds is written, with a space behind it.
pub open spec fn spaced(kinds: Seq<TokenKind>) -> Seq<char>
    decreases kinds.len(),
{
    if kinds.len() == 0 {
        Seq::empty()
    } else {
        written(kinds[0]) + seq![' '] + spaced(kinds.drop_first())
    }
}

/// What stands in front of a text has no part in where white space ends
/// in it, nor in how far a word or a number reaches.
proof fn lemma_runs_shift(front: Seq<char>, text: Seq<char>, from: int)
    requires
        0 <= from <= text.len(),
    ensures
        skip_white_space(front + text, front.len() + from) == front.len() + skip_white_space(
            text,
            from,
        ),
        word_length(front + text, front.len() + from) == word_length(text, from),
        number_length(front + text, front.len() + from) == number_length(text, from),
    decreases text.len() - from,
{
    if from < text.len() {
        assert((front + text)[front.len() + from] == text[from]);
        lemma_runs_shift(front, text, from + 1);
    }
}

/// What stands in front of a text has no part in the kinds of its tokens.
pub proof fn lemma_kinds_shift(front: Seq<char>, text: Seq<char>, from: int)
    requires
        0 <= from <= text.len(),
    ensures
        kinds_of(tokens_from(front + text, front.len() + from)) == kinds_of(
            tokens_from(text, from),
        ),
    decreases text.len() - from,
{
    let whole = front + text;
    let shift = front.len() as int;
    lemma_runs_shift(front, text, from);
    lemma_skip_white_space(text, from);
    lemma_next_token_moves_on(text, from);
    lemma_next_token_moves_on(whole, shift + from);
    let at = skip_white_space(text, from);
    if at < text.len() {
        assert(whole[shift + at] == text[at]);
        lemma_runs_shift(front, text, at + 1);
        lemma_run_lengths(text, at + 1);
        match next_token(text, from) {
            None => {
                assert(next_token(whole, shift + from) is None);
            },
            Some((token, end)) => {
                assert(whole.subrange(shift + at, shift + end) =~= text.subrange(at, end));
                let moved = next_token(whole, shift + from);
                assert(moved is Some);
                assert(moved->Some_0.1 == shift + end);
                assert(moved->Some_0.0.kind == token.kind);
                lemma_kinds_shift(front, text, end);
                assert(kinds_of(tokens_from(whole, shift + from)) =~= seq![token.kind] + kinds_of(
                    tokens_from(whole, shift + end),
                ));
                assert(kinds_of(tokens_from(text, from)) =~= seq![token.kind] + kinds_of(
                    tokens_from(text, end),
                ));
            },
        }
    } else {
        assert(next_token(text, from) is None);
        assert(next_token(whole, shift + from) is None);
    }
}

/// In front of a space, a token of a lexical kind is found as it is
/// written.
proof fn lemma_first_token(kind: TokenKind, rest: Seq<char>)
    requires
        lexical_kind(kind),
    ensures
        next_token(written(kind) + seq![' '] + rest, 0) matches Some((token, end)) && token.kind
            == kind && end == written(kind).len(),
{
    let text = written(kind);
    let source = text + seq![' '] + rest;
    let end = text.len() as int;
    if let TokenKind::Keyword(keyword) = kind {
        lemma_keyword_is_word(keyword);
        keyword.lemma_spelling_names_keyword(text);
    }
    assert(text.len() > 0);
    assert forall|i: int| 0 <= i < end implies source[i] == text[i] by {}
    assert(source[end] == ' ');
    assert(source.subrange(0, end) =~= text);
    assert(!white_space(source[0]));
    if kind is IntegerLiteral {
        assert forall|i: int| 1 <= i < end implies digit(source[i]) by {
            assert(source[i] == text[i]);
        }
        lemma_number_to(source, 1, end);
    } else if kind is Identifier || kind is Keyword {
        assert forall|i: int| 1 <= i < end implies identifier_char(source[i]) by {
            assert(source[i] == text[i]);
        }
        lemma_word_to(source, 1, end);
    }
}

/// Kinds that are written out with spaces are found again: the text has
/// a token of each kind, in the same order, and no other.
pub proof fn lemma_spaced_kinds_are_found(kinds: Seq<TokenKind>)
    requires
        forall|i: int| 0 <= i < kinds.len() ==> lexical_kind(#[trigger] kinds[i]),
    ensures
        kinds_of(tokens_of(spaced(kinds))) == kinds,
    decreases kinds.len(),
{
    let source = spaced(kinds);
    if kinds.len() == 0 {
        assert(kinds_of(tokens_of(source)) =~= kinds);
    } else {
        let text = written(kinds[0]);
        let others = kinds.drop_first();
        let rest = spaced(others);
        let tail = seq![' '] + rest;
        lemma_first_token(kinds[0], rest);
        lemma_spaced_kinds_are_found(others);
        assert(source =~= text + tail);
        lemma_kinds_shift(text, tail, 0);
        assert(tail[0] == ' ');
        assert(next_token(tail, 0) == next_token(tail, 1));
        assert(tokens_from(tail, 0) == tokens_from(tail, 1));
        lemma_kinds_shift(seq![' '], rest, 0);
        let first = next_token(source, 0)->Some_0;
        assert(kinds_of(tokens_from(source, 0)) =~= seq![first.0.kind] + kinds_of(
            tokens_from(source, first.1),
        ));
        assert(seq![kinds[0]] + others =~= kinds);
    }
}

} // verus!
