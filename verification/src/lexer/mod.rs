//! The lexer: from source text to located tokens.

pub mod chars;
pub mod error;
pub mod laws;
pub mod scan;
pub mod spaced;
pub mod token;

pub use chars::{is_digit, is_identifier_char, is_letter, is_whitespace};
pub use error::LexerError;
pub use token::{lex_keyword, token_views, Keyword, Token, TokenKind, TokenType, TokenView};

use crate::lexer::error::lex_error_at;
use crate::lexer::laws::{lemma_tokens_are_lexical, lexical};
use crate::lexer::scan::{
    lemma_point_within_offset, lexing_end, number_length, point_at, skip_white_space,
    tokens_from, tokens_of, word_length,
};
use crate::source::{SourceLocation, SourcePoint};
use vstd::prelude::*;

verus! {

/// The read position of a lexer: how many characters lie behind it, and
/// the line and column to which that amounts.
#[derive(Debug, Clone, Copy)]
struct Cursor {
    offset: usize,
    location: SourcePoint,
}

/// A single pass over a source text that hands out its tokens one by one.
/// The text is borrowed, so a copy of the lexer is a second cursor over the
/// same text and costs no more than the cursor.
#[derive(Debug)]
pub struct Lexer<'a> {
    chars: &'a [char],
    cursor: Cursor,
}

/// The characters of `input`, decoded once, for a lexer to borrow.
pub fn decode(input: &str) -> (chars: Vec<char>)
    ensures
        chars@ == input@,
{
    let mut chars: Vec<char> = Vec::new();
    for ch in it: input.chars()
        invariant
            chars@ == it.seq().take(it.index() as int),
            it.seq() == input@,
    {
        chars.push(ch);
    }
    chars
}

impl<'a> Lexer<'a> {
    /// The cursor stands inside the text or at its end, and its line and
    /// column are those of its offset.
    #[verifier::type_invariant]
    spec fn well_formed(&self) -> bool {
        &&& self.cursor.offset <= self.chars.len()
        &&& self.cursor.location == point_at(self.chars@, self.cursor.offset as int)
    }

    /// The text that is read.
    pub closed spec fn source(&self) -> Seq<char> {
        self.chars@
    }

    /// The number of characters that lie behind the cursor.
    pub closed spec fn offset(&self) -> int {
        self.cursor.offset as int
    }

    /// A lexer at the start of `input`.
    pub fn new(input: &'a [char]) -> (lexer: Lexer<'a>)
        ensures
            lexer.source() == input@,
            lexer.offset() == 0,
    {
        Lexer { chars: input, cursor: Cursor { offset: 0, location: SourcePoint::zero() } }
    }

    /// The position of the cursor in lines and columns.
    pub fn current_location(&self) -> (location: SourcePoint)
        ensures
            location == point_at(self.source(), self.offset()),
    {
        proof {
            use_type_invariant(self);
        }
        self.cursor.location
    }

    /// The character under the cursor, if the text has not ended.
    pub fn current_char(&self) -> (ch: Option<char>)
        ensures
            ch == if self.offset() < self.source().len() {
                Some(self.source()[self.offset()])
            } else {
                None
            },
    {
        if self.cursor.offset < self.chars.len() {
            Some(self.chars[self.cursor.offset])
        } else {
            None
        }
    }

    pub fn has_current_char(&self) -> (yes: bool)
        ensures
            yes == (self.offset() < self.source().len()),
    {
        self.current_char().is_some()
    }

    /// The character behind the one under the cursor, if there is one.
    pub fn peek_next_char(&self) -> (ch: Option<char>)
        ensures
            ch == if self.offset() + 1 < self.source().len() {
                Some(self.source()[self.offset() + 1])
            } else {
                None
            },
    {
        proof {
            use_type_invariant(self);
        }
        if self.cursor.offset < self.chars.len() && self.cursor.offset + 1 < self.chars.len() {
            Some(self.chars[self.cursor.offset + 1])
        } else {
            None
        }
    }

    pub fn has_next_char(&self) -> (yes: bool)
        ensures
            yes == (self.offset() + 1 < self.source().len()),
    {
        self.peek_next_char().is_some()
    }

    /// Moves the cursor over the character under it.
    fn step(&mut self)
        requires
            old(self).offset() < old(self).source().len(),
        ensures
            final(self).source() == old(self).source(),
            final(self).offset() == old(self).offset() + 1,
    {
        proof {
            use_type_invariant(&*self);
            lemma_point_within_offset(self.chars@, self.cursor.offset as int + 1);
        }
        let ch = self.chars[self.cursor.offset];
        let location = if ch == '\n' {
            self.cursor.location.next_line()
        } else {
            self.cursor.location.next_pos()
        };
        self.cursor = Cursor { offset: self.cursor.offset + 1, location };
    }

    /// Moves the cursor over the character under it, where there is one,
    /// and returns the character on which it then stands.
    pub fn next_char(&mut self) -> (ch: Option<char>)
        ensures
            final(self).source() == old(self).source(),
            final(self).offset() == if old(self).offset() < old(self).source().len() {
                old(self).offset() + 1
            } else {
                old(self).offset()
            },
            ch == if final(self).offset() < final(self).source().len() {
                Some(final(self).source()[final(self).offset()])
            } else {
                None
            },
    {
        if self.cursor.offset < self.chars.len() {
            self.step();
        }
        self.current_char()
    }

    /// Moves the cursor over `by` characters, or to the end of the text
    /// where fewer are left.
    pub fn advance_cursor(&mut self, by: usize)
        ensures
            final(self).source() == old(self).source(),
            final(self).offset() == if old(self).offset() + by <= old(self).source().len() {
                old(self).offset() + by
            } else {
                old(self).source().len() as int
            },
    {
        proof {
            use_type_invariant(&*self);
        }
        let mut done: usize = 0;
        while done < by && self.cursor.offset < self.chars.len()
            invariant
                self.source() == old(self).source(),
                done <= by,
                self.offset() == old(self).offset() + done,
                self.offset() <= self.source().len(),
            decreases by - done,
        {
            self.step();
            done = done + 1;
            proof {
                use_type_invariant(&*self);
            }
        }
    }

    /// Moves the cursor over white space.
    fn pass_white_space(&mut self)
        ensures
            final(self).source() == old(self).source(),
            final(self).offset() == skip_white_space(old(self).source(), old(self).offset()),
            final(self).offset() <= final(self).source().len(),
    {
        proof {
            use_type_invariant(&*self);
        }
        while self.cursor.offset < self.chars.len() && is_whitespace(self.chars[self.cursor.offset])
            invariant
                self.source() == old(self).source(),
                0 <= self.offset() <= self.source().len(),
                skip_white_space(self.source(), self.offset()) == skip_white_space(
                    old(self).source(),
                    old(self).offset(),
                ),
            decreases self.source().len() - self.offset(),
        {
            self.step();
        }
    }

    /// Reads the longest run of identifier characters under the cursor.
    fn take_word(&mut self) -> (text: String)
        ensures
            final(self).source() == old(self).source(),
            final(self).offset() == old(self).offset() + word_length(
                old(self).source(),
                old(self).offset(),
            ),
            final(self).offset() <= final(self).source().len(),
            text@ == old(self).source().subrange(old(self).offset(), final(self).offset()),
    {
        proof {
            use_type_invariant(&*self);
        }
        let mut text = String::new();
        while self.cursor.offset < self.chars.len() && is_identifier_char(
            self.chars[self.cursor.offset],
        )
            invariant
                self.source() == old(self).source(),
                old(self).offset() <= self.offset() <= self.source().len(),
                self.offset() + word_length(self.source(), self.offset()) == old(self).offset()
                    + word_length(old(self).source(), old(self).offset()),
                text@ =~= self.source().subrange(old(self).offset(), self.offset()),
            decreases self.source().len() - self.offset(),
        {
            text.push(self.chars[self.cursor.offset]);
            self.step();
        }
        text
    }

    /// Reads the longest run of digits under the cursor.
    fn take_number(&mut self) -> (text: String)
        ensures
            final(self).source() == old(self).source(),
            final(self).offset() == old(self).offset() + number_length(
                old(self).source(),
                old(self).offset(),
            ),
            final(self).offset() <= final(self).source().len(),
            text@ == old(self).source().subrange(old(self).offset(), final(self).offset()),
    {
        proof {
            use_type_invariant(&*self);
        }
        let mut text = String::new();
        while self.cursor.offset < self.chars.len() && is_digit(self.chars[self.cursor.offset])
            invariant
                self.source() == old(self).source(),
                old(self).offset() <= self.offset() <= self.source().len(),
                self.offset() + number_length(self.source(), self.offset()) == old(self).offset()
                    + number_length(old(self).source(), old(self).offset()),
                text@ =~= self.source().subrange(old(self).offset(), self.offset()),
            decreases self.source().len() - self.offset(),
        {
            text.push(self.chars[self.cursor.offset]);
            self.step();
        }
        text
    }

    /// Reads the next token and moves the cursor behind it. White space in
    /// front of it is passed over. There is no token at the end of the
    /// text, nor in front of a character that starts none: the cursor then
    /// stops there.
    pub fn next_token(&mut self) -> (token: Option<Token>)
        ensures
            final(self).source() == old(self).source(),
            0 <= final(self).offset() <= final(self).source().len(),
            match scan::next_token(old(self).source(), old(self).offset()) {
                Some((view, end)) => {
                    &&& token matches Some(found) && found@ == view
                    &&& final(self).offset() == end
                },
                None => token is None && final(self).offset() == skip_white_space(
                    old(self).source(),
                    old(self).offset(),
                ),
            },
    {
        self.pass_white_space();
        if self.cursor.offset >= self.chars.len() {
            return None;
        }
        let first = self.chars[self.cursor.offset];
        let start = self.cursor.location;
        proof {
            use_type_invariant(&*self);
        }
        if is_letter(first) {
            let text = self.take_word();
            let location = SourceLocation::Range(start.range_to(self.current_location()));
            match lex_keyword(text.as_str()) {
                Some(keyword) => Some(Token::new(TokenType::Keyword(keyword), location)),
                None => Some(Token::new(TokenType::Identifier(text), location)),
            }
        } else if is_digit(first) {
            let text = self.take_number();
            let location = SourceLocation::Range(start.range_to(self.current_location()));
            Some(Token::new(TokenType::IntegerLiteral(text), location))
        } else {
            let kind = match first {
                '[' => TokenType::OpenBracket,
                ']' => TokenType::CloseBracket,
                '{' => TokenType::OpenBrace,
                '}' => TokenType::CloseBrace,
                ',' => TokenType::Comma,
                ':' => TokenType::Colon,
                ';' => TokenType::SemiColon,
                '.' => TokenType::Dot,
                _ => {
                    return None;
                },
            };
            self.step();
            Some(Token::from_point(kind, start))
        }
    }

    /// Reads the next token as `next_token` does, but tells the end of the
    /// text from a character that starts no token: the first is no token
    /// and no error, the second is an error that names the character's
    /// position.
    pub fn next_token_strict(&mut self) -> (token: Result<Option<Token>, LexerError>)
        ensures
            final(self).source() == old(self).source(),
            0 <= final(self).offset() <= final(self).source().len(),
            match scan::next_token(old(self).source(), old(self).offset()) {
                Some((view, end)) => {
                    &&& token matches Ok(Some(found)) && found@ == view
                    &&& final(self).offset() == end
                },
                None => {
                    &&& final(self).offset() == skip_white_space(
                        old(self).source(),
                        old(self).offset(),
                    )
                    &&& token == if final(self).offset() == final(self).source().len() {
                        Ok(None::<Token>)
                    } else {
                        Err(lex_error_at(final(self).source(), final(self).offset()))
                    }
                },
            },
    {
        match self.next_token() {
            Some(token) => Ok(Some(token)),
            None => {
                match self.current_char() {
                    None => Ok(None),
                    Some(ch) => {
                        let point = self.current_location();
                        if ch == '_' {
                            Err(LexerError::InvalidIdentifier(point))
                        } else if ch == '+' || ch == '-' {
                            match self.peek_next_char() {
                                Some(next) => {
                                    if is_digit(next) {
                                        Err(LexerError::InvalidInteger(point))
                                    } else {
                                        Err(LexerError::UnexpectedError(point))
                                    }
                                },
                                None => Err(LexerError::UnexpectedError(point)),
                            }
                        } else {
                            Err(LexerError::UnexpectedError(point))
                        }
                    },
                }
            },
        }
    }
}

/// The tokens of `input`, in order. The sequence ends at the end of the
/// text, and also, without a sign of it, in front of the first character
/// that starts no token: `tokenize_strict` reports that character.
pub fn tokenize(input: &str) -> (tokens: Vec<Token>)
    ensures
        token_views(tokens@) == tokens_of(input@),
        forall|i: int| 0 <= i < tokens@.len() ==> lexical(#[trigger] tokens@[i]@),
{
    let chars = decode(input);
    proof {
        assert(input@.len() == chars.len());
        lemma_tokens_are_lexical(input@, 0);
        assert forall|i: int| 0 <= i < tokens_of(input@).len() implies lexical(
            #[trigger] tokens_of(input@)[i],
        ) by {}
    }
    let mut lexer = Lexer::new(chars.as_slice());
    let mut tokens: Vec<Token> = Vec::new();
    loop
        invariant_except_break
            tokens_of(input@) == token_views(tokens@) + tokens_from(input@, lexer.offset()),
        invariant
            lexer.source() == input@,
            0 <= lexer.offset() <= input@.len(),
        ensures
            token_views(tokens@) == tokens_of(input@),
        decreases input@.len() - lexer.offset(),
    {
        let ghost before = lexer.offset();
        let ghost seen = token_views(tokens@);
        proof {
            scan::lemma_next_token_moves_on(input@, before);
        }
        match lexer.next_token() {
            Some(token) => {
                tokens.push(token);
                assert(token_views(tokens@) =~= seen.push(token@));
                assert(seen.push(token@) + tokens_from(input@, lexer.offset()) =~= seen + (
                    seq![token@] + tokens_from(input@, lexer.offset())));
            },
            None => {
                assert(token_views(tokens@) + Seq::<TokenView>::empty() =~= token_views(tokens@));
                break ;
            },
        }
    }
    proof {
        assert forall|i: int| 0 <= i < tokens@.len() implies lexical(#[trigger] tokens@[i]@) by {
            assert(token_views(tokens@)[i] == tokens@[i]@);
        }
    }
    tokens
}

/// The tokens of `input`, if the whole text is made of tokens and white
/// space, and else the error for the first character that starts no
/// token.
pub fn tokenize_strict(input: &str) -> (tokens: Result<Vec<Token>, LexerError>)
    ensures
        match tokens {
            Ok(tokens) => {
                &&& lexing_end(input@, 0) == input@.len()
                &&& token_views(tokens@) == tokens_of(input@)
                &&& forall|i: int| 0 <= i < tokens@.len() ==> lexical(#[trigger] tokens@[i]@)
            },
            Err(error) => {
                &&& lexing_end(input@, 0) < input@.len()
                &&& error == lex_error_at(input@, lexing_end(input@, 0))
            },
        },
{
    let chars = decode(input);
    proof {
        assert(input@.len() == chars.len());
        lemma_tokens_are_lexical(input@, 0);
        assert forall|i: int| 0 <= i < tokens_of(input@).len() implies lexical(
            #[trigger] tokens_of(input@)[i],
        ) by {}
    }
    let mut lexer = Lexer::new(chars.as_slice());
    let mut tokens: Vec<Token> = Vec::new();
    loop
        invariant
            lexer.source() == input@,
            0 <= lexer.offset() <= input@.len(),
            tokens_of(input@) == token_views(tokens@) + tokens_from(input@, lexer.offset()),
            lexing_end(input@, 0) == lexing_end(input@, lexer.offset()),
            forall|i: int|
                0 <= i < tokens_of(input@).len() ==> lexical(#[trigger] tokens_of(input@)[i]),
        decreases input@.len() - lexer.offset(),
    {
        let ghost before = lexer.offset();
        let ghost seen = token_views(tokens@);
        proof {
            scan::lemma_next_token_moves_on(input@, before);
        }
        match lexer.next_token_strict() {
            Ok(Some(token)) => {
                tokens.push(token);
                assert(token_views(tokens@) =~= seen.push(token@));
                assert(seen.push(token@) + tokens_from(input@, lexer.offset()) =~= seen + (
                    seq![token@] + tokens_from(input@, lexer.offset())));
            },
            Ok(None) => {
                assert(token_views(tokens@) + Seq::<TokenView>::empty() =~= token_views(tokens@));
                assert forall|i: int| 0 <= i < tokens@.len() implies lexical(
                    #[trigger] tokens@[i]@,
                ) by {
                    assert(token_views(tokens@)[i] == tokens@[i]@);
                }
                return Ok(tokens);
            },
            Err(error) => {
                return Err(error);
            },
        }
    }
}

impl<'a> Clone for Lexer<'a> {
    /// A second cursor over the same text, at the same place.
    fn clone(&self) -> (copy: Lexer<'a>)
        ensures
            copy.source() == self.source(),
            copy.offset() == self.offset(),
    {
        proof {
            use_type_invariant(self);
        }
        Lexer { chars: self.chars, cursor: self.cursor }
    }
}

} // verus!
