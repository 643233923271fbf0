//! The classes of characters that the lexer tells apart.

use vstd::prelude::*;

verus! {

/// The letters of ASCII, upper and lower case.
pub open spec fn letter(ch: char) -> bool {
    ('a' <= ch && ch <= 'z') || ('A' <= ch && ch <= 'Z')
}

/// The ten digits of ASCII.
pub open spec fn digit(ch: char) -> bool {
    '0' <= ch && ch <= '9'
}

/// The characters of which an identifier is made: letters, digits and the
/// underscore.
pub open spec fn identifier_char(ch: char) -> bool {
    letter(ch) || digit(ch) || ch == '_'
}

/// The characters with the Unicode property `White_Space`: tab to carriage
/// return, the space, next line, the no-break space, the Ogham space mark,
/// en quad to hair space, the line and paragraph separators, the narrow
/// no-break space, the medium mathematical space and the ideographic space.
pub open spec fn white_space(ch: char) -> bool {
    ||| ('\u{0009}' <= ch && ch <= '\u{000D}')
    ||| ch == '\u{0020}'
    ||| ch == '\u{0085}'
    ||| ch == '\u{00A0}'
    ||| ch == '\u{1680}'
    ||| ('\u{2000}' <= ch && ch <= '\u{200A}')
    ||| ch == '\u{2028}'
    ||| ch == '\u{2029}'
    ||| ch == '\u{202F}'
    ||| ch == '\u{205F}'
    ||| ch == '\u{3000}'
}

pub fn is_letter(ch: char) -> (yes: bool)
    ensures
        yes == letter(ch),
{
    ('a' <= ch && ch <= 'z') || ('A' <= ch && ch <= 'Z')
}

pub fn is_digit(ch: char) -> (yes: bool)
    ensures
        yes == digit(ch),
{
    '0' <= ch && ch <= '9'
}

pub fn is_identifier_char(ch: char) -> (yes: bool)
    ensures
        yes == identifier_char(ch),
{
    is_letter(ch) || is_digit(ch) || ch == '_'
}

pub fn is_whitespace(ch: char) -> (yes: bool)
    ensures
        yes == white_space(ch),
{
    ('\u{0009}' <= ch && ch <= '\u{000D}') || ch == '\u{0020}' || ch == '\u{0085}' || ch
        == '\u{00A0}' || ch == '\u{1680}' || ('\u{2000}' <= ch && ch <= '\u{200A}') || ch
        == '\u{2028}' || ch == '\u{2029}' || ch == '\u{202F}' || ch == '\u{205F}' || ch
        == '\u{3000}'
}

} // verus!
