//! Integer literals: from their text to their value.

use crate::lexer::chars::digit;
use crate::lexer::is_digit;
use vstd::prelude::*;

verus! {

/// A numeral is a run of at least one digit.
pub open spec fn is_numeral(text: Seq<char>) -> bool {
    text.len() > 0 && forall|i: int| 0 <= i < text.len() ==> digit(#[trigger] text[i])
}

/// The value of a digit.
pub open spec fn digit_value(ch: char) -> nat {
    (ch as nat - '0' as nat) as nat
}

/// The value of a run of digits, read in base ten.
pub open spec fn decimal(text: Seq<char>) -> nat
    decreases text.len(),
{
    if text.len() == 0 {
        0
    } else {
        decimal(text.drop_last()) * 10 + digit_value(text.last())
    }
}

/// The number that a literal denotes: the value of its digits, where it is
/// a numeral and the machine's word can hold the value.
pub open spec fn number_value(text: Seq<char>) -> Option<usize> {
    if is_numeral(text) && decimal(text) <= usize::MAX {
        Some(decimal(text) as usize)
    } else {
        None
    }
}

/// The digit for a value below ten.
pub open spec fn digit_char(value: nat) -> char {
    if value == 0 {
        '0'
    } else if value == 1 {
        '1'
    } else if value == 2 {
        '2'
    } else if value == 3 {
        '3'
    } else if value == 4 {
        '4'
    } else if value == 5 {
        '5'
    } else if value == 6 {
        '6'
    } else if value == 7 {
        '7'
    } else if value == 8 {
        '8'
    } else {
        '9'
    }
}

/// The way a number is written in base ten, without leading zeros.
pub open spec fn numeral(value: nat) -> Seq<char>
    decreases value,
{
    if value < 10 {
        seq![digit_char(value)]
    } else {
        numeral(value / 10).push(digit_char(value % 10))
    }
}

/// A number is read again from the way it is written.
pub proof fn lemma_numeral_value(value: nat)
    ensures
        is_numeral(numeral(value)),
        decimal(numeral(value)) == value,
        value <= usize::MAX ==> number_value(numeral(value)) == Some(value as usize),
    decreases value,
{
    let text = numeral(value);
    if value < 10 {
        assert(text.drop_last() =~= Seq::<char>::empty());
        assert(decimal(text.drop_last()) == 0);
        assert(digit_value(text.last()) == value);
    } else {
        lemma_numeral_value(value / 10);
        assert(text.drop_last() =~= numeral(value / 10));
        assert(digit_value(text.last()) == value % 10);
        assert forall|i: int| 0 <= i < text.len() implies digit(#[trigger] text[i]) by {
            if i < text.len() - 1 {
                assert(text[i] == numeral(value / 10)[i]);
            }
        }
    }
}

/// Reading more digits does not make a number smaller.
pub proof fn lemma_decimal_grows(text: Seq<char>, prefix: int)
    requires
        0 <= prefix <= text.len(),
    ensures
        decimal(text.take(prefix)) <= decimal(text),
    decreases text.len(),
{
    if prefix == text.len() {
        assert(text.take(prefix) =~= text);
    } else {
        lemma_decimal_grows(text.drop_last(), prefix);
        assert(text.drop_last().take(prefix) =~= text.take(prefix));
    }
}

/// Computes the number that `text` denotes, if it denotes one.
pub fn parse_decimal(text: &str) -> (value: Option<usize>)
    ensures
        value == number_value(text@),
{
    let mut value: usize = 0;
    let mut any = false;
    for ch in it: text.chars()
        invariant
            it.seq() == text@,
            any == (it.index() > 0),
            value == decimal(text@.take(it.index() as int)),
            forall|i: int| 0 <= i < it.index() ==> digit(#[trigger] text@[i]),
    {
        let ghost seen = text@.take(it.index() as int);
        let ghost more = text@.take(it.index() as int + 1);
        proof {
            assert(more.drop_last() =~= seen);
            assert(more.last() == ch);
            lemma_decimal_grows(text@, it.index() as int + 1);
        }
        if !is_digit(ch) {
            return None;
        }
        let d: usize = (ch as u8 - 48u8) as usize;
        assert(d == digit_value(ch));
        if value > (usize::MAX - d) / 10 {
            return None;
        }
        value = value * 10 + d;
        any = true;
    }
    assert(text@.take(text@.len() as int) =~= text@);
    if any {
        Some(value)
    } else {
        None
    }
}

} // verus!
