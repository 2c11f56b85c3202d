//! Reading a move from a line of text: two numbers, row and column, with
//! blanks between and around them.

use crate::board::Board;
use vstd::prelude::*;

verus! {

/// Why a line of text gave no move.
#[derive(Clone, Copy, Debug, PartialEq, Eq, Structural)]
pub enum InputError {
    /// The line is not two numbers.
    BadInput,
    /// The numbers name no cell, or a cell that is claimed already.
    BadPosition,
}

/// Whether `c` separates words: a character with the Unicode property
/// `White_Space`.
pub open spec fn is_space(c: char) -> bool {
    ||| '\u{9}' <= c <= '\u{d}'
    ||| c == ' '
    ||| c == '\u{85}'
    ||| c == '\u{a0}'
    ||| c == '\u{1680}'
    ||| '\u{2000}' <= c <= '\u{200a}'
    ||| c == '\u{2028}'
    ||| c == '\u{2029}'
    ||| c == '\u{202f}'
    ||| c == '\u{205f}'
    ||| c == '\u{3000}'
}

/// Whether `c` is one of the digits `0` to `9`.
pub open spec fn is_digit(c: char) -> bool {
    '0' <= c <= '9'
}

/// The first index at or after `from` at which `text` holds no separator, or
/// the length of `text` if it holds separators from `from` on.
pub open spec fn skip_spaces(text: Seq<char>, from: int) -> int
    decreases text.len() - from,
{
    if 0 <= from < text.len() && is_space(text[from]) {
        skip_spaces(text, from + 1)
    } else {
        from
    }
}

/// The first index at or after `from` at which `text` holds a separator, or
/// the length of `text` if it holds none from `from` on.
pub open spec fn word_end(text: Seq<char>, from: int) -> int
    decreases text.len() - from,
{
    if 0 <= from < text.len() && !is_space(text[from]) {
        word_end(text, from + 1)
    } else {
        from
    }
}

/// The number that a sequence of digits spells in base ten.
pub open spec fn digits_value(digits: Seq<char>) -> nat
    decreases digits.len(),
{
    if digits.len() == 0 {
        0
    } else {
        digits_value(digits.drop_last()) * 10 + (digits.last() as int - '0' as int) as nat
    }
}

/// The number that `digits` spell, if they are one or more digits and spell
/// a number that fits a `usize`.
pub open spec fn unsigned(digits: Seq<char>) -> Option<usize> {
    if digits.len() > 0 && (forall|i: int| 0 <= i < digits.len() ==> is_digit(#[trigger] digits[i]))
        && digits_value(digits) <= usize::MAX {
        Some(digits_value(digits) as usize)
    } else {
        None
    }
}

/// The number that `word` spells, if it spells one that fits a `usize`: one
/// or more digits, which a single `+` may precede.
pub open spec fn number(word: Seq<char>) -> Option<usize> {
    if word.len() > 0 && word[0] == '+' {
        unsigned(word.subrange(1, word.len() as int))
    } else {
        unsigned(word)
    }
}

/// The two words of `text`, if it consists of exactly two words with
/// separators between them and, possibly, around them.
pub open spec fn two_words(text: Seq<char>) -> Option<(Seq<char>, Seq<char>)> {
    let a = skip_spaces(text, 0);
    let b = word_end(text, a);
    let c = skip_spaces(text, b);
    let d = word_end(text, c);
    let e = skip_spaces(text, d);
    if a < b && c < d && e == text.len() {
        Some((text.subrange(a, b), text.subrange(c, d)))
    } else {
        None
    }
}

/// The pair of numbers that `text` spells, if it consists of exactly two
/// words and each of them spells a number.
pub open spec fn two_numbers(text: Seq<char>) -> Option<(usize, usize)> {
    match two_words(text) {
        Some((first, second)) => match (number(first), number(second)) {
            (Some(x), Some(y)) => Some((x, y)),
            _ => None,
        },
        None => None,
    }
}

/// Whether `c` separates words.
pub fn is_whitespace(c: char) -> (yes: bool)
    ensures
        yes == is_space(c),
{
    ('\u{9}' <= c && c <= '\u{d}') || c == ' ' || c == '\u{85}' || c == '\u{a0}' || c
        == '\u{1680}' || ('\u{2000}' <= c && c <= '\u{200a}') || c == '\u{2028}' || c
        == '\u{2029}' || c == '\u{202f}' || c == '\u{205f}' || c == '\u{3000}'
}

/// The characters of `line`, one by one.
fn chars_of(line: &str) -> (text: Vec<char>)
    ensures
        text@ == line@,
{
    let mut text: Vec<char> = Vec::new();
    for c in it: line.chars()
        invariant
            text@ == it.seq().take(it.index() as int),
            it.seq() == line@,
    {
        text.push(c);
    }
    text
}

fn skip(text: &Vec<char>, from: usize) -> (to: usize)
    requires
        from <= text.len(),
    ensures
        to == skip_spaces(text@, from as int),
        from <= to <= text.len(),
{
    let mut i = from;
    while i < text.len() && is_whitespace(text[i])
        invariant
            from <= i <= text.len(),
            skip_spaces(text@, i as int) == skip_spaces(text@, from as int),
        decreases text.len() - i,
    {
        i += 1;
    }
    i
}

fn end_of_word(text: &Vec<char>, from: usize) -> (to: usize)
    requires
        from <= text.len(),
    ensures
        to == word_end(text@, from as int),
        from <= to <= text.len(),
{
    let mut i = from;
    while i < text.len() && !is_whitespace(text[i])
        invariant
            from <= i <= text.len(),
            word_end(text@, i as int) == word_end(text@, from as int),
        decreases text.len() - i,
    {
        i += 1;
    }
    i
}

/// A run of digits spells at least what any of its beginnings spells.
proof fn lemma_prefix_value(digits: Seq<char>, k: int)
    requires
        0 <= k <= digits.len(),
        forall|i: int| 0 <= i < digits.len() ==> is_digit(#[trigger] digits[i]),
    ensures
        digits_value(digits.take(k)) <= digits_value(digits),
    decreases digits.len() - k,
{
    if k < digits.len() {
        lemma_prefix_value(digits, k + 1);
        assert(digits.take(k + 1).drop_last() == digits.take(k));
        assert(digits.take(k + 1).last() == digits[k]);
    } else {
        assert(digits.take(k) == digits);
    }
}

/// The number that the characters `from .. to` of `text` spell, if they
/// spell one.
fn parse_number(text: &Vec<char>, from: usize, to: usize) -> (value: Option<usize>)
    requires
        from <= to <= text.len(),
    ensures
        value == number(text@.subrange(from as int, to as int)),
{
    let ghost word = text@.subrange(from as int, to as int);
    let start = if from < to && text[from] == '+' {
        from + 1
    } else {
        from
    };
    let ghost digits = text@.subrange(start as int, to as int);
    proof {
        if start == from {
            assert(digits == word);
        } else {
            assert(word[0] == '+');
            assert(digits == word.subrange(1, word.len() as int));
        }
    }
    assert(number(word) == unsigned(digits));
    if start == to {
        return None;
    }
    let mut value: usize = 0;
    let mut i = start;
    while i < to
        invariant
            start <= i <= to <= text.len(),
            start < to,
            digits == text@.subrange(start as int, to as int),
            number(text@.subrange(from as int, to as int)) == unsigned(digits),
            forall|j: int| 0 <= j < i - start ==> is_digit(#[trigger] digits[j]),
            value == digits_value(digits.take(i - start)),
        decreases to - i,
    {
        let c = text[i];
        if !('0' <= c && c <= '9') {
            proof {
                assert(digits[i - start] == c);
            }
            return None;
        }
        let digit = (c as u32 - '0' as u32) as usize;
        proof {
            assert(digits.take(i - start + 1).drop_last() == digits.take(i - start));
            assert(digits.take(i - start + 1).last() == c);
        }
        if value > (usize::MAX - digit) / 10 {
            proof {
                assert(digits_value(digits.take(i - start + 1)) > usize::MAX);
                if forall|j: int| 0 <= j < digits.len() ==> is_digit(#[trigger] digits[j]) {
                    lemma_prefix_value(digits, i - start + 1);
                }
            }
            return None;
        }
        value = value * 10 + digit;
        i += 1;
    }
    proof {
        assert(digits.take(to - start) == digits);
    }
    Some(value)
}

/// The pair of numbers that `line` spells, if it consists of exactly two
/// numbers with blanks between them and, possibly, around them.
pub fn read_numbers(line: &str) -> (pair: Option<(usize, usize)>)
    ensures
        pair == two_numbers(line@),
{
    let text = chars_of(line);
    let a = skip(&text, 0);
    let b = end_of_word(&text, a);
    let c = skip(&text, b);
    let d = end_of_word(&text, c);
    let e = skip(&text, d);
    if !(a < b && c < d && e == text.len()) {
        return None;
    }
    let x = match parse_number(&text, a, b) {
        Some(x) => x,
        None => {
            return None;
        },
    };
    let y = match parse_number(&text, c, d) {
        Some(y) => y,
        None => {
            return None;
        },
    };
    Some((x, y))
}

impl Board {
    /// The move that `text` spells on this board: the cell in the row and
    /// column that its two numbers name, provided that cell is unclaimed.
    pub open spec fn input(self, text: Seq<char>) -> Result<(usize, usize), InputError> {
        match two_numbers(text) {
            Some((x, y)) => if self.free(x as int, y as int) {
                Ok((x, y))
            } else {
                Err(InputError::BadPosition)
            },
            None => Err(InputError::BadInput),
        }
    }

    /// Reads a move from one line of input.
    pub fn get_input(&self, line: &str) -> (position: Result<(usize, usize), InputError>)
        ensures
            position == self.input(line@),
    {
        match read_numbers(line) {
            Some((x, y)) => if self.is_free(x, y) {
                Ok((x, y))
            } else {
                Err(InputError::BadPosition)
            },
            None => Err(InputError::BadInput),
        }
    }
}

} // verus!
