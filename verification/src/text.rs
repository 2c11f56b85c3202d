//! What the board's picture needs of `String`.
//!
//! These methods of the standard library come without a specification, so
//! their effect on the characters of the string is stated here as their
//! documentation gives it.

use vstd::prelude::*;

verus! {

/// `String::push` appends one character.
pub assume_specification[ String::push ](text: &mut String, ch: char)
    ensures
        final(text)@ == old(text)@.push(ch),
;

/// `String::pop` removes the last character and returns it, or returns
/// `None` and changes nothing if the string is empty.
pub assume_specification[ String::pop ](text: &mut String) -> (last: Option<char>)
    ensures
        match last {
            Some(ch) => old(text)@.len() > 0 && ch == old(text)@.last() && final(text)@ == old(
                text,
            )@.drop_last(),
            None => old(text)@.len() == 0 && final(text)@ == old(text)@,
        },
;

/// `String::push_str` appends all characters of `tail`.
pub assume_specification[ String::push_str ](text: &mut String, tail: &str)
    ensures
        final(text)@ == old(text)@ + tail@,
;

} // verus!
