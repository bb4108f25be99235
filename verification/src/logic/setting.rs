//! What the settings dialog makes of what the user enters.

use crate::util::str::{chars_of, slice_chars, string_of, trim, trimmed};
use vstd::prelude::*;

verus! {

/// The font size that is used for a font size that is asked for: no less
/// than 10 and no more than 50.
pub fn font_size(asked: u32) -> (r: u32)
    ensures
        r == if asked < 10 {
            10u32
        } else if asked > 50 {
            50u32
        } else {
            asked
        },
{
    if asked < 10 {
        10
    } else if asked > 50 {
        50
    } else {
        asked
    }
}

/// The text of a feedback as it is sent: without the white space around it,
/// and no longer than 2048 characters. Nothing is sent for an empty text.
pub open spec fn spec_feedback_text(text: Seq<char>) -> Option<Seq<char>> {
    let t = trimmed(text);
    if t.len() == 0 {
        None
    } else if t.len() > 2048 {
        Some(t.take(2048))
    } else {
        Some(t)
    }
}

/// The text of a feedback as it is sent.
pub fn feedback_text(text: &str) -> (r: Option<String>)
    ensures
        match spec_feedback_text(text@) {
            Some(t) => r is Some && r->0@ == t,
            None => r is None,
        },
{
    let text = trim(text);
    if text.is_empty() {
        return None;
    }
    let chars_text = chars_of(text);
    if chars_text.len() > 2048 {
        let head = slice_chars(&chars_text, 0, 2048);
        Some(string_of(&head))
    } else {
        Some(text.to_string())
    }
}

} // verus!
