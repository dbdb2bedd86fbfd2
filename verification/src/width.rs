//! Display width of terminal text, from the `unicode-width` crate.
use vstd::prelude::*;

verus! {

/// What `unicode_width::UnicodeWidthChar::width` returns for a character:
/// its displayed width in terminal columns, or `None` for a control
/// character. The result depends on the character alone.
pub uninterp spec fn char_width_of(c: char) -> Option<usize>;

/// What `unicode_width::UnicodeWidthStr::width` returns for a string: its
/// displayed width in terminal columns. The result depends on the
/// characters alone.
pub uninterp spec fn str_width_of(s: Seq<char>) -> usize;

/// Relies on `unicode_width::UnicodeWidthChar::width`: the displayed width
/// of one character, `None` for a control character.
#[verifier::external_body]
pub fn char_width(c: char) -> (r: Option<usize>)
    ensures
        r == char_width_of(c),
{
    unicode_width::UnicodeWidthChar::width(c)
}

/// Relies on `unicode_width::UnicodeWidthStr::width`: the displayed width
/// of a whole string.
#[verifier::external_body]
pub fn str_width(s: &str) -> (r: usize)
    ensures
        r == str_width_of(s@),
{
    unicode_width::UnicodeWidthStr::width(s)
}

/// Width that a character adds while scanning: its displayed width, with
/// control characters counting zero.
pub open spec fn visible_width(c: char) -> nat {
    match char_width_of(c) {
        Some(w) => w as nat,
        None => 0,
    }
}

} // verus!
