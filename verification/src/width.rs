//! Display-column width of characters.
//!
//! The editor measures text in terminal display columns when expanding tabs.
//! The width of a character is decided by the Unicode tables of the
//! `unicode_width` crate; this module names that result and exposes it to the
//! rest of the library through one trusted call.

use vstd::prelude::*;
use unicode_width::UnicodeWidthChar;

verus! {

/// The displayed column width of one character: what
/// `unicode_width::UnicodeWidthChar::width` returns, with control characters
/// (reported as `None` there) counted as zero columns.
pub uninterp spec fn char_width(c: char) -> nat;

/// Relies on `unicode_width::UnicodeWidthChar::width`: the displayed column
/// width of a character, decided by its Unicode tables from the character
/// alone; its packed width entries and special cases never exceed 3 columns.
#[verifier::external_body]
pub fn display_width_of_char(c: char) -> (r: usize)
    ensures
        r as nat == char_width(c),
        r <= 3,
{
    c.width().unwrap_or(0)
}

/// Total display width of a character sequence: the sum of the widths of its
/// characters.
pub open spec fn display_width(s: Seq<char>) -> nat
    decreases s.len(),
{
    if s.len() == 0 {
        0
    } else {
        display_width(s.drop_last()) + char_width(s.last())
    }
}

} // verus!
