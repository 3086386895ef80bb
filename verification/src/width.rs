//! Display widths of characters, as computed by the `unicode-width` crate.

use unicode_width::{UnicodeWidthChar, UnicodeWidthStr};
use vstd::prelude::*;

verus! {

/// The column width that `unicode-width` assigns to a single character
/// (`None` for control characters).
pub uninterp spec fn char_width_spec(c: char) -> Option<usize>;

/// `UnicodeWidthChar::width`: the displayed width of `c` in columns.
///
/// Trusted: the contract restates what the crate's source shows: control
/// characters (below U+0020 and U+007F..U+009F) have no width, printable
/// ASCII is one column wide, and every other width is at most three columns.
/// The exact table value is only named by `char_width_spec`.
#[verifier::external_body]
pub fn char_width(c: char) -> (w: Option<usize>)
    ensures
        w == char_width_spec(c),
        w is None <==> ((c as u32) < 0x20 || (0x7f <= (c as u32) && (c as u32) < 0xa0)),
        (0x20 <= (c as u32) && (c as u32) < 0x7f) ==> w == Some(1usize),
        w matches Some(n) ==> n <= 3,
{
    UnicodeWidthChar::width(c)
}

/// The column width that `unicode-width` assigns to a whole string. It is
/// not always the sum of the character widths (some sequences such as
/// `"\r\n"` and emoji ligatures are measured together).
pub uninterp spec fn str_width_spec(s: Seq<char>) -> nat;

/// `UnicodeWidthStr::width`: the displayed width of `s` in columns.
///
/// Trusted: the contract only names the result as a function of the
/// string's characters; the crate's ligature rules are not restated.
#[verifier::external_body]
pub fn str_width(s: &str) -> (w: usize)
    ensures
        w == str_width_spec(s@),
{
    UnicodeWidthStr::width(s)
}

/// Cells a character occupies when control characters count as zero.
pub open spec fn cells(c: char) -> nat {
    match char_width_spec(c) {
        Some(n) => n as nat,
        None => 0,
    }
}

/// Total cells of a character sequence (character by character).
pub open spec fn seq_cells(s: Seq<char>) -> nat
    decreases s.len(),
{
    if s.len() == 0 {
        0
    } else {
        seq_cells(s.drop_last()) + cells(s.last())
    }
}

/// `UnicodeWidthChar::width(c).unwrap_or(0)`.
pub fn char_cells(c: char) -> (n: usize)
    ensures
        n == cells(c),
        n <= 3,
{
    match char_width(c) {
        Some(n) => n,
        None => 0,
    }
}

} // verus!
