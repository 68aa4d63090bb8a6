//! Display width of text, as a terminal lays it out.
use unicode_width::UnicodeWidthStr;
use vstd::prelude::*;

verus! {

/// The number of terminal columns a string occupies when displayed. The
/// value comes from the Unicode width tables and depends on the string's
/// characters alone.
pub uninterp spec fn display_width_of(s: Seq<char>) -> nat;

/// Relies on `unicode_width::UnicodeWidthStr::width`: the displayed width
/// in columns of a string. The crate computes it as a pure fold over the
/// string's characters against static tables, so it is a function of the
/// characters alone; the fold over no characters yields zero.
#[verifier::external_body]
pub(crate) fn display_width(s: &str) -> (r: usize)
    ensures
        r as nat == display_width_of(s@),
        s@.len() == 0 ==> r == 0,
{
    UnicodeWidthStr::width(s)
}

} // verus!
