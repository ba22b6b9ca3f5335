//! How many terminal columns a text takes.

use unicode_width::UnicodeWidthStr;
use vstd::prelude::*;

verus! {

/// The number of terminal columns that a text takes, as the `unicode-width`
/// crate reckons it for a string of these characters outside an East Asian
/// context. Its rules and tables fill pages and are not restated here; all
/// that is said of the width is that the same text always has the same one.
pub uninterp spec fn display_width(text: Seq<char>) -> nat;

/// Asks `unicode-width` for the width of a text, by `UnicodeWidthStr::width`.
///
/// Nothing here is proved. The contract only names the answer: it is the
/// width that the crate gives for these characters, the same whenever it is
/// asked.
#[verifier::external_body]
pub(crate) fn str_width(text: &str) -> (w: usize)
    ensures
        w == display_width(text@),
{
    UnicodeWidthStr::width(text)
}

} // verus!
