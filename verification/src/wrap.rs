//! Word-boundary wrapping of message bodies, through the textwrap crate.

use vstd::prelude::*;

verus! {

/// The lines textwrap produces for a string at a display width.
pub uninterp spec fn wrapped(s: Seq<char>, width: int) -> Seq<Seq<char>>;

/// Relies on `textwrap::wrap_iter` (with its default word splitter and
/// word breaking): word-boundary wrapping of `s` at display width
/// `width`, a deterministic function of the string and the width alone.
/// Its source yields no lines for an empty string and at least one line
/// otherwise.
#[verifier::external_body]
pub(crate) fn wrap_text(s: &str, width: usize) -> (r: Vec<String>)
    ensures
        r@.map_values(|l: String| l@) == wrapped(s@, width as int),
        s@.len() == 0 ==> r@.len() == 0,
        s@.len() > 0 ==> r@.len() >= 1,
{
    textwrap::wrap_iter(s, width).map(|l| l.into_owned()).collect()
}

} // verus!
