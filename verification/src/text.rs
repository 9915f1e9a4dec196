//! Searching and case folding of text, as the standard library does it.

use vstd::prelude::*;

verus! {

/// Whether `pattern` stands in `text` starting at position `at`.
pub open spec fn occurs_at(pattern: Seq<char>, text: Seq<char>, at: int) -> bool {
    0 <= at && at + pattern.len() <= text.len() && text.subrange(at, at + pattern.len())
        == pattern
}

/// Whether `pattern` stands somewhere in `text`.
pub open spec fn occurs_in(pattern: Seq<char>, text: Seq<char>) -> bool {
    exists|at: int| occurs_at(pattern, text, at)
}

/// The lower-case form that `str::to_lowercase` gives to a text.
pub uninterp spec fn lowercase_of(text: Seq<char>) -> Seq<char>;

/// Calls `str::contains` with a string pattern, which tells whether the
/// pattern matches a sub-slice of the text.
#[verifier::external_body]
pub(crate) fn str_contains(text: &str, pattern: &str) -> (found: bool)
    ensures
        found == occurs_in(pattern@, text@),
{
    text.contains(pattern)
}

/// Calls `str::to_lowercase`, which returns the lower-case equivalent of the
/// text as a new string.
#[verifier::external_body]
pub(crate) fn str_to_lowercase(text: &str) -> (lowered: String)
    ensures
        lowered@ == lowercase_of(text@),
{
    text.to_lowercase()
}

} // verus!
