//! Substring matching over strings, used by the provider search.

use vstd::prelude::*;

verus! {

/// A sequence `needle` occurs contiguously inside `haystack`.
pub open spec fn contains_seq(haystack: Seq<char>, needle: Seq<char>) -> bool {
    exists|i: int|
        0 <= i && i + needle.len() <= haystack.len() && #[trigger] haystack.subrange(
            i,
            i + needle.len(),
        ) == needle
}

/// Relies on `str::contains` with a string pattern: it returns true exactly
/// when the pattern occurs as a contiguous substring. UTF-8 is
/// self-synchronizing, so the byte-level occurrence it searches for coincides
/// with a character-level occurrence.
#[verifier::external_body]
pub(crate) fn str_contains(haystack: &str, needle: &str) -> (r: bool)
    ensures
        r == contains_seq(haystack@, needle@),
{
    haystack.contains(needle)
}

} // verus!
