//! Text operations of the standard library that the catalog relies on, each
//! behind a contract over sequences of characters.

use vstd::prelude::*;

verus! {

/// The lowercase form of a text, as the standard library's Unicode tables
/// define it.
pub uninterp spec fn lowercase(s: Seq<char>) -> Seq<char>;

/// `needle` occurs in `hay` as a contiguous run of characters.
pub open spec fn is_substring(needle: Seq<char>, hay: Seq<char>) -> bool {
    exists|i: int|
        0 <= i && i + needle.len() <= hay.len() && #[trigger] hay.subrange(
            i,
            i + needle.len(),
        ) == needle
}

/// Calls `str::to_lowercase`. The result is a function of the characters of
/// `s` alone; the contract gives it the name `lowercase`.
#[verifier::external_body]
pub(crate) fn to_lowercase(s: &str) -> (r: String)
    ensures
        r@ == lowercase(s@),
{
    s.to_lowercase()
}

/// Calls `str::contains` with a text pattern: true exactly when `needle`
/// matches a sub-slice of `hay`.
#[verifier::external_body]
pub(crate) fn contains(hay: &str, needle: &str) -> (r: bool)
    ensures
        r == is_substring(needle@, hay@),
{
    hay.contains(needle)
}

/// Calls `str::starts_with` with a text pattern: true exactly when `prefix`
/// matches a prefix of `s`.
#[verifier::external_body]
pub(crate) fn starts_with(s: &str, prefix: &str) -> (r: bool)
    ensures
        r == prefix@.is_prefix_of(s@),
{
    s.starts_with(prefix)
}

/// A prefix of a text that occurs in `hay` occurs in `hay` too.
pub proof fn lemma_prefix_of_substring(prefix: Seq<char>, needle: Seq<char>, hay: Seq<char>)
    requires
        prefix.is_prefix_of(needle),
        is_substring(needle, hay),
    ensures
        is_substring(prefix, hay),
{
    let i = choose|i: int|
        0 <= i && i + needle.len() <= hay.len() && #[trigger] hay.subrange(i, i + needle.len())
            == needle;
    assert(hay.subrange(i, i + prefix.len()) =~= prefix);
}

} // verus!
