//! Unicode services the text rules rest on: normalization forms from the
//! `unicode-normalization` crate, and the Unicode tables of std.

use vstd::prelude::*;
use unicode_normalization::UnicodeNormalization;

verus! {

/// The NFKC normal form of `s`, as `unicode_normalization` computes it.
pub uninterp spec fn nfkc_of(s: Seq<char>) -> Seq<char>;

/// The NFKD normal form of `s`, as `unicode_normalization` computes it.
pub uninterp spec fn nfkd_of(s: Seq<char>) -> Seq<char>;

/// Whether `c` has the Unicode `Alphabetic` property (`char::is_alphabetic`).
pub uninterp spec fn alphabetic(c: char) -> bool;

/// The lower-case mapping of `s` (`str::to_lowercase`).
pub uninterp spec fn lowercase_of(s: Seq<char>) -> Seq<char>;

/// Every character of `s` is ASCII.
pub open spec fn is_ascii_text(s: Seq<char>) -> bool {
    forall|i: int| 0 <= i < s.len() ==> (#[trigger] s[i] as u32) < 128
}

/// `c` is an ASCII upper-case letter.
pub open spec fn is_ascii_upper(c: char) -> bool {
    65 <= (c as u32) && (c as u32) <= 90
}

/// `c` is an ASCII lower-case letter.
pub open spec fn is_ascii_lower(c: char) -> bool {
    97 <= (c as u32) && (c as u32) <= 122
}

/// `c` with an ASCII upper-case letter turned into its lower-case letter.
pub open spec fn ascii_lower_char(c: char) -> char {
    if is_ascii_upper(c) {
        ((c as u32) + 32) as char
    } else {
        c
    }
}

/// `c` with an ASCII lower-case letter turned into its upper-case letter.
pub open spec fn ascii_upper_char(c: char) -> char {
    if is_ascii_lower(c) {
        ((c as u32) - 32) as char
    } else {
        c
    }
}

/// `s` with its ASCII upper-case letters lower-cased.
pub open spec fn ascii_lowered(s: Seq<char>) -> Seq<char> {
    s.map_values(|c: char| ascii_lower_char(c))
}

/// `s` with its ASCII lower-case letters upper-cased.
pub open spec fn ascii_uppered(s: Seq<char>) -> Seq<char> {
    s.map_values(|c: char| ascii_upper_char(c))
}

/// NFKD leaves ASCII text as it is, and lower-casing maps ASCII text letter
/// by letter to ASCII lower case: what `nfkd` and `to_lowercase` state of
/// each ASCII string they are called on.
pub open spec fn ascii_folding_holds() -> bool {
    &&& forall|t: Seq<char>| is_ascii_text(t) ==> #[trigger] nfkd_of(t) == t
    &&& forall|t: Seq<char>| is_ascii_text(t) ==> #[trigger] lowercase_of(t) == ascii_lowered(t)
}

/// Calls `UnicodeNormalization::nfkc` on `s` and collects the characters;
/// the contract claims that the result is the named NFKC form of `s`.
#[verifier::external_body]
pub(crate) fn nfkc(s: &str) -> (r: String)
    ensures
        r@ == nfkc_of(s@),
{
    s.nfkc().collect()
}

/// Calls `UnicodeNormalization::nfkd` on `s` and collects the characters;
/// the contract claims that the result is the named NFKD form of `s`, and,
/// as the source shows (7-bit ASCII never decomposes and is a starter, so
/// nothing is reordered), that ASCII text comes back unchanged.
#[verifier::external_body]
pub(crate) fn nfkd(s: &str) -> (r: String)
    ensures
        r@ == nfkd_of(s@),
        is_ascii_text(s@) ==> r@ == s@,
{
    s.nfkd().collect()
}

/// Calls `char::is_alphabetic`; the contract claims that the answer is the
/// named `Alphabetic` property of `c`.
#[verifier::external_body]
pub(crate) fn is_alphabetic(c: char) -> (b: bool)
    ensures
        b == alphabetic(c),
{
    c.is_alphabetic()
}

/// Calls `str::to_lowercase`; the contract claims that the result is the
/// named lower-case mapping of `s`, and, as the documentation of
/// `char::to_lowercase` gives with the Unicode lower-case mappings, that on
/// ASCII text each letter `A`-`Z` becomes `a`-`z` and every other character
/// stays as it is.
#[verifier::external_body]
pub(crate) fn to_lowercase(s: &str) -> (r: String)
    ensures
        r@ == lowercase_of(s@),
        is_ascii_text(s@) ==> r@ == ascii_lowered(s@),
{
    s.to_lowercase()
}

} // verus!
