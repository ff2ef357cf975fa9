//! Unicode services the library takes from outside: compatibility
//! decomposition (unicode-normalization) and full case folding to lower
//! case (std's `str::to_lowercase`).
use unicode_normalization::UnicodeNormalization;
use vstd::prelude::*;

verus! {

/// The NFKD (compatibility decomposition) form of a string, as computed by
/// the unicode-normalization crate.
pub uninterp spec fn nfkd_form(s: Seq<char>) -> Seq<char>;

/// The lowercase form of a string per Unicode's `Lowercase` mapping, as
/// computed by std's `str::to_lowercase`.
pub uninterp spec fn lowercase_form(s: Seq<char>) -> Seq<char>;

/// Whether `c` has Unicode General_Category Mark, per unicode-normalization.
pub uninterp spec fn is_mark(c: char) -> bool;

/// Calls `unicode_normalization::char::is_combining_mark`.  Trusted: the
/// result is `is_mark(c)` (a function of `c` alone).
#[verifier::external_body]
pub fn is_combining_mark(c: char) -> (b: bool)
    ensures
        b == is_mark(c),
{
    unicode_normalization::char::is_combining_mark(c)
}

/// Calls `UnicodeNormalization::nfkd` and collects the decomposed chars.
/// Trusted: the result is the NFKD form of `s` (a function of `s` alone).
#[verifier::external_body]
pub fn nfkd(s: &str) -> (r: String)
    ensures
        r@ == nfkd_form(s@),
{
    s.nfkd().collect()
}

/// Calls std's `str::to_lowercase`.  Trusted: the result is the Unicode
/// lowercase form of `s` (a function of `s` alone).
#[verifier::external_body]
pub fn to_lowercase(s: &str) -> (r: String)
    ensures
        r@ == lowercase_form(s@),
{
    s.to_lowercase()
}

} // verus!
