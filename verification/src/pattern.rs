//! Regular-expression search, done by the regex crate.
use vstd::prelude::*;

verus! {

/// What the regex crate gives for compiling `pattern` and searching
/// `haystack` with it: `None` when the pattern does not compile, otherwise
/// the text of the leftmost-first match, if there is one.
pub uninterp spec fn regex_search(pattern: Seq<char>, haystack: Seq<char>) -> Option<
    Option<Seq<char>>,
>;

/// `pattern` compiles and matches somewhere in `haystack`.
pub open spec fn found(pattern: Seq<char>, haystack: Seq<char>) -> bool {
    regex_search(pattern, haystack) matches Some(Some(_))
}

/// Calls `regex::Regex::new(pattern)` and, if it compiles,
/// `Regex::find(haystack)`, returning the matched text.  Trusted: the
/// result is `regex_search(pattern, haystack)` (a function of the two
/// strings alone).
#[verifier::external_body]
pub fn regex_find(pattern: &str, haystack: &str) -> (r: Option<Option<String>>)
    ensures
        r.deep_view() == regex_search(pattern@, haystack@),
{
    match regex::Regex::new(pattern) {
        Ok(re) => Some(re.find(haystack).map(|m| m.as_str().to_string())),
        Err(_) => None,
    }
}

/// Whether `pattern` compiles and matches in `haystack`.
pub fn regex_matches(pattern: &str, haystack: &str) -> (b: bool)
    ensures
        b == found(pattern@, haystack@),
{
    match regex_find(pattern, haystack) {
        Some(Some(_)) => true,
        _ => false,
    }
}

/// The characters that `regex::escape` prefixes with a backslash
/// (`regex_syntax::is_meta_character`).
pub open spec fn is_meta(c: char) -> bool {
    c == '\\' || c == '.' || c == '+' || c == '*' || c == '?' || c == '(' || c == ')' || c == '|'
        || c == '[' || c == ']' || c == '{' || c == '}' || c == '^' || c == '$' || c == '#' || c
        == '&' || c == '-' || c == '~'
}

/// `s` with every meta character prefixed by a backslash.
pub open spec fn escaped(s: Seq<char>) -> Seq<char>
    decreases s.len(),
{
    if s.len() == 0 {
        s
    } else if is_meta(s.last()) {
        escaped(s.drop_last()) + seq!['\\', s.last()]
    } else {
        escaped(s.drop_last()).push(s.last())
    }
}

/// Calls `regex::escape`.  Trusted: the result is `s` with each regex meta
/// character (`\ . + * ? ( ) | [ ] { } ^ $ # & - ~`) preceded by `\`, as
/// `regex_syntax::escape_into` does.
#[verifier::external_body]
pub fn regex_escape(s: &str) -> (r: String)
    ensures
        r@ == escaped(s@),
{
    regex::escape(s)
}

} // verus!
