//! URL parsing and form encoding, done by the url crate.
use vstd::prelude::*;

verus! {

/// A parsed URL: its serialization and its host, if it has one.
#[derive(Debug, Clone)]
pub struct ParsedUrl {
    pub serialized: String,
    pub host: Option<String>,
}

/// What `url::Url::parse(s)` gives: `None` on a parse error, otherwise the
/// URL's serialization (`Url::as_str`) and host (`Url::host_str`).
pub uninterp spec fn url_parse(s: Seq<char>) -> Option<(Seq<char>, Option<Seq<char>>)>;

/// The UTF-8 encoding of a char.
pub open spec fn utf8_bytes(c: char) -> Seq<u8> {
    let v = c as int;
    if v < 0x80 {
        seq![v as u8]
    } else if v < 0x800 {
        seq![(0xC0 + v / 64) as u8, (0x80 + v % 64) as u8]
    } else if v < 0x10000 {
        seq![(0xE0 + v / 4096) as u8, (0x80 + (v / 64) % 64) as u8, (0x80 + v % 64) as u8]
    } else {
        seq![
            (0xF0 + v / 262144) as u8,
            (0x80 + (v / 4096) % 64) as u8,
            (0x80 + (v / 64) % 64) as u8,
            (0x80 + v % 64) as u8,
        ]
    }
}

/// An upper-case hexadecimal digit.
pub open spec fn hex_upper(n: int) -> char {
    if n < 10 {
        (48 + n) as char
    } else {
        (55 + n) as char
    }
}

/// `%XX` for a byte.
pub open spec fn percent_byte(b: u8) -> Seq<char> {
    seq!['%', hex_upper(b as int / 16), hex_upper(b as int % 16)]
}

/// The chars that form encoding keeps as they are.
pub open spec fn form_unchanged(c: char) -> bool {
    ||| c == '*' || c == '-' || c == '.' || c == '_'
    ||| '0' <= c <= '9'
    ||| 'A' <= c <= 'Z'
    ||| 'a' <= c <= 'z'
}

/// The percent-encoding of each UTF-8 byte of `bytes`.
pub open spec fn percent_bytes(bytes: Seq<u8>) -> Seq<char>
    decreases bytes.len(),
{
    if bytes.len() == 0 {
        seq![]
    } else {
        percent_bytes(bytes.drop_last()) + percent_byte(bytes.last())
    }
}

/// What form encoding writes for one char: itself when unchanged, `+` for
/// a space, otherwise `%XX` for each of its UTF-8 bytes.
pub open spec fn form_char(c: char) -> Seq<char> {
    if form_unchanged(c) {
        seq![c]
    } else if c == ' ' {
        seq!['+']
    } else {
        percent_bytes(utf8_bytes(c))
    }
}

/// `application/x-www-form-urlencoded` byte serialization of `s`
/// (`url::form_urlencoded::byte_serialize` of its UTF-8 bytes).
pub open spec fn form_encoded(s: Seq<char>) -> Seq<char>
    decreases s.len(),
{
    if s.len() == 0 {
        seq![]
    } else {
        form_encoded(s.drop_last()) + form_char(s.last())
    }
}

/// Calls `url::Url::parse`.  Trusted: the result is `url_parse(s)`.
#[verifier::external_body]
pub fn parse_url(s: &str) -> (r: Option<ParsedUrl>)
    ensures
        r is Some <==> url_parse(s@) is Some,
        r matches Some(u) ==> url_parse(s@)->0 == (u.serialized@, u.host.deep_view()),
{
    match url::Url::parse(s) {
        Ok(u) => Some(
            ParsedUrl {
                serialized: u.as_str().to_string(),
                host: u.host_str().map(|h| h.to_string()),
            },
        ),
        Err(_) => None,
    }
}

/// Calls `url::form_urlencoded::byte_serialize` on the bytes of `s`.
/// Trusted: the crate keeps `*-._` and ASCII letters and digits, writes `+`
/// for a space and `%XX` (upper-case hex) for every other byte, which is
/// `form_encoded(s)`.
#[verifier::external_body]
pub fn form_encode(s: &str) -> (r: String)
    ensures
        r@ == form_encoded(s@),
{
    url::form_urlencoded::byte_serialize(s.as_bytes()).collect()
}

} // verus!
