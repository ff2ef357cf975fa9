//! Headers for serving a generated file inline.
use crate::text::{chars_of, extend, str_eq, string_of, sub_vec, vec_eq};
use vstd::prelude::*;

verus! {

/// The content type for a file extension.
pub open spec fn content_type(ext: Option<Seq<char>>) -> Seq<char> {
    match ext {
        Some(e) => if e == "pdf"@ {
            "application/pdf"@
        } else if e == "html"@ {
            "text/html"@
        } else if e == "json"@ {
            "application/json"@
        } else {
            "application/octet-stream"@
        },
        None => "application/octet-stream"@,
    }
}

pub fn content_type_for(ext: Option<&str>) -> (r: &'static str)
    ensures
        r@ == content_type(
            match ext {
                Some(e) => Some(e@),
                None => None,
            },
        ),
{
    match ext {
        Some(e) => if str_eq(e, "pdf") {
            "application/pdf"
        } else if str_eq(e, "html") {
            "text/html"
        } else if str_eq(e, "json") {
            "application/json"
        } else {
            "application/octet-stream"
        },
        None => "application/octet-stream",
    }
}

/// `s` starts with `prefix`.
pub open spec fn has_prefix(s: Seq<char>, prefix: Seq<char>) -> bool {
    prefix.len() <= s.len() && s.take(prefix.len() as int) == prefix
}

fn starts_with(v: &Vec<char>, prefix: &str) -> (b: bool)
    ensures
        b == has_prefix(v@, prefix@),
{
    let p = chars_of(prefix);
    if p.len() > v.len() {
        return false;
    }
    let head = sub_vec(v, 0, p.len());
    assert(head@ =~= v@.take(p@.len() as int));
    vec_eq(&head, &p)
}

/// Only web addresses are handed to the system's URL opener.
pub fn is_web_url(url: &str) -> (b: bool)
    ensures
        b == (has_prefix(url@, "http://"@) || has_prefix(url@, "https://"@)),
{
    let v = chars_of(url);
    starts_with(&v, "http://") || starts_with(&v, "https://")
}

/// `inline; filename="{name}"`, with `file` for a file without a name.
pub fn inline_disposition(file_name: Option<&str>) -> (r: String)
    ensures
        r@ == "inline; filename=\""@ + match file_name {
            Some(n) => n@,
            None => "file"@,
        } + "\""@,
{
    let name = match file_name {
        Some(n) => n,
        None => "file",
    };
    let mut v = chars_of("inline; filename=\"");
    extend(&mut v, &chars_of(name));
    extend(&mut v, &chars_of("\""));
    string_of(&v)
}

} // verus!
