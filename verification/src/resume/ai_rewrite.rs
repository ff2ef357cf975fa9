//! Opt-in AI rewriting of resume bullets: the prompt sent to the model and
//! the checks on what comes back.  The HTTP exchange itself is made by
//! the application.
//!
//! Honesty constraints baked into the prompt:
//!   - Preserve every fact (metrics, dates, company names, tech, project names).
//!   - Never add experiences, skills, or accomplishments not in the original.
//!   - Only change wording / emphasis to align with the JD's terminology.
//!   - Keep bullet lengths similar.
//!
//! The bullet count is required to match the input exactly: a reply with a
//! different count is a failure, and the caller keeps the rule-based
//! bullets, never silently dropping content.
use crate::error::AppError;
use crate::int_text::{decimal, usize_text};
use crate::text::{
    chars_of, extend, find_char, first_index_of, joined, last_index_of, rfind_char, string_of,
    sub_vec,
};
use vstd::prelude::*;

verus! {

pub const ANTHROPIC_API: &'static str = "https://api.anthropic.com/v1/messages";

pub const ANTHROPIC_VERSION: &'static str = "2023-06-01";

/// How many chars of the JD the prompt quotes.
pub const JD_EXCERPT_CHARS: usize = 2000;

/// The prompt up to the JD keywords.
pub const PROMPT_RULES: &'static str = "You are tailoring resume bullets to a specific job description.\n\nSTRICT RULES:\n1. Preserve every fact: metrics, percentages, dates, company names, technologies, project names, team sizes \u{2014} exactly as written. Do not change numbers.\n2. Never add accomplishments, skills, technologies, or experiences that aren't in the original bullet.\n3. Only rewrite wording and emphasis to align with the JD's terminology.\n4. Keep each bullet within ~20% of its original length.\n5. Vary the opening verb across bullets; do not start two consecutive bullets with the same word.\n6. If a bullet has nothing relevant to the JD, return it unchanged.\n\nJD KEYWORDS TO EMPHASIZE (when honestly applicable): ";

pub const PROMPT_JD: &'static str = "\n\nJD EXCERPT:\n";

pub const PROMPT_BULLETS: &'static str = "\n\nORIGINAL BULLETS:\n";

pub const PROMPT_REPLY: &'static str = "\n\nRespond with ONLY a JSON array of ";

pub const PROMPT_END: &'static str = " rewritten bullets in the same order. No prose, no markdown, no code fences.";

/// The first `n` chars of `s` (all of it if shorter).
pub open spec fn prefix_chars(s: Seq<char>, n: int) -> Seq<char> {
    if s.len() <= n {
        s
    } else {
        s.take(n)
    }
}

/// Bullets numbered from 1, one per line: `1. first`, `2. second`, ...
pub open spec fn numbered(bullets: Seq<Seq<char>>) -> Seq<char> {
    joined(
        Seq::new(bullets.len(), |i: int| decimal(i + 1) + ". "@ + bullets[i]),
        "\n"@,
    )
}

/// The prompt for rewriting `bullets` towards a JD.
pub open spec fn prompt_text(bullets: Seq<Seq<char>>, jd_skills: Seq<Seq<char>>, jd_excerpt: Seq<char>) -> Seq<
    char,
> {
    PROMPT_RULES@ + joined(jd_skills, ", "@) + PROMPT_JD@ + prefix_chars(
        jd_excerpt,
        JD_EXCERPT_CHARS as int,
    ) + PROMPT_BULLETS@ + numbered(bullets) + PROMPT_REPLY@ + decimal(bullets.len() as int)
        + PROMPT_END@
}

/// `s.chars().take(n)`.
pub fn truncate(s: &str, n: usize) -> (r: String)
    ensures
        r@ == prefix_chars(s@, n as int),
{
    let v = chars_of(s);
    if v.len() <= n {
        string_of(&v)
    } else {
        string_of(&sub_vec(&v, 0, n))
    }
}

/// Append `parts.join(sep)` to `out`.
fn push_joined(out: &mut Vec<char>, parts: &[String], sep: &str)
    ensures
        final(out)@ == old(out)@ + joined(parts.deep_view(), sep@),
{
    let ghost start = out@;
    let ghost ps = parts.deep_view();
    let sepv = chars_of(sep);
    let mut i: usize = 0;
    while i < parts.len()
        invariant
            i <= parts.len(),
            ps == parts.deep_view(),
            sepv@ == sep@,
            out@ == start + joined(ps.take(i as int), sep@),
        decreases parts.len() - i,
    {
        assert(ps.take(i + 1).drop_last() =~= ps.take(i as int));
        assert(ps.take(i + 1).last() == parts[i as int]@);
        if i > 0 {
            extend(out, &sepv);
        } else {
            assert(ps.take(1) =~= seq![ps[0]]);
        }
        extend(out, &chars_of(parts[i].as_str()));
        i = i + 1;
    }
    assert(ps.take(i as int) =~= ps);
}

/// The prompt for rewriting `bullets` towards a JD with `jd_skills`,
/// quoting the first `JD_EXCERPT_CHARS` chars of `jd_excerpt`.
pub fn build_prompt(bullets: &[String], jd_skills: &[String], jd_excerpt: &str) -> (r: String)
    requires
        bullets@.len() < usize::MAX,
    ensures
        r@ == prompt_text(bullets.deep_view(), jd_skills.deep_view(), jd_excerpt@),
{
    let ghost bs = bullets.deep_view();
    let mut lines: Vec<String> = Vec::new();
    let mut i: usize = 0;
    while i < bullets.len()
        invariant
            i <= bullets.len(),
            bullets@.len() < usize::MAX,
            bs == bullets.deep_view(),
            lines.deep_view() == Seq::new(i as nat, |k: int| decimal(k + 1) + ". "@ + bs[k]),
        decreases bullets.len() - i,
    {
        let mut line = chars_of(usize_text(i + 1).as_str());
        extend(&mut line, &chars_of(". "));
        extend(&mut line, &chars_of(bullets[i].as_str()));
        assert(bs[i as int] == bullets[i as int]@);
        assert(line@ =~= decimal(i + 1) + ". "@ + bs[i as int]);
        let ghost before = lines.deep_view();
        lines.push(string_of(&line));
        assert(lines.deep_view() =~= before.push(decimal(i + 1) + ". "@ + bs[i as int]));
        assert(lines.deep_view() =~= Seq::new((i + 1) as nat, |k: int| decimal(k + 1) + ". "@ + bs[k]));
        i = i + 1;
    }
    let mut out = chars_of(PROMPT_RULES);
    push_joined(&mut out, jd_skills, ", ");
    extend(&mut out, &chars_of(PROMPT_JD));
    extend(&mut out, &chars_of(truncate(jd_excerpt, JD_EXCERPT_CHARS).as_str()));
    extend(&mut out, &chars_of(PROMPT_BULLETS));
    push_joined(&mut out, lines.as_slice(), "\n");
    extend(&mut out, &chars_of(PROMPT_REPLY));
    extend(&mut out, &chars_of(usize_text(bullets.len()).as_str()));
    extend(&mut out, &chars_of(PROMPT_END));
    string_of(&out)
}

/// What `serde_json::from_str::<Vec<String>>` gives for `s`: the strings of
/// a JSON array of strings, or the parse error's message.
pub uninterp spec fn json_string_array(s: Seq<char>) -> Result<Seq<Seq<char>>, Seq<char>>;

/// Calls `serde_json::from_str::<Vec<String>>`.  Trusted: the result (or
/// the error's `Display` text) is `json_string_array(s)`, a function of `s`
/// alone.
#[verifier::external_body]
fn parse_string_array(s: &str) -> (r: Result<Vec<String>, String>)
    ensures
        match r {
            Ok(v) => json_string_array(s@) == Ok::<Seq<Seq<char>>, Seq<char>>(v.deep_view()),
            Err(m) => json_string_array(s@) == Err::<Seq<Seq<char>>, Seq<char>>(m@),
        },
{
    match serde_json::from_str::<Vec<String>>(s) {
        Ok(v) => Ok(v),
        Err(e) => Err(e.to_string()),
    }
}

/// Where the array opened before position `i` closes: reading `s` from
/// `i` with `depth` brackets open, inside a JSON string or not, and right
/// after a backslash in one or not, the position of the `]` that brings
/// the depth back to zero (brackets inside strings do not count).
pub open spec fn close_from(s: Seq<char>, i: int, depth: int, in_str: bool, esc: bool) -> Option<int>
    decreases s.len() - i,
{
    if i < 0 || i >= s.len() {
        None
    } else {
        let c = s[i];
        if in_str {
            if esc {
                close_from(s, i + 1, depth, true, false)
            } else if c == '\\' {
                close_from(s, i + 1, depth, true, true)
            } else if c == '"' {
                close_from(s, i + 1, depth, false, false)
            } else {
                close_from(s, i + 1, depth, true, false)
            }
        } else if c == '"' {
            close_from(s, i + 1, depth, true, false)
        } else if c == '[' {
            close_from(s, i + 1, depth + 1, false, false)
        } else if c == ']' {
            if depth == 1 {
                Some(i)
            } else {
                close_from(s, i + 1, depth - 1, false, false)
            }
        } else {
            close_from(s, i + 1, depth, false, false)
        }
    }
}

/// The first JSON array of a reply, from its first `[` to the `]` that
/// closes it, or why there is none.
pub open spec fn array_slice(text: Seq<char>) -> Result<Seq<char>, Seq<char>> {
    match first_index_of(text, '[') {
        None => Err("AI response missing JSON array"@),
        Some(start) => match close_from(text, start, 0, false, false) {
            None => Err("AI response missing closing ]"@),
            Some(end) => Ok(text.subrange(start, end + 1)),
        },
    }
}

/// What `parse_json_array` answers for `text`: the strings of the JSON
/// array found in it, or the message of the error.
pub open spec fn parsed_array(text: Seq<char>) -> Result<Seq<Seq<char>>, Seq<char>> {
    match array_slice(text) {
        Err(m) => Err(m),
        Ok(slice) => match json_string_array(slice) {
            Ok(v) => Ok(v),
            Err(e) => Err(
                "AI JSON parse error: "@ + e + " \u{2014} slice: "@ + prefix_chars(slice, 200),
            ),
        },
    }
}

/// Extract the first JSON array from the model's text response.  Tolerates
/// stray prose around it as long as the array itself parses.
pub fn parse_json_array(text: &str) -> (r: Result<Vec<String>, AppError>)
    ensures
        match parsed_array(text@) {
            Ok(v) => r matches Ok(got) && got.deep_view() == v,
            Err(m) => r matches Err(e) && e matches AppError::Other(msg) && msg@ == m,
        },
{
    let slice = match json_array_slice(text) {
        Ok(s) => s,
        Err(e) => {
            return Err(e);
        },
    };
    match parse_string_array(slice.as_str()) {
        Ok(arr) => Ok(arr),
        Err(e) => Err(array_parse_error(e.as_str(), slice.as_str())),
    }
}

/// The first JSON array of a reply (from its first `[` to the `]` that
/// closes it), or the error that says why there is none.
pub fn json_array_slice(text: &str) -> (r: Result<String, AppError>)
    ensures
        match array_slice(text@) {
            Ok(sl) => r matches Ok(got) && got@ == sl,
            Err(m) => r matches Err(e) && e matches AppError::Other(msg) && msg@ == m,
        },
{
    let v = chars_of(text);
    let start = match find_char(&v, '[') {
        Some(s) => s,
        None => {
            return Err(AppError::Other(string_of(&chars_of("AI response missing JSON array"))));
        },
    };
    match closing_bracket(&v, start) {
        Some(end) => Ok(string_of(&sub_vec(&v, start, end + 1))),
        None => Err(AppError::Other(string_of(&chars_of("AI response missing closing ]")))),
    }
}

/// The position of the `]` that closes the array opened at `start`.
fn closing_bracket(v: &Vec<char>, start: usize) -> (r: Option<usize>)
    requires
        start < v.len(),
        v@[start as int] == '[',
    ensures
        r matches Some(e) ==> close_from(v@, start as int, 0, false, false) == Some(e as int)
            && start <= e < v.len(),
        r is None ==> close_from(v@, start as int, 0, false, false) is None,
{
    let mut depth: usize = 0;
    let mut in_str = false;
    let mut esc = false;
    let mut i: usize = start;
    while i < v.len()
        invariant
            start <= i <= v.len(),
            depth <= i,
            v@[start as int] == '[',
            i == start ==> depth == 0 && !in_str && !esc,
            i > start ==> depth >= 1,
            !in_str ==> !esc,
            close_from(v@, start as int, 0, false, false) == close_from(
                v@,
                i as int,
                depth as int,
                in_str,
                esc,
            ),
        decreases v.len() - i,
    {
        let c = v[i];
        if in_str {
            if esc {
                esc = false;
            } else if c == '\\' {
                esc = true;
            } else if c == '"' {
                in_str = false;
            }
        } else if c == '"' {
            in_str = true;
        } else if c == '[' {
            depth = depth + 1;
        } else if c == ']' {
            if depth == 1 {
                return Some(i);
            }
            depth = depth - 1;
        }
        i = i + 1;
    }
    None
}

/// The error for an array slice that is not a JSON array of strings:
/// the parser's message and the slice's first 200 chars.
pub fn array_parse_error(parse_error: &str, slice: &str) -> (e: AppError)
    ensures
        e matches AppError::Other(msg) && msg@ == "AI JSON parse error: "@ + parse_error@
            + " \u{2014} slice: "@ + prefix_chars(slice@, 200),
{
    let mut msg = chars_of("AI JSON parse error: ");
    extend(&mut msg, &chars_of(parse_error));
    extend(&mut msg, &chars_of(" \u{2014} slice: "));
    extend(&mut msg, &chars_of(truncate(slice, 200).as_str()));
    AppError::Other(string_of(&msg))
}

/// What a rewrite answers for a reply whose text block (if any) is
/// `text`, when `expected` bullets were sent.
pub open spec fn rewrite_outcome(expected: int, text: Option<Seq<char>>) -> Result<Seq<Seq<char>>, Seq<char>> {
    match text {
        None => Err("Anthropic response had no text content"@),
        Some(t) => match parsed_array(t) {
            Err(m) => Err(m),
            Ok(v) => if v.len() != expected {
                Err(
                    "AI returned "@ + decimal(v.len() as int) + " bullets but expected "@ + decimal(
                        expected,
                    ) + " \u{2014} keeping original"@,
                )
            } else {
                Ok(v)
            },
        },
    }
}

/// A rewrite is only ever accepted with exactly as many bullets as were
/// sent.
pub proof fn lemma_rewrite_keeps_count(expected: int, text: Option<Seq<char>>)
    ensures
        rewrite_outcome(expected, text) matches Ok(v) ==> v.len() == expected,
{
}

/// Check the model's reply: it must hold a JSON array of exactly
/// `expected` strings.
pub fn accept_rewrite(expected: usize, text: Option<&str>) -> (r: Result<Vec<String>, AppError>)
    ensures
        match rewrite_outcome(
            expected as int,
            match text {
                Some(t) => Some(t@),
                None => None,
            },
        ) {
            Ok(v) => r matches Ok(got) && got.deep_view() == v,
            Err(m) => r matches Err(e) && e matches AppError::Other(msg) && msg@ == m,
        },
{
    let t = match text {
        Some(t) => t,
        None => {
            return Err(
                AppError::Other(string_of(&chars_of("Anthropic response had no text content"))),
            );
        },
    };
    let out = match parse_json_array(t) {
        Ok(out) => out,
        Err(e) => {
            return Err(e);
        },
    };
    if out.len() != expected {
        assert(out.deep_view().len() == out@.len());
        let mut msg = chars_of("AI returned ");
        extend(&mut msg, &chars_of(usize_text(out.len()).as_str()));
        extend(&mut msg, &chars_of(" bullets but expected "));
        extend(&mut msg, &chars_of(usize_text(expected).as_str()));
        extend(&mut msg, &chars_of(" \u{2014} keeping original"));
        return Err(AppError::Other(string_of(&msg)));
    }
    Ok(out)
}

/// The error for a reply with a failing HTTP status: the status as shown
/// (e.g. `401 Unauthorized`) and the first 240 chars of the body.
pub fn api_status_error(status: &str, body: &str) -> (e: AppError)
    ensures
        e matches AppError::Other(m) && m@ == "Anthropic API returned "@ + status@ + ": "@
            + prefix_chars(body@, 240),
{
    let mut msg = chars_of("Anthropic API returned ");
    extend(&mut msg, &chars_of(status));
    extend(&mut msg, &chars_of(": "));
    extend(&mut msg, &chars_of(truncate(body, 240).as_str()));
    AppError::Other(string_of(&msg))
}

} // verus!
