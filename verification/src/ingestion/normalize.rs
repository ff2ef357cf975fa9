//! Turn raw posting text into the shape the database expects: strip HTML,
//! parse dates, detect state / work mode / sponsorship, and collect skills.
use crate::dates::{
    as_date, days_from_ce, day_number, format_ymd, is_valid_date, parse_rfc2822, parse_rfc3339,
    parse_ymd, rfc2822_local_date, rfc3339_local_date, valid_date, ymd_parse, ymd_text,
    CalendarDate,
};
use crate::domain::job::{RecencyBucket, SponsorshipConfidence, WorkMode};
use crate::files::paths::remove_ctrl;
use crate::html::{fragment_text_nodes, text_nodes};
use crate::ranking::{bucket_rank, recency_pct, within_window};
use crate::pattern::{escaped, found, regex_escape, regex_find, regex_matches, regex_search};
use crate::sorted::{insert_sorted, strictly_sorted};
use crate::text::{
    ascii_upper, ascii_upper_vec, byte_len, byte_len_at_most, lemma_byte_len_prefix_le, lemma_byte_len_prepend, lemma_byte_len_push, char_is_alnum, char_is_control,
    char_width, char_width_exec, chars_of, contains_str, contains_sub, drop_trail, extend,
    is_alnum, is_ctrl, last_index_of, lemma_last_index_of, line_ranges, lines_of, owned, ranges_in, ranges_view, rfind_char,
    string_of, sub_vec, trim, trim_bounds, trim_end_vec, trim_set, trim_vec, vec_contains, lemma_trim_range,
    vec_eq, TrimSet, drop_lead, is_ws, is_upper_ascii, is_lower_ascii, ascii_lower, ascii_lower_vec, contains_word_seq, vec_contains_word,
};
use crate::unicode::{is_combining_mark, is_mark, lowercase_form, nfkd, nfkd_form, to_lowercase};
use vstd::prelude::*;

verus! {

// ---------------------------------------------------------------------------
// Patterns
// ---------------------------------------------------------------------------

pub const RE_REMOTE: &'static str = r"(?i)\b(remote|fully remote|work from home|wfh|distributed)\b";

pub const RE_HYBRID: &'static str = r"(?i)\bhybrid\b";

pub const RE_ONSITE: &'static str = r"(?i)\b(on[-\s]?site|in[-\s]?office|in person)\b";

pub const RE_NO_SPONSOR: &'static str = r"(?i)(no\s+sponsorship|cannot\s+sponsor|not\s+able\s+to\s+sponsor|unrestricted\s+(work\s+)?authorization|must\s+be\s+(a\s+)?(us|u\.s\.|united\s+states)\s+(citizen|national)|us\s+citizen(ship)?\s+required|green\s+card\s+required|security\s+clearance|active\s+clearance)";

pub const RE_EXPLICIT_SPONSOR: &'static str = r"(?i)(will\s+sponsor|sponsors?\s+(h[-\s]?1b|work\s+visas?)|visa\s+sponsorship\s+(available|provided|offered))";

pub const RE_LIKELY_SPONSOR: &'static str = r"(?i)(open\s+to\s+sponsorship|sponsorship\s+considered|may\s+sponsor)";

pub const RE_UNLIKELY_SPONSOR: &'static str = r"(?i)(prefer\s+us\s+authorization|sponsorship\s+not\s+guaranteed|limited\s+sponsorship)";

/// Opening and closing of a case-insensitive whole-word pattern: the term
/// is preceded by the start of the text or a char that is no ASCII letter
/// or digit, and followed by the end of the text or such a char (so that
/// terms ending in a symbol, like "C++" or "C#", match too).
pub const WORD_START: &'static str = r"(?i)(?:^|[^0-9A-Za-z])";

pub const WORD_END: &'static str = r"(?:[^0-9A-Za-z]|$)";

/// How many bytes of the JD the work-mode detector looks at.
pub const JD_SCAN_BYTES: usize = 2000;

// ---------------------------------------------------------------------------
// HTML -> text
// ---------------------------------------------------------------------------

/// The text nodes, each followed by a newline.
pub open spec fn joined_nodes(nodes: Seq<Seq<char>>) -> Seq<char>
    decreases nodes.len(),
{
    if nodes.len() == 0 {
        seq![]
    } else {
        joined_nodes(nodes.drop_last()) + nodes.last().push('\n')
    }
}

/// Lines each followed by a newline, with runs of empty lines reduced to a
/// single newline.
pub open spec fn collapse_blank_lines(ls: Seq<Seq<char>>) -> Seq<char>
    decreases ls.len(),
{
    if ls.len() == 0 {
        seq![]
    } else {
        let r = collapse_blank_lines(ls.drop_last());
        let l = ls.last();
        if l.len() == 0 {
            if ls.len() >= 2 && ls[ls.len() - 2].len() == 0 {
                r
            } else {
                r.push('\n')
            }
        } else {
            r + l.push('\n')
        }
    }
}

pub open spec fn trimmed_lines(s: Seq<char>) -> Seq<Seq<char>> {
    lines_of(s).map_values(|l: Seq<char>| trim(l))
}

/// Text nodes read as text: one per line, every line trimmed, blank runs
/// collapsed, the whole trimmed.
pub open spec fn nodes_text(nodes: Seq<Seq<char>>) -> Seq<char> {
    trim(collapse_blank_lines(trimmed_lines(joined_nodes(nodes))))
}

/// The readable text of an HTML fragment: the text of its text nodes.
pub open spec fn html_text(html: Seq<char>) -> Seq<char> {
    nodes_text(fragment_text_nodes(html))
}

pub fn html_to_text(html: &str) -> (r: String)
    ensures
        r@ == html_text(html@),
{
    let nodes = text_nodes(html);
    text_of_nodes(&nodes)
}

/// The text of a fragment's text nodes, once the HTML has been parsed.
pub fn text_of_nodes(nodes: &Vec<String>) -> (r: String)
    ensures
        r@ == nodes_text(nodes.deep_view()),
{
    let ghost nv = nodes.deep_view();
    let mut buf: Vec<char> = Vec::new();
    let mut k: usize = 0;
    while k < nodes.len()
        invariant
            k <= nodes.len(),
            nv == nodes.deep_view(),
            buf@ == joined_nodes(nv.take(k as int)),
        decreases nodes.len() - k,
    {
        assert(nv.take(k + 1).drop_last() =~= nv.take(k as int));
        let piece = chars_of(nodes[k].as_str());
        extend(&mut buf, &piece);
        buf.push('\n');
        k = k + 1;
    }
    assert(nv.take(k as int) =~= nv);
    let ranges = line_ranges(&buf);
    let ghost ls = trimmed_lines(buf@);
    let mut out: Vec<char> = Vec::new();
    let mut blank = false;
    let mut j: usize = 0;
    while j < ranges.len()
        invariant
            j <= ranges.len(),
            ls == trimmed_lines(buf@),
            ranges_view(buf@, ranges@) == lines_of(buf@),
            ranges_in(ranges@, buf.len() as int),
            out@ == collapse_blank_lines(ls.take(j as int)),
            blank == (j > 0 && ls[j - 1].len() == 0),
        decreases ranges.len() - j,
    {
        let (lo, hi) = ranges[j];
        assert(buf@.subrange(lo as int, hi as int) == lines_of(buf@)[j as int]);
        let (a, b) = trim_bounds(&buf, lo, hi, TrimSet::Whitespace, true, true);
        assert(buf@.subrange(a as int, b as int) == ls[j as int]);
        assert(ls.take(j + 1).drop_last() =~= ls.take(j as int));
        if a == b {
            if !blank {
                out.push('\n');
            }
            blank = true;
        } else {
            let line = sub_vec(&buf, a, b);
            extend(&mut out, &line);
            out.push('\n');
            blank = false;
        }
        j = j + 1;
    }
    assert(ls.take(j as int) =~= ls);
    let t = trim_vec(&out, TrimSet::Whitespace);
    string_of(&t)
}

// ---------------------------------------------------------------------------
// Dates
// ---------------------------------------------------------------------------

/// The `%Y-%m-%d` text of the first of RFC 3339, RFC 2822 and `%Y-%m-%d`
/// that parses `s`.
pub open spec fn iso_date(s: Seq<char>) -> Option<Seq<char>> {
    if rfc3339_local_date(s) is Some {
        let d = rfc3339_local_date(s)->0;
        Some(ymd_text(d.0, d.1, d.2))
    } else if rfc2822_local_date(s) is Some {
        let d = rfc2822_local_date(s)->0;
        Some(ymd_text(d.0, d.1, d.2))
    } else if ymd_parse(s) is Some {
        let d = ymd_parse(s)->0;
        Some(ymd_text(d.0, d.1, d.2))
    } else {
        None
    }
}

/// Accept a variety of ISO-ish timestamps and emit `YYYY-MM-DD`.
pub fn iso_to_date(s: &str) -> (r: Option<String>)
    ensures
        r.deep_view() == iso_date(s@),
{
    if let Some(d) = parse_rfc3339(s) {
        return Some(format_ymd(d));
    }
    if let Some(d) = parse_rfc2822(s) {
        return Some(format_ymd(d));
    }
    if let Some(d) = parse_ymd(s) {
        return Some(format_ymd(d));
    }
    None
}

/// The bucket of a posting that is `days` days old.
pub open spec fn bucket_of_days(days: int) -> RecencyBucket {
    if days <= 0 {
        RecencyBucket::Today
    } else if days == 1 {
        RecencyBucket::Yesterday
    } else if days <= 7 {
        RecencyBucket::Week
    } else if days <= 14 {
        RecencyBucket::TwoWeeks
    } else if days <= 28 {
        RecencyBucket::Month
    } else {
        RecencyBucket::Older
    }
}

/// The recency bucket of a `YYYY-MM-DD` posting date, seen from `today`.
pub open spec fn recency_of(posted: Option<Seq<char>>, today: CalendarDate) -> Option<
    RecencyBucket,
> {
    match posted {
        None => None,
        Some(p) => if ymd_parse(p) is Some && valid_date(today) {
            let d = ymd_parse(p)->0;
            Some(
                bucket_of_days(
                    days_from_ce(today.year, today.month, today.day) - days_from_ce(d.0, d.1, d.2),
                ),
            )
        } else {
            None
        },
    }
}

/// `None` when there is no posting date, it does not parse, or `today` is
/// not a real date; otherwise the bucket of the posting's age in days.
pub fn recency_bucket(posted: Option<&str>, today: CalendarDate) -> (r: Option<RecencyBucket>)
    ensures
        r == recency_of(
            match posted {
                Some(p) => Some(p@),
                None => None,
            },
            today,
        ),
{
    let p = match posted {
        Some(p) => p,
        None => {
            return None;
        },
    };
    match parse_ymd(p) {
        Some(d) => recency_between(d, today),
        None => None,
    }
}

/// The recency bucket of a posting dated `posted`, seen from `today`:
/// `None` when `today` is not a real date.
pub fn recency_between(posted: CalendarDate, today: CalendarDate) -> (r: Option<RecencyBucket>)
    requires
        valid_date(posted),
    ensures
        r == (if valid_date(today) {
            Some(
                bucket_of_days(
                    days_from_ce(today.year, today.month, today.day) - days_from_ce(
                        posted.year,
                        posted.month,
                        posted.day,
                    ),
                ),
            )
        } else {
            None
        }),
{
    if !is_valid_date(today) {
        return None;
    }
    let days: i64 = day_number(today) as i64 - day_number(posted) as i64;
    if days <= 0 {
        Some(RecencyBucket::Today)
    } else if days == 1 {
        Some(RecencyBucket::Yesterday)
    } else if days <= 7 {
        Some(RecencyBucket::Week)
    } else if days <= 14 {
        Some(RecencyBucket::TwoWeeks)
    } else if days <= 28 {
        Some(RecencyBucket::Month)
    } else {
        Some(RecencyBucket::Older)
    }
}

/// An older posting never lands in a fresher bucket, nor earns more
/// recency points.
pub proof fn lemma_older_never_fresher(d1: int, d2: int)
    requires
        d1 <= d2,
    ensures
        bucket_rank(bucket_of_days(d1)) <= bucket_rank(bucket_of_days(d2)),
        recency_pct(Some(bucket_of_days(d2))) <= recency_pct(Some(bucket_of_days(d1))),
{
}

/// A recency window admits a posting only if the posting is no older than
/// the window's days (ages beyond `u32::MAX` days, which no two
/// representable dates are apart, fall in `Older`, which the widest window
/// admits).
pub proof fn lemma_window_bounds_age(days: int, max_days: u32)
    requires
        0 <= days <= u32::MAX,
        within_window(Some(bucket_of_days(days)), max_days),
    ensures
        days <= max_days,
{
}

// ---------------------------------------------------------------------------
// Normalized names (companies, role titles)
// ---------------------------------------------------------------------------

/// ASCII letters and digits kept, every other run of chars becomes one `-`
/// (none before the first kept char).
pub open spec fn dash_join(s: Seq<char>) -> Seq<char>
    decreases s.len(),
{
    if s.len() == 0 {
        s
    } else {
        let r = dash_join(s.drop_last());
        let c = s.last();
        if is_alnum(c) {
            r.push(c)
        } else if r.len() > 0 && r.last() != '-' {
            r.push('-')
        } else {
            r
        }
    }
}

/// `s` without control characters and combining marks (so that a
/// decomposed accented letter keeps only its base letter).
pub open spec fn strip_marks(s: Seq<char>) -> Seq<char>
    decreases s.len(),
{
    if s.len() == 0 {
        s
    } else if is_ctrl(s.last()) || is_mark(s.last()) {
        strip_marks(s.drop_last())
    } else {
        strip_marks(s.drop_last()).push(s.last())
    }
}

/// The normalized key of a company name or role title: decomposed, accents
/// and control characters dropped, lower-cased, every run of other
/// non-alphanumeric chars made one `-`, dashes trimmed from both ends.
pub open spec fn normalized(name: Seq<char>) -> Seq<char> {
    dash_keyed(lowercase_form(strip_marks(nfkd_form(name))))
}

/// Lower-cased text made a key: every run of non-alphanumeric chars one
/// `-`, dashes trimmed from both ends.
pub open spec fn dash_keyed(lower: Seq<char>) -> Seq<char> {
    trim_set(dash_join(lower), TrimSet::Dash)
}

proof fn lemma_dash_join_shape(s: Seq<char>)
    ensures
        forall|k: int| 0 <= k < dash_join(s).len() ==> is_alnum(#[trigger] dash_join(s)[k]) || dash_join(s)[k] == '-',
        forall|k: int| 0 <= k < dash_join(s).len() - 1 && #[trigger] dash_join(s)[k] == '-' ==> dash_join(s)[k + 1] != '-',
        dash_join(s).len() > 0 ==> dash_join(s)[0] != '-',
    decreases s.len(),
{
    if s.len() > 0 {
        let p = s.drop_last();
        lemma_dash_join_shape(p);
        let r = dash_join(p);
        let d = dash_join(s);
        assert forall|k: int| 0 <= k < d.len() implies is_alnum(#[trigger] d[k]) || d[k] == '-' by {
            if k < r.len() {
                assert(d[k] == r[k]);
            }
        }
        assert forall|k: int| 0 <= k < d.len() - 1 && #[trigger] d[k] == '-' implies d[k + 1] != '-' by {
            if k + 1 < r.len() {
                assert(d[k] == r[k]);
                assert(d[k + 1] == r[k + 1]);
            } else {
                assert(d[k] == r[k]);
            }
        }
        if d.len() > 0 && r.len() > 0 {
            assert(d[0] == r[0]);
        }
    }
}

/// A normalized name is a key of ASCII letters, digits and single dashes:
/// it neither starts nor ends with a dash and never holds two in a row.
pub proof fn lemma_normalized_shape(name: Seq<char>)
    ensures
        forall|k: int| 0 <= k < normalized(name).len() ==> is_alnum(#[trigger] normalized(name)[k]) || normalized(name)[k] == '-',
        forall|k: int| 0 <= k < normalized(name).len() - 1 && #[trigger] normalized(name)[k] == '-' ==> normalized(name)[k + 1] != '-',
        normalized(name).len() > 0 ==> normalized(name)[0] != '-' && normalized(name).last() != '-',
{
    let d = dash_join(lowercase_form(strip_marks(nfkd_form(name))));
    lemma_dash_join_shape(lowercase_form(strip_marks(nfkd_form(name))));
    let (a, b) = lemma_trim_range(d, TrimSet::Dash);
    let t = normalized(name);
    assert(t == d.subrange(a, b));
    assert forall|k: int| 0 <= k < t.len() implies is_alnum(#[trigger] t[k]) || t[k] == '-' by {
        assert(t[k] == d[a + k]);
    }
    assert forall|k: int| 0 <= k < t.len() - 1 && #[trigger] t[k] == '-' implies t[k + 1] != '-' by {
        assert(t[k] == d[a + k]);
        assert(t[k + 1] == d[a + k + 1]);
    }
    if t.len() > 0 {
        assert(t[0] == d[a]);
        assert(t.last() == d[b - 1]);
    }
}

pub fn normalize_name(name: &str) -> (r: String)
    ensures
        r@ == normalized(name@),
{
    let decomposed = chars_of(&nfkd(name));
    let mut kept: Vec<char> = Vec::new();
    let mut i: usize = 0;
    while i < decomposed.len()
        invariant
            i <= decomposed.len(),
            kept@ == strip_marks(decomposed@.take(i as int)),
        decreases decomposed.len() - i,
    {
        assert(decomposed@.take(i + 1).drop_last() =~= decomposed@.take(i as int));
        if !char_is_control(decomposed[i]) && !is_combining_mark(decomposed[i]) {
            kept.push(decomposed[i]);
        }
        i = i + 1;
    }
    assert(decomposed@.take(i as int) =~= decomposed@);
    let lower = to_lowercase(&string_of(&kept));
    dash_key(&lower)
}

/// The key of lower-cased text (what `normalize_name` does after case
/// folding).
pub fn dash_key(lower: &str) -> (r: String)
    ensures
        r@ == dash_keyed(lower@),
{
    let lower = chars_of(lower);
    let mut out: Vec<char> = Vec::new();
    let mut prev_dash = false;
    let mut k: usize = 0;
    while k < lower.len()
        invariant
            k <= lower.len(),
            out@ == dash_join(lower@.take(k as int)),
            prev_dash == (out@.len() > 0 && out@.last() == '-'),
        decreases lower.len() - k,
    {
        assert(lower@.take(k + 1).drop_last() =~= lower@.take(k as int));
        let c = lower[k];
        if char_is_alnum(c) {
            out.push(c);
            prev_dash = false;
        } else if !prev_dash && out.len() > 0 {
            out.push('-');
            prev_dash = true;
        }
        k = k + 1;
    }
    assert(lower@.take(k as int) =~= lower@);
    let t = trim_vec(&out, TrimSet::Dash);
    string_of(&t)
}

// ---------------------------------------------------------------------------
// Work mode detection
// ---------------------------------------------------------------------------

/// The longest prefix of `s` whose UTF-8 encoding fits in `n` bytes.
pub open spec fn prefix_within(s: Seq<char>, n: int) -> Seq<char>
    decreases s.len(),
{
    if s.len() == 0 || char_width(s[0]) > n {
        seq![]
    } else {
        seq![s[0]] + prefix_within(s.drop_first(), n - char_width(s[0]))
    }
}

/// The longest prefix within `n` bytes is `s.take(k)` for the `k` whose
/// prefix fits and whose next prefix (if any) does not.
proof fn lemma_prefix_within_take(s: Seq<char>, n: int, k: int)
    requires
        0 <= k <= s.len(),
        byte_len(s.take(k)) <= n,
        k < s.len() ==> byte_len(s.take(k + 1)) > n,
    ensures
        prefix_within(s, n) == s.take(k),
    decreases s.len(),
{
    if s.len() > 0 {
        let t = s.drop_first();
        lemma_byte_len_prepend(s[0], t.take(0));
        assert(s.take(1) =~= seq![s[0]] + t.take(0));
        if k == 0 {
            assert(s.take(0) =~= seq![]);
        } else {
            assert(s.take(k) =~= seq![s[0]] + t.take(k - 1));
            lemma_byte_len_prepend(s[0], t.take(k - 1));
            if k < s.len() {
                assert(s.take(k + 1) =~= seq![s[0]] + t.take(k));
                lemma_byte_len_prepend(s[0], t.take(k));
            }
            lemma_prefix_within_take(t, n - char_width(s[0]), k - 1);
        }
    }
}

/// Where the cut after `n` bytes is clean, the longest prefix within `n`
/// bytes is exactly the first `min(byte_len(s), n)` bytes of `s`.
pub proof fn lemma_clean_cut_is_slice(s: Seq<char>, n: int)
    requires
        0 <= n,
        cut_ok(s, n),
    ensures
        prefix_within(s, n) == s.take(prefix_within(s, n).len() as int),
        prefix_within(s, n).len() <= s.len(),
        byte_len(prefix_within(s, n)) == if byte_len(s) < n {
            byte_len(s) as int
        } else {
            n
        },
{
    let m = if byte_len(s) < n {
        byte_len(s) as int
    } else {
        n
    };
    let k = choose|k: int| 0 <= k <= s.len() && byte_len(#[trigger] s.take(k)) == m;
    if k < s.len() {
        lemma_prefix_bytes_strict(s, k, k + 1);
        lemma_byte_len_prefix_le(s, k + 1);
    }
    lemma_prefix_within_take(s, n, k);
    assert(s.take(k).len() == k);
    assert(s.take(k) =~= s.take(k).take(k));
}

/// Byte offset `n` of `s` falls between two chars.
pub open spec fn byte_boundary(s: Seq<char>, n: int) -> bool {
    exists|k: int| 0 <= k <= s.len() && byte_len(#[trigger] s.take(k)) == n
}

/// Cutting `t` after its first `n` bytes (or keeping all of a shorter `t`)
/// falls between two chars.
pub open spec fn cut_ok(t: Seq<char>, n: int) -> bool {
    byte_boundary(
        t,
        if byte_len(t) < n {
            byte_len(t) as int
        } else {
            n
        },
    )
}

/// The JD, if any, can be cut after its first `JD_SCAN_BYTES` bytes (or is
/// shorter than that).
pub open spec fn jd_scan_cut_ok(jd: Option<Seq<char>>) -> bool {
    jd matches Some(t) ==> cut_ok(t, JD_SCAN_BYTES as int)
}

/// What the work-mode patterns are matched against.
pub open spec fn work_mode_haystack(
    title: Seq<char>,
    location: Option<Seq<char>>,
    jd: Option<Seq<char>>,
) -> Seq<char> {
    title + " | "@ + (match location {
        Some(l) => l,
        None => seq![],
    }) + " | "@ + (match jd {
        Some(t) => prefix_within(t, JD_SCAN_BYTES as int),
        None => seq![],
    })
}

pub open spec fn work_mode_of(hay: Seq<char>) -> WorkMode {
    if found(RE_REMOTE@, hay) {
        WorkMode::Remote
    } else if found(RE_HYBRID@, hay) {
        WorkMode::Hybrid
    } else if found(RE_ONSITE@, hay) {
        WorkMode::Onsite
    } else {
        WorkMode::Unknown
    }
}

pub fn prefix_bytes(v: &Vec<char>, n: usize) -> (r: Vec<char>)
    ensures
        r@ == prefix_within(v@, n as int),
{
    let mut budget = n;
    let mut i: usize = 0;
    assert(v@.skip(0) =~= v@);
    while i < v.len() && char_width_exec(v[i]) <= budget
        invariant
            i <= v.len(),
            budget <= n,
            prefix_within(v@, n as int) == v@.take(i as int) + prefix_within(
                v@.skip(i as int),
                budget as int,
            ),
        decreases v.len() - i,
    {
        let w = char_width_exec(v[i]);
        assert(v@.skip(i as int)[0] == v@[i as int]);
        assert(v@.skip(i as int).drop_first() =~= v@.skip(i + 1));
        assert(v@.take(i as int) + (seq![v@[i as int]] + prefix_within(
            v@.skip(i + 1),
            budget - w,
        )) =~= v@.take(i + 1) + prefix_within(v@.skip(i + 1), budget - w));
        budget = budget - w;
        i = i + 1;
    }
    if i < v.len() {
        assert(v@.skip(i as int)[0] == v@[i as int]);
    }
    assert(v@.take(i as int) + prefix_within(v@.skip(i as int), budget as int) =~= v@.take(
        i as int,
    ));
    sub_vec(v, 0, i)
}

/// Work-mode signals rank by precedence: a remote mention decides; a
/// hybrid mention decides unless remote is mentioned, even when on-site
/// wording also occurs; on-site decides only when neither of the others is
/// mentioned; with none of them the mode is unknown.
pub proof fn lemma_work_mode_precedence(hay: Seq<char>)
    ensures
        found(RE_REMOTE@, hay) ==> work_mode_of(hay) == WorkMode::Remote,
        !found(RE_REMOTE@, hay) && found(RE_HYBRID@, hay) ==> work_mode_of(hay) == WorkMode::Hybrid,
        !found(RE_REMOTE@, hay) && !found(RE_HYBRID@, hay) && found(RE_ONSITE@, hay)
            ==> work_mode_of(hay) == WorkMode::Onsite,
        !found(RE_REMOTE@, hay) && !found(RE_HYBRID@, hay) && !found(RE_ONSITE@, hay)
            ==> work_mode_of(hay) == WorkMode::Unknown,
        work_mode_of(hay) == WorkMode::Onsite ==> !found(RE_HYBRID@, hay) && !found(
            RE_REMOTE@,
            hay,
        ),
{
}

pub fn detect_work_mode(title: &str, location: Option<&str>, jd: Option<&str>) -> (r: WorkMode)
    requires
        jd_scan_cut_ok(
            match jd {
                Some(t) => Some(t@),
                None => None,
            },
        ),
    ensures
        r == work_mode_of(
            work_mode_haystack(
                title@,
                match location {
                    Some(l) => Some(l@),
                    None => None,
                },
                match jd {
                    Some(t) => Some(t@),
                    None => None,
                },
            ),
        ),
        ({
            let hay = work_mode_haystack(
                title@,
                match location {
                    Some(l) => Some(l@),
                    None => None,
                },
                match jd {
                    Some(t) => Some(t@),
                    None => None,
                },
            );
            &&& found(RE_REMOTE@, hay) ==> r == WorkMode::Remote
            &&& !found(RE_REMOTE@, hay) && found(RE_HYBRID@, hay) ==> r == WorkMode::Hybrid
            &&& r == WorkMode::Onsite ==> found(RE_ONSITE@, hay) && !found(RE_HYBRID@, hay)
                && !found(RE_REMOTE@, hay)
        }),
{
    let h = work_mode_text(title, location, jd);
    if regex_matches(RE_REMOTE, h.as_str()) {
        WorkMode::Remote
    } else if regex_matches(RE_HYBRID, h.as_str()) {
        WorkMode::Hybrid
    } else if regex_matches(RE_ONSITE, h.as_str()) {
        WorkMode::Onsite
    } else {
        WorkMode::Unknown
    }
}

/// The text the work-mode patterns are matched against: title, location
/// and the longest prefix of the JD within `JD_SCAN_BYTES` bytes, joined
/// by ` | `.
pub fn work_mode_text(title: &str, location: Option<&str>, jd: Option<&str>) -> (r: String)
    ensures
        r@ == work_mode_haystack(
            title@,
            match location {
                Some(l) => Some(l@),
                None => None,
            },
            match jd {
                Some(t) => Some(t@),
                None => None,
            },
        ),
{
    let mut hay = chars_of(title);
    extend(&mut hay, &chars_of(" | "));
    if let Some(l) = location {
        extend(&mut hay, &chars_of(l));
    }
    extend(&mut hay, &chars_of(" | "));
    if let Some(t) = jd {
        extend(&mut hay, &prefix_bytes(&chars_of(t), JD_SCAN_BYTES));
    }
    let ghost expected = work_mode_haystack(
        title@,
        match location {
            Some(l) => Some(l@),
            None => None,
        },
        match jd {
            Some(t) => Some(t@),
            None => None,
        },
    );
    assert(hay@ =~= expected);
    string_of(&hay)
}

/// Prefix byte lengths grow strictly with the prefix.
pub proof fn lemma_prefix_bytes_strict(s: Seq<char>, j: int, k: int)
    requires
        0 <= j < k <= s.len(),
    ensures
        byte_len(s.take(j)) < byte_len(s.take(k)),
{
    lemma_byte_len_push(s.take(j), s[j]);
    assert(s.take(j).push(s[j]) =~= s.take(j + 1));
    lemma_byte_len_prefix_le(s.take(k), j + 1);
    assert(s.take(k).take(j + 1) =~= s.take(j + 1));
}

/// Whether `s[..min(len, n)]` (in bytes) ends between two chars.
pub fn cut_is_clean(s: &str, n: usize) -> (b: bool)
    requires
        n <= 0x1000_0000,
    ensures
        b == cut_ok(s@, n as int),
{
    let t = chars_of(s);
    let mut acc: usize = 0;
    let mut i: usize = 0;
    while i < t.len() && acc < n
        invariant
            i <= t.len(),
            n <= 0x1000_0000,
            acc == byte_len(t@.take(i as int)),
            acc < n + 4,
            i > 0 ==> byte_len(t@.take(i - 1)) < n,
        decreases t.len() - i,
    {
        proof {
            lemma_byte_len_push(t@.take(i as int), t@[i as int]);
            assert(t@.take(i as int).push(t@[i as int]) =~= t@.take(i + 1));
        }
        acc = acc + char_width_exec(t[i]);
        i = i + 1;
    }
    proof {
        lemma_byte_len_prefix_le(t@, i as int);
    }
    if acc == n {
        assert(byte_len(t@.take(i as int)) == n);
        true
    } else if acc < n {
        assert(t@.take(i as int) =~= t@);
        assert(byte_len(t@.take(t@.len() as int)) == byte_len(t@));
        true
    } else {
        assert forall|k: int| 0 <= k <= t@.len() implies byte_len(#[trigger] t@.take(k)) != n by {
            if k < i {
                if k < i - 1 {
                    lemma_prefix_bytes_strict(t@, k, i - 1);
                }
            } else if k > i {
                lemma_prefix_bytes_strict(t@, i as int, k);
            }
        }
        false
    }
}

/// Whether `detect_work_mode` may look at `jd`: its first `JD_SCAN_BYTES`
/// bytes end between two chars (always so for a shorter JD).
pub fn jd_cut_is_clean(jd: Option<&str>) -> (b: bool)
    ensures
        b == jd_scan_cut_ok(
            match jd {
                Some(t) => Some(t@),
                None => None,
            },
        ),
{
    match jd {
        Some(t) => cut_is_clean(t, JD_SCAN_BYTES),
        None => true,
    }
}

// ---------------------------------------------------------------------------
// US state detection
// ---------------------------------------------------------------------------

pub const US_STATE_CODES: [&'static str; 52] = [
    "AL", "AK", "AZ", "AR", "CA", "CO", "CT", "DE", "DC", "FL", "GA", "HI", "ID", "IL", "IN",
    "IA", "KS", "KY", "LA", "ME", "MD", "MA", "MI", "MN", "MS", "MO", "MT", "NE", "NV", "NH",
    "NJ", "NM", "NY", "NC", "ND", "OH", "OK", "OR", "PA", "RI", "SC", "SD", "TN", "TX", "UT",
    "VT", "VA", "WA", "WV", "WI", "WY", "PR",
];

pub const US_STATE_NAMES: [(&'static str, &'static str); 52] = [
    ("alabama", "AL"),
    ("alaska", "AK"),
    ("arizona", "AZ"),
    ("arkansas", "AR"),
    ("california", "CA"),
    ("colorado", "CO"),
    ("connecticut", "CT"),
    ("delaware", "DE"),
    ("district of columbia", "DC"),
    ("florida", "FL"),
    ("georgia", "GA"),
    ("hawaii", "HI"),
    ("idaho", "ID"),
    ("illinois", "IL"),
    ("indiana", "IN"),
    ("iowa", "IA"),
    ("kansas", "KS"),
    ("kentucky", "KY"),
    ("louisiana", "LA"),
    ("maine", "ME"),
    ("maryland", "MD"),
    ("massachusetts", "MA"),
    ("michigan", "MI"),
    ("minnesota", "MN"),
    ("mississippi", "MS"),
    ("missouri", "MO"),
    ("montana", "MT"),
    ("nebraska", "NE"),
    ("nevada", "NV"),
    ("new hampshire", "NH"),
    ("new jersey", "NJ"),
    ("new mexico", "NM"),
    ("new york", "NY"),
    ("north carolina", "NC"),
    ("north dakota", "ND"),
    ("ohio", "OH"),
    ("oklahoma", "OK"),
    ("oregon", "OR"),
    ("pennsylvania", "PA"),
    ("rhode island", "RI"),
    ("south carolina", "SC"),
    ("south dakota", "SD"),
    ("tennessee", "TN"),
    ("texas", "TX"),
    ("utah", "UT"),
    ("vermont", "VT"),
    ("virginia", "VA"),
    ("washington", "WA"),
    ("west virginia", "WV"),
    ("wisconsin", "WI"),
    ("wyoming", "WY"),
    ("puerto rico", "PR"),
];

pub open spec fn is_state_code(s: Seq<char>) -> bool {
    exists|k: int| 0 <= k < 52 && US_STATE_CODES@[k]@ == s
}

/// The code of the first state (in table order from `k`) whose full name
/// occurs in `lower`.
pub open spec fn state_named_in(lower: Seq<char>, k: int) -> Option<Seq<char>>
    decreases 52 - k,
{
    if k < 0 || k >= 52 {
        None
    } else if contains_sub(lower, US_STATE_NAMES@[k].0@) {
        Some(US_STATE_NAMES@[k].1@)
    } else {
        state_named_in(lower, k + 1)
    }
}

/// The state code after the last comma, upper-cased, if it is one.
pub open spec fn state_after_comma(loc: Seq<char>) -> Option<Seq<char>> {
    match last_index_of(loc, ',') {
        None => None,
        Some(i) => {
            let up = ascii_upper(drop_trail(trim(loc.skip(i + 1)), TrimSet::Dot));
            if byte_len(up) == 2 && is_state_code(up) {
                Some(up)
            } else {
                None
            }
        },
    }
}

/// The US state of a free-form location: a trailing `, XX` code first,
/// then the first full state name found anywhere in it.
pub open spec fn state_of(location: Option<Seq<char>>) -> Option<Seq<char>> {
    match location {
        None => None,
        Some(l) => {
            let loc = trim(l);
            if loc.len() == 0 {
                None
            } else if state_after_comma(loc) is Some {
                state_after_comma(loc)
            } else {
                state_named_in(lowercase_form(loc), 0)
            }
        },
    }
}

proof fn lemma_last_comma_at(p: Seq<char>, suf: Seq<char>)
    requires
        forall|i: int| 0 <= i < suf.len() ==> suf[i] != ',',
    ensures
        last_index_of(p + seq![','] + suf, ',') == Some(p.len() as int),
    decreases suf.len(),
{
    let s = p + seq![','] + suf;
    if suf.len() == 0 {
        assert(s.last() == ',');
    } else {
        assert(s.last() == suf[suf.len() - 1]);
        assert(s.drop_last() =~= p + seq![','] + suf.drop_last());
        lemma_last_comma_at(p, suf.drop_last());
    }
}

proof fn lemma_drop_lead_ws(w: Seq<char>, r: Seq<char>)
    requires
        forall|i: int| 0 <= i < w.len() ==> is_ws(w[i]),
    ensures
        drop_lead(w + r, TrimSet::Whitespace) == drop_lead(r, TrimSet::Whitespace),
    decreases w.len(),
{
    if w.len() == 0 {
        assert(w + r =~= r);
    } else {
        assert((w + r)[0] == w[0]);
        assert((w + r).drop_first() =~= w.drop_first() + r);
        lemma_drop_lead_ws(w.drop_first(), r);
    }
}

proof fn lemma_drop_trail_dots(c: Seq<char>, d: Seq<char>)
    requires
        c.len() > 0,
        c.last() != '.',
        forall|i: int| 0 <= i < d.len() ==> d[i] == '.',
    ensures
        drop_trail(c + d, TrimSet::Dot) == c,
    decreases d.len(),
{
    if d.len() == 0 {
        assert(c + d =~= c);
    } else {
        assert((c + d).last() == d[d.len() - 1]);
        assert((c + d).drop_last() =~= c + d.drop_last());
        lemma_drop_trail_dots(c, d.drop_last());
    }
}

/// A location ending in a comma and a two-letter US state code (in either
/// case, maybe with blanks before it and dots after it) is in that state,
/// whatever state names occur earlier in it: "Kansas City, MO" is in
/// Missouri.
pub proof fn lemma_state_code_suffix_wins(
    l: Seq<char>,
    p: Seq<char>,
    w: Seq<char>,
    c: Seq<char>,
    d: Seq<char>,
)
    requires
        trim(l) == p + seq![','] + w + c + d,
        forall|i: int| 0 <= i < w.len() ==> is_ws(w[i]),
        c.len() == 2,
        forall|i: int| 0 <= i < 2 ==> is_upper_ascii(#[trigger] c[i]) || is_lower_ascii(c[i]),
        forall|i: int| 0 <= i < d.len() ==> d[i] == '.',
        is_state_code(ascii_upper(c)),
    ensures
        state_of(Some(l)) == Some(ascii_upper(c)),
{
    let loc = trim(l);
    let cd = c + d;
    let suf = w + cd;
    assert(loc =~= p + seq![','] + suf);
    assert forall|i: int| 0 <= i < suf.len() implies suf[i] != ',' by {
        if i < w.len() {
            assert(suf[i] == w[i]);
        } else if i < w.len() + 2 {
            assert(suf[i] == c[i - w.len()]);
        } else {
            assert(suf[i] == d[i - w.len() - 2]);
        }
    }
    lemma_last_comma_at(p, suf);
    assert(loc.skip(p.len() + 1int) =~= suf);
    lemma_drop_lead_ws(w, cd);
    assert(cd[0] == c[0]);
    assert(!is_ws(c[0]));
    assert(drop_lead(cd, TrimSet::Whitespace) == cd);
    assert(cd.last() == if d.len() > 0 {
        d[d.len() - 1]
    } else {
        c[1]
    });
    assert(!is_ws(c[1]));
    assert(drop_trail(cd, TrimSet::Whitespace) == cd);
    assert(trim(suf) == cd);
    assert(c.last() == c[1]);
    lemma_drop_trail_dots(c, d);
    let up = ascii_upper(c);
    assert(up.len() == 2);
    assert(is_upper_ascii(up[0]) && is_upper_ascii(up[1]));
    assert(up.drop_last().drop_last() =~= Seq::<char>::empty());
    assert(byte_len(up) == 2) by {
        reveal_with_fuel(byte_len, 3);
        assert(up.drop_last().last() == up[0]);
        assert(up.last() == up[1]);
    }
}

fn state_code_listed(s: &Vec<char>) -> (b: bool)
    ensures
        b == is_state_code(s@),
{
    let mut k: usize = 0;
    while k < 52
        invariant
            k <= 52,
            forall|j: int| 0 <= j < k ==> US_STATE_CODES@[j]@ != s@,
        decreases 52 - k,
    {
        if vec_eq(&chars_of(US_STATE_CODES[k]), s) {
            return true;
        }
        k = k + 1;
    }
    false
}

fn state_after_last_comma(loc: &Vec<char>) -> (r: Option<Vec<char>>)
    ensures
        match r {
            Some(v) => state_after_comma(loc@) == Some(v@),
            None => state_after_comma(loc@) is None,
        },
{
    proof {
        lemma_last_index_of(loc@, ',');
    }
    match rfind_char(loc, ',') {
        None => None,
        Some(i) => {
            let tail = sub_vec(loc, i + 1, loc.len());
            assert(tail@ =~= loc@.skip(i + 1));
            let t1 = trim_vec(&tail, TrimSet::Whitespace);
            let t2 = trim_end_vec(&t1, TrimSet::Dot);
            let up = ascii_upper_vec(&t2);
            let n = up.len();
            if byte_len_at_most(&up, 0, n, 2) && !byte_len_at_most(&up, 0, n, 1) {
                assert(up@.subrange(0, n as int) =~= up@);
                if state_code_listed(&up) {
                    return Some(up);
                }
            } else {
                assert(up@.subrange(0, n as int) =~= up@);
            }
            None
        },
    }
}

pub fn detect_state(location: Option<&str>) -> (r: Option<String>)
    ensures
        r.deep_view() == state_of(
            match location {
                Some(l) => Some(l@),
                None => None,
            },
        ),
{
    let l = match location {
        Some(l) => l,
        None => {
            return None;
        },
    };
    let loc = trim_vec(&chars_of(l), TrimSet::Whitespace);
    if loc.len() == 0 {
        return None;
    }
    if let Some(code) = state_after_last_comma(&loc) {
        return Some(string_of(&code));
    }
    state_named(&to_lowercase(&string_of(&loc)))
}

/// The code of the first US state (in table order) whose full name occurs
/// in lower-cased location text.
pub fn state_named(lower: &str) -> (r: Option<String>)
    ensures
        r.deep_view() == state_named_in(lower@, 0),
{
    let ghost lv = lower@;
    let text = chars_of(lower);
    let mut k: usize = 0;
    while k < 52
        invariant
            k <= 52,
            lv == text@,
            lv == lower@,
            state_named_in(lv, 0) == state_named_in(lv, k as int),
        decreases 52 - k,
    {
        let entry = US_STATE_NAMES[k];
        assert(entry == US_STATE_NAMES@[k as int]);
        if contains_str(&text, entry.0) {
            assert(state_named_in(lv, k as int) == Some(entry.1@));
            let code = owned(entry.1);
            let r = Some(code);
            assert(r.deep_view() == Some(entry.1@));
            return r;
        }
        k = k + 1;
    }
    None
}

/// A remote location that does not exclude the US.
pub open spec fn us_remote(location: Option<Seq<char>>) -> bool {
    match location {
        None => false,
        Some(loc) => {
            let l = lowercase_form(loc);
            found(RE_REMOTE@, l) && us_region_text(l)
        },
    }
}

/// Lower-cased location text that names the US or anywhere, or at least
/// none of Canada, EMEA, the UK and Europe.
pub open spec fn us_region_text(l: Seq<char>) -> bool {
    contains_sub(l, "us"@) || contains_sub(l, "u.s"@) || contains_sub(l, "united states"@)
        || contains_sub(l, "anywhere"@) || (!contains_sub(l, "canada"@) && !contains_sub(l, "emea"@)
        && !contains_sub(l, "uk"@) && !contains_sub(l, "europe"@))
}

pub fn is_us_remote(location: Option<&str>) -> (b: bool)
    ensures
        b == us_remote(
            match location {
                Some(l) => Some(l@),
                None => None,
            },
        ),
{
    let loc = match location {
        Some(l) => l,
        None => {
            return false;
        },
    };
    let low = to_lowercase(loc);
    if !regex_matches(RE_REMOTE, low.as_str()) {
        return false;
    }
    names_us_region(low.as_str())
}

/// Whether lower-cased location text admits the US (see `us_region_text`).
pub fn names_us_region(lower: &str) -> (b: bool)
    ensures
        b == us_region_text(lower@),
{
    let l = chars_of(lower);
    contains_str(&l, "us") || contains_str(&l, "u.s") || contains_str(&l, "united states")
        || contains_str(&l, "anywhere") || (!contains_str(&l, "canada") && !contains_str(
        &l,
        "emea",
    ) && !contains_str(&l, "uk") && !contains_str(&l, "europe"))
}

// ---------------------------------------------------------------------------
// Sponsorship signal detection
// ---------------------------------------------------------------------------

/// `s` cut to `n` chars, with an ellipsis when something was cut.
pub open spec fn truncated(s: Seq<char>, n: int) -> Seq<char> {
    if s.len() <= n {
        s
    } else {
        s.take(n).push('\u{2026}')
    }
}

pub fn truncate(s: &str, n: usize) -> (r: String)
    ensures
        r@ == truncated(s@, n as int),
{
    let v = chars_of(s);
    if v.len() <= n {
        owned(s)
    } else {
        let mut t = sub_vec(&v, 0, n);
        t.push('\u{2026}');
        assert(t@ =~= s@.take(n as int).push('\u{2026}'));
        string_of(&t)
    }
}

/// The explanation attached to a sponsorship signal.
pub open spec fn match_reason(m: Seq<char>) -> Seq<char> {
    "matched: \""@ + truncated(m, 80) + "\""@
}

/// The sponsorship signal of a JD: the first pattern (no sponsorship,
/// explicit sponsor, likely, unlikely) that matches decides, with its
/// matched text as the reason; no JD or no match is "unclear".
pub open spec fn sponsorship_of(jd: Option<Seq<char>>) -> (
    SponsorshipConfidence,
    Option<Seq<char>>,
) {
    match jd {
        None => (SponsorshipConfidence::SponsorUnclear, None),
        Some(t) => if found(RE_NO_SPONSOR@, t) {
            (
                SponsorshipConfidence::ExplicitNoSponsorship,
                Some(match_reason(regex_search(RE_NO_SPONSOR@, t)->0->0)),
            )
        } else if found(RE_EXPLICIT_SPONSOR@, t) {
            (
                SponsorshipConfidence::ExplicitSponsor,
                Some(match_reason(regex_search(RE_EXPLICIT_SPONSOR@, t)->0->0)),
            )
        } else if found(RE_LIKELY_SPONSOR@, t) {
            (
                SponsorshipConfidence::SponsorLikely,
                Some(match_reason(regex_search(RE_LIKELY_SPONSOR@, t)->0->0)),
            )
        } else if found(RE_UNLIKELY_SPONSOR@, t) {
            (
                SponsorshipConfidence::SponsorUnlikely,
                Some(match_reason(regex_search(RE_UNLIKELY_SPONSOR@, t)->0->0)),
            )
        } else {
            (SponsorshipConfidence::SponsorUnclear, None)
        },
    }
}

/// The text a pattern matched in `t` (when it matched).
pub open spec fn matched_text(pattern: Seq<char>, t: Seq<char>) -> Seq<char> {
    regex_search(pattern, t)->0->0
}

/// Sponsorship signals rank by precedence: an explicit refusal decides
/// whatever else the JD says; an explicit offer decides unless refused;
/// "likely" wording decides only when neither explicit signal occurs, and
/// "unlikely" wording only when none of the others does.  The reason always
/// quotes the text of the deciding pattern; with no signal (or no JD) the
/// result is "unclear" with no reason.
pub proof fn lemma_sponsorship_precedence(t: Seq<char>)
    ensures
        found(RE_NO_SPONSOR@, t) ==> sponsorship_of(Some(t)) == (
            SponsorshipConfidence::ExplicitNoSponsorship,
            Some(match_reason(matched_text(RE_NO_SPONSOR@, t))),
        ),
        !found(RE_NO_SPONSOR@, t) && found(RE_EXPLICIT_SPONSOR@, t) ==> sponsorship_of(Some(t))
            == (
            SponsorshipConfidence::ExplicitSponsor,
            Some(match_reason(matched_text(RE_EXPLICIT_SPONSOR@, t))),
        ),
        !found(RE_NO_SPONSOR@, t) && !found(RE_EXPLICIT_SPONSOR@, t) && found(
            RE_LIKELY_SPONSOR@,
            t,
        ) ==> sponsorship_of(Some(t)) == (
            SponsorshipConfidence::SponsorLikely,
            Some(match_reason(matched_text(RE_LIKELY_SPONSOR@, t))),
        ),
        !found(RE_NO_SPONSOR@, t) && !found(RE_EXPLICIT_SPONSOR@, t) && !found(
            RE_LIKELY_SPONSOR@,
            t,
        ) && found(RE_UNLIKELY_SPONSOR@, t) ==> sponsorship_of(Some(t)) == (
            SponsorshipConfidence::SponsorUnlikely,
            Some(match_reason(matched_text(RE_UNLIKELY_SPONSOR@, t))),
        ),
        !found(RE_NO_SPONSOR@, t) && !found(RE_EXPLICIT_SPONSOR@, t) && !found(
            RE_LIKELY_SPONSOR@,
            t,
        ) && !found(RE_UNLIKELY_SPONSOR@, t) ==> sponsorship_of(Some(t)) == (
            SponsorshipConfidence::SponsorUnclear,
            None::<Seq<char>>,
        ),
        sponsorship_of(Some(t)).0 == SponsorshipConfidence::ExplicitNoSponsorship <==> found(
            RE_NO_SPONSOR@,
            t,
        ),
        sponsorship_of(None) == (SponsorshipConfidence::SponsorUnclear, None::<Seq<char>>),
{
}

/// The reason recorded for a sponsorship pattern's matched text `m`.
pub fn reason_text(m: &str) -> (r: String)
    ensures
        r@ == match_reason(m@),
{
    let mut v = chars_of("matched: \"");
    extend(&mut v, &chars_of(&truncate(m, 80)));
    extend(&mut v, &chars_of("\""));
    string_of(&v)
}

pub fn detect_sponsorship(jd: Option<&str>) -> (r: (SponsorshipConfidence, Option<String>))
    ensures
        r.0 == sponsorship_of(
            match jd {
                Some(t) => Some(t@),
                None => None,
            },
        ).0,
        r.1.deep_view() == sponsorship_of(
            match jd {
                Some(t) => Some(t@),
                None => None,
            },
        ).1,
        jd matches Some(t) && found(RE_NO_SPONSOR@, t@) ==> r.0
            == SponsorshipConfidence::ExplicitNoSponsorship,
        r.0 == SponsorshipConfidence::ExplicitNoSponsorship ==> (jd matches Some(t) && found(
            RE_NO_SPONSOR@,
            t@,
        )),
{
    proof {
        if let Some(t) = jd {
            lemma_sponsorship_precedence(t@);
        }
    }
    let text = match jd {
        Some(t) => t,
        None => {
            return (SponsorshipConfidence::SponsorUnclear, None);
        },
    };
    if let Some(Some(m)) = regex_find(RE_NO_SPONSOR, text) {
        return (SponsorshipConfidence::ExplicitNoSponsorship, Some(reason_text(m.as_str())));
    }
    if let Some(Some(m)) = regex_find(RE_EXPLICIT_SPONSOR, text) {
        return (SponsorshipConfidence::ExplicitSponsor, Some(reason_text(m.as_str())));
    }
    if let Some(Some(m)) = regex_find(RE_LIKELY_SPONSOR, text) {
        return (SponsorshipConfidence::SponsorLikely, Some(reason_text(m.as_str())));
    }
    if let Some(Some(m)) = regex_find(RE_UNLIKELY_SPONSOR, text) {
        return (SponsorshipConfidence::SponsorUnlikely, Some(reason_text(m.as_str())));
    }
    (SponsorshipConfidence::SponsorUnclear, None)
}

// ---------------------------------------------------------------------------
// Skill extraction
// ---------------------------------------------------------------------------

/// The case-insensitive whole-word pattern for `needle`.
pub open spec fn word_pattern(needle: Seq<char>) -> Seq<char> {
    WORD_START@ + escaped(needle) + WORD_END@
}

/// `needle` is non-empty and occurs in `hay` as a whole word, ignoring case:
/// with no ASCII letter or digit directly before or after it.  The
/// case-insensitive whole-word pattern finds it, and the occurrence shows
/// in the ASCII-lower-cased texts.
pub open spec fn has_word(hay: Seq<char>, needle: Seq<char>) -> bool {
    &&& needle.len() > 0
    &&& found(word_pattern(needle), hay)
    &&& contains_word_seq(ascii_lower(hay), ascii_lower(needle))
}

pub fn contains_word(haystack: &str, needle: &str) -> (b: bool)
    ensures
        b == has_word(haystack@, needle@),
        b ==> needle@.len() > 0 && contains_word_seq(ascii_lower(haystack@), ascii_lower(needle@)),
{
    if needle.is_empty() {
        return false;
    }
    let mut pat = owned(WORD_START);
    pat.append(regex_escape(needle).as_str());
    pat.append(WORD_END);
    if !regex_matches(pat.as_str(), haystack) {
        return false;
    }
    vec_contains_word(&ascii_lower_vec(&chars_of(haystack)), &ascii_lower_vec(&chars_of(needle)))
}

/// A skill is only ever reported when the JD holds it as a whole word: its
/// lower-cased name (or that of one of its aliases) occurs in the
/// lower-cased JD with no ASCII letter or digit directly before or after
/// it.  So "go" is not found in "django", nor "rust" in "trusted".
pub proof fn lemma_skill_found_whole_word(
    hay: Seq<char>,
    targets: Seq<Seq<char>>,
    aliases: Seq<(Seq<char>, Seq<Seq<char>>)>,
    x: Seq<char>,
)
    requires
        skill_found(hay, targets, aliases, x),
    ensures
        (exists|i: int|
            0 <= i < targets.len() && targets[i] == x && #[trigger] contains_word_seq(
                ascii_lower(hay),
                ascii_lower(lowercase_form(targets[i])),
            )) || (exists|j: int, k: int|
            0 <= j < aliases.len() && aliases[j].0 == x && 0 <= k < aliases[j].1.len()
                && #[trigger] contains_word_seq(
                ascii_lower(hay),
                ascii_lower(lowercase_form(aliases[j].1[k])),
            )),
{
}

/// `x` is one of the skills that `extract_skills` reports for the lowered
/// JD text `hay`: a target skill occurring in it, or the canonical name of
/// an alias pair one of whose aliases occurs in it.
pub open spec fn skill_found(
    hay: Seq<char>,
    targets: Seq<Seq<char>>,
    aliases: Seq<(Seq<char>, Seq<Seq<char>>)>,
    x: Seq<char>,
) -> bool {
    ||| exists|i: int|
        0 <= i < targets.len() && targets[i] == x && has_word(hay, lowercase_form(targets[i]))
    ||| exists|j: int, k: int|
        0 <= j < aliases.len() && aliases[j].0 == x && 0 <= k < aliases[j].1.len() && has_word(
            hay,
            lowercase_form(aliases[j].1[k]),
        )
}

pub open spec fn alias_view(aliases: Seq<(String, Vec<String>)>) -> Seq<(Seq<char>, Seq<Seq<char>>)> {
    aliases.map_values(|p: (String, Vec<String>)| (p.0@, p.1.deep_view()))
}

/// Whether one of `names`, lower-cased, occurs in `hay` as a whole word.
fn any_word(hay: &str, names: &Vec<String>) -> (b: bool)
    ensures
        b == exists|k: int|
            0 <= k < names.len() && has_word(hay@, lowercase_form(#[trigger] names.deep_view()[k])),
{
    let mut k: usize = 0;
    while k < names.len()
        invariant
            k <= names.len(),
            forall|m: int| 0 <= m < k ==> !has_word(hay@, lowercase_form(#[trigger] names.deep_view()[m])),
        decreases names.len() - k,
    {
        assert(names[k as int]@ == names.deep_view()[k as int]);
        let low = to_lowercase(names[k].as_str());
        if contains_word(hay, low.as_str()) {
            return true;
        }
        k = k + 1;
    }
    false
}

/// Find the target skills (or their aliases) that occur in the JD as whole
/// words, ignoring case.  Returns the canonical spellings, sorted and
/// without repeats.
pub fn extract_skills(jd: Option<&str>, target_skills: &[String], aliases: &[(String, Vec<String>)]) -> (r: Vec<String>)
    ensures
        strictly_sorted(r.deep_view()),
        jd is None ==> r@.len() == 0,
        jd matches Some(t) ==> forall|x: Seq<char>| #[trigger]
            r.deep_view().contains(x) <==> skill_found(
                lowercase_form(t@),
                target_skills.deep_view(),
                alias_view(aliases@),
                x,
            ),
{
    let text = match jd {
        Some(t) => t,
        None => {
            return Vec::new();
        },
    };
    let hay = to_lowercase(text);
    let ghost h = lowercase_form(text@);
    let ghost ts = target_skills.deep_view();
    let ghost al = alias_view(aliases@);
    let mut found_set: Vec<String> = Vec::new();
    let mut i: usize = 0;
    while i < target_skills.len()
        invariant
            i <= target_skills.len(),
            hay@ == h,
            ts == target_skills.deep_view(),
            strictly_sorted(found_set.deep_view()),
            forall|x: Seq<char>| #[trigger]
                found_set.deep_view().contains(x) <==> exists|q: int|
                    0 <= q < i && ts[q] == x && has_word(h, lowercase_form(ts[q])),
        decreases target_skills.len() - i,
    {
        let skill = &target_skills[i];
        assert(skill@ == ts[i as int]);
        let low = to_lowercase(skill.as_str());
        if contains_word(hay.as_str(), low.as_str()) {
            insert_sorted(&mut found_set, skill.clone());
        }
        i = i + 1;
    }
    let ghost after_targets = found_set.deep_view();
    let mut j: usize = 0;
    while j < aliases.len()
        invariant
            j <= aliases.len(),
            hay@ == h,
            ts == target_skills.deep_view(),
            al == alias_view(aliases@),
            strictly_sorted(found_set.deep_view()),
            forall|x: Seq<char>| #[trigger]
                found_set.deep_view().contains(x) <==> (after_targets.contains(x) || exists|
                    q: int,
                    k: int,
                |
                    0 <= q < j && al[q].0 == x && 0 <= k < al[q].1.len() && has_word(
                        h,
                        lowercase_form(al[q].1[k]),
                    )),
            forall|x: Seq<char>| #[trigger]
                after_targets.contains(x) <==> exists|q: int|
                    0 <= q < target_skills.len() && ts[q] == x && has_word(h, lowercase_form(ts[q])),
        decreases aliases.len() - j,
    {
        let canonical = &aliases[j].0;
        let names = &aliases[j].1;
        assert(al[j as int].0 == canonical@);
        assert(al[j as int].1 == names.deep_view());
        let hit = any_word(hay.as_str(), names);
        assert(hit == exists|k: int| 0 <= k < al[j as int].1.len() && has_word(h, lowercase_form(al[j as int].1[k])));
        let ghost before = found_set.deep_view();
        if hit {
            insert_sorted(&mut found_set, canonical.clone());
        }
        assert forall|x: Seq<char>| #[trigger]
            found_set.deep_view().contains(x) <==> (after_targets.contains(x) || exists|
                q: int,
                k: int,
            |
                0 <= q < j + 1 && al[q].0 == x && 0 <= k < al[q].1.len() && has_word(
                    h,
                    lowercase_form(al[q].1[k]),
                )) by {
            if hit && x == canonical@ {
                let k = choose|k: int| 0 <= k < al[j as int].1.len() && has_word(h, lowercase_form(al[j as int].1[k]));
                assert(0 <= j < j + 1 && al[j as int].0 == x && 0 <= k < al[j as int].1.len() && has_word(h, lowercase_form(al[j as int].1[k])));
            }
        }
        j = j + 1;
    }
    found_set
}

} // verus!
