//! Path-segment sanitization.  Every user-derived path segment flows
//! through `safe_slug` before it is joined to a root folder, so that no
//! segment can escape the root, name a reserved Windows device, or carry a
//! character that some filesystem rejects.
use crate::text::{
    lemma_drop_lead_sub, lemma_drop_trail_sub, lemma_trim_range,
    chars_of, char_is_control, char_is_whitespace, extend, in_set, is_ctrl, is_ws, owned, str_eq,
    string_of, sub_vec, trim_set, trim_vec, vec_eq, TrimSet, drop_lead, drop_trail,
};
use crate::unicode::{lowercase_form, nfkd, nfkd_form, to_lowercase};
use vstd::prelude::*;

verus! {

/// Windows device names, compared case-insensitively.
pub const RESERVED: [&'static str; 22] = [
    "con",
    "prn",
    "aux",
    "nul",
    "com1",
    "com2",
    "com3",
    "com4",
    "com5",
    "com6",
    "com7",
    "com8",
    "com9",
    "lpt1",
    "lpt2",
    "lpt3",
    "lpt4",
    "lpt5",
    "lpt6",
    "lpt7",
    "lpt8",
    "lpt9",
];

/// Maximum number of chars in a segment.
pub const MAX_SEGMENT: usize = 80;

/// The fallback segment for inputs with nothing usable in them.
pub const UNTITLED: &'static str = "untitled";

/// Characters that some filesystem rejects in a name.
pub open spec fn is_invalid_char(c: char) -> bool {
    c == '<' || c == '>' || c == ':' || c == '"' || c == '/' || c == '\\' || c == '|' || c == '?'
        || c == '*' || c == '\0'
}

/// Characters that separate words in a slug: the invalid ones, whitespace,
/// and the underscore itself.
pub open spec fn is_sep(c: char) -> bool {
    is_invalid_char(c) || is_ws(c) || c == '_'
}

/// `s` without its control characters.
pub open spec fn remove_ctrl(s: Seq<char>) -> Seq<char>
    decreases s.len(),
{
    if s.len() == 0 {
        s
    } else if is_ctrl(s.last()) {
        remove_ctrl(s.drop_last())
    } else {
        remove_ctrl(s.drop_last()).push(s.last())
    }
}

/// Every run of separators becomes a single `_`; separators before the
/// first kept character are dropped.
pub open spec fn collapse_seps(s: Seq<char>) -> Seq<char>
    decreases s.len(),
{
    if s.len() == 0 {
        s
    } else {
        let r = collapse_seps(s.drop_last());
        let c = s.last();
        if is_sep(c) {
            if r.len() == 0 || r.last() == '_' {
                r
            } else {
                r.push('_')
            }
        } else {
            r.push(c)
        }
    }
}

/// `lowered` is one of the reserved device names.
pub open spec fn is_reserved(lowered: Seq<char>) -> bool {
    exists|k: int| 0 <= k < 22 && RESERVED@[k]@ == lowered
}

/// The slug of `input`: compatibility-decomposed, control characters
/// removed, separators collapsed to `_`, dots/underscores/whitespace trimmed
/// from both ends, a reserved device name escaped with a leading `_`, the
/// empty result replaced by `untitled`, and the whole cut to 80 chars.
pub open spec fn slug(input: Seq<char>) -> Seq<char> {
    let trimmed = sanitized(nfkd_form(input));
    finished(trimmed, is_reserved(lowercase_form(trimmed)))
}

/// Decomposed text with control characters removed, separators collapsed
/// to `_`, and dots/underscores/whitespace trimmed from both ends.
pub open spec fn sanitized(decomposed: Seq<char>) -> Seq<char> {
    trim_set(collapse_seps(remove_ctrl(decomposed)), TrimSet::SlugEdge)
}

/// A sanitized segment made final: escaped with a leading `_` when it names
/// a reserved device, `untitled` when empty, cut to 80 chars.
pub open spec fn finished(trimmed: Seq<char>, reserved: bool) -> Seq<char> {
    let safe = if reserved {
        seq!['_'] + trimmed
    } else {
        trimmed
    };
    if safe.len() == 0 {
        UNTITLED@
    } else if safe.len() > MAX_SEGMENT {
        safe.take(MAX_SEGMENT as int)
    } else {
        safe
    }
}

pub fn is_sep_exec(c: char) -> (b: bool)
    ensures
        b == is_sep(c),
{
    c == '<' || c == '>' || c == ':' || c == '"' || c == '/' || c == '\\' || c == '|' || c == '?'
        || c == '*' || c == '\0' || char_is_whitespace(c) || c == '_'
}

fn without_controls(v: &Vec<char>) -> (r: Vec<char>)
    ensures
        r@ == remove_ctrl(v@),
{
    let mut r: Vec<char> = Vec::new();
    let mut i: usize = 0;
    while i < v.len()
        invariant
            i <= v.len(),
            r@ == remove_ctrl(v@.take(i as int)),
        decreases v.len() - i,
    {
        assert(v@.take(i + 1).drop_last() =~= v@.take(i as int));
        if !char_is_control(v[i]) {
            r.push(v[i]);
        }
        i = i + 1;
    }
    assert(v@.take(i as int) =~= v@);
    r
}

fn collapse_separators(v: &Vec<char>) -> (r: Vec<char>)
    ensures
        r@ == collapse_seps(v@),
{
    let mut out: Vec<char> = Vec::new();
    let mut prev_sep = false;
    let mut i: usize = 0;
    while i < v.len()
        invariant
            i <= v.len(),
            out@ == collapse_seps(v@.take(i as int)),
            prev_sep == (out@.len() > 0 && out@.last() == '_'),
        decreases v.len() - i,
    {
        assert(v@.take(i + 1).drop_last() =~= v@.take(i as int));
        let c = v[i];
        if is_sep_exec(c) {
            if !prev_sep && out.len() > 0 {
                out.push('_');
                prev_sep = true;
            }
        } else {
            out.push(c);
            prev_sep = false;
        }
        i = i + 1;
    }
    assert(v@.take(i as int) =~= v@);
    out
}

/// Whether `lowered` is a reserved device name.
fn reserved_name(lowered: &Vec<char>) -> (b: bool)
    ensures
        b == is_reserved(lowered@),
{
    let mut k: usize = 0;
    while k < 22
        invariant
            k <= 22,
            forall|j: int| 0 <= j < k ==> RESERVED@[j]@ != lowered@,
        decreases 22 - k,
    {
        let name = chars_of(RESERVED[k]);
        if vec_eq(&name, lowered) {
            return true;
        }
        k = k + 1;
    }
    false
}

/// Turn an arbitrary display string into a filesystem-safe segment.
pub fn safe_slug(input: &str) -> (r: String)
    ensures
        r@ == slug(input@),
{
    let trimmed = sanitize_segment(&nfkd(input));
    let lowered = to_lowercase(&trimmed);
    finish_segment(&trimmed, &lowered)
}

/// The sanitizing half of `safe_slug`, on already decomposed text.
pub fn sanitize_segment(decomposed: &str) -> (r: String)
    ensures
        r@ == sanitized(decomposed@),
{
    let decomposed = chars_of(decomposed);
    let kept = without_controls(&decomposed);
    let out = collapse_separators(&kept);
    let trimmed = trim_vec(&out, TrimSet::SlugEdge);
    string_of(&trimmed)
}

/// The finishing half of `safe_slug`: `trimmed` is a sanitized segment and
/// `lowered` its lower-cased form, against which device names are checked.
pub fn finish_segment(trimmed: &str, lowered: &str) -> (r: String)
    ensures
        r@ == finished(trimmed@, is_reserved(lowered@)),
{
    let trimmed = chars_of(trimmed);
    let lowered = chars_of(lowered);
    let safe = if reserved_name(&lowered) {
        let mut s: Vec<char> = Vec::new();
        s.push('_');
        extend(&mut s, &trimmed);
        assert(s@ =~= seq!['_'] + trimmed@);
        s
    } else {
        trimmed
    };
    if safe.len() == 0 {
        return owned(UNTITLED);
    }
    if safe.len() > MAX_SEGMENT {
        let cut = sub_vec(&safe, 0, MAX_SEGMENT);
        assert(safe@.subrange(0, MAX_SEGMENT as int) =~= safe@.take(MAX_SEGMENT as int));
        string_of(&cut)
    } else {
        string_of(&safe)
    }
}

/// The components a path joined under a root gets from `segments`: each
/// segment's slug, in order.  By `lemma_slug_is_safe_segment` each is one
/// ordinary component, so none can climb out of the root.
pub fn safe_segments(segments: &[&str]) -> (r: Vec<String>)
    ensures
        r@.len() == segments@.len(),
        forall|i: int| 0 <= i < segments@.len() ==> (#[trigger] r@[i])@ == slug(segments@[i]@),
{
    let mut r: Vec<String> = Vec::new();
    let mut i: usize = 0;
    while i < segments.len()
        invariant
            i <= segments.len(),
            r@.len() == i,
            forall|j: int| 0 <= j < i ==> (#[trigger] r@[j])@ == slug(segments@[j]@),
        decreases segments.len() - i,
    {
        r.push(safe_slug(segments[i]));
        i = i + 1;
    }
    r
}

/// Decide the inner folder name for a job: prefer the job id (followed by
/// the role slug), fall back to the role title, then to the JD keyword.
pub open spec fn role_folder(
    job_external_id: Option<Seq<char>>,
    role_title: Seq<char>,
    jd_keyword: Option<Seq<char>>,
) -> Seq<char> {
    if job_external_id is Some && slug(job_external_id->0).len() > 0 && slug(job_external_id->0)
        != UNTITLED@ {
        slug(job_external_id->0) + seq!['_'] + slug(role_title)
    } else if slug(role_title) != UNTITLED@ {
        slug(role_title)
    } else {
        match jd_keyword {
            Some(k) => slug(k),
            None => UNTITLED@,
        }
    }
}

pub fn role_folder_name(
    job_external_id: Option<&str>,
    role_title: &str,
    jd_keyword: Option<&str>,
) -> (r: String)
    ensures
        r@ == role_folder(
            match job_external_id {
                Some(s) => Some(s@),
                None => None,
            },
            role_title@,
            match jd_keyword {
                Some(s) => Some(s@),
                None => None,
            },
        ),
{
    if let Some(id) = job_external_id {
        let id_slug = safe_slug(id);
        if !id_slug.as_str().is_empty() && !str_eq(id_slug.as_str(), UNTITLED) {
            assert(id_slug@.len() > 0);
            let suffix = safe_slug(role_title);
            let mut out = chars_of(id_slug.as_str());
            out.push('_');
            extend(&mut out, &chars_of(suffix.as_str()));
            return string_of(&out);
        }
    }
    let role = safe_slug(role_title);
    if !str_eq(role.as_str(), UNTITLED) {
        return role;
    }
    match jd_keyword {
        Some(k) => safe_slug(k),
        None => owned(UNTITLED),
    }
}

// ---------------------------------------------------------------------------
// What a slug can and cannot contain
// ---------------------------------------------------------------------------

proof fn lemma_remove_ctrl_chars(s: Seq<char>)
    ensures
        forall|i: int| 0 <= i < remove_ctrl(s).len() ==> !is_ctrl(#[trigger] remove_ctrl(s)[i]),
    decreases s.len(),
{
    if s.len() > 0 {
        let t = s.drop_last();
        lemma_remove_ctrl_chars(t);
        let r = remove_ctrl(t);
        assert forall|i: int| 0 <= i < remove_ctrl(s).len() implies !is_ctrl(
            #[trigger] remove_ctrl(s)[i],
        ) by {
            if i < r.len() {
                assert(remove_ctrl(s)[i] == r[i]);
            }
        }
    }
}

/// A char of the collapsed string is either the separator `_` or a
/// non-separator char of the input.
proof fn lemma_collapse_chars(s: Seq<char>)
    ensures
        forall|i: int|
            0 <= i < collapse_seps(s).len() ==> (#[trigger] collapse_seps(s)[i] == '_' || (
            !is_sep(collapse_seps(s)[i]) && s.contains(collapse_seps(s)[i]))),
    decreases s.len(),
{
    if s.len() > 0 {
        let t = s.drop_last();
        lemma_collapse_chars(t);
        assert forall|i: int| 0 <= i < collapse_seps(s).len() implies (#[trigger] collapse_seps(
            s,
        )[i] == '_' || (!is_sep(collapse_seps(s)[i]) && s.contains(collapse_seps(s)[i]))) by {
            let c = collapse_seps(s)[i];
            if i < collapse_seps(t).len() {
                assert(c == collapse_seps(t)[i]);
                if c != '_' {
                    let j = choose|j: int| 0 <= j < t.len() && t[j] == c;
                    assert(s[j] == c);
                }
            } else {
                if !is_sep(s.last()) {
                    assert(s[s.len() - 1] == c);
                }
            }
        }
    }
}

/// A trimmed string is a piece of its input whose first char (if any)
/// is not in the trimmed set.
pub proof fn lemma_trim_set_sub(s: Seq<char>, t: TrimSet)
    ensures
        forall|i: int| 0 <= i < trim_set(s, t).len() ==> s.contains(#[trigger] trim_set(s, t)[i]),
        trim_set(s, t).len() > 0 ==> !in_set(t, trim_set(s, t)[0]),
{
    let a = lemma_drop_lead_sub(s, t);
    let d = drop_lead(s, t);
    let b = lemma_drop_trail_sub(d, t);
    assert forall|i: int| 0 <= i < trim_set(s, t).len() implies s.contains(
        #[trigger] trim_set(s, t)[i],
    ) by {
        assert(trim_set(s, t)[i] == s[a + i]);
    }
    if trim_set(s, t).len() > 0 {
        assert(trim_set(s, t)[0] == s[a]);
    }
}

/// A slug is a single, ordinary path component: between 1 and 80 chars,
/// with no path separator or other invalid character, no whitespace, no
/// control character, and no leading dot (so it is never `.` or `..`).
pub proof fn lemma_slug_is_safe_segment(input: Seq<char>)
    ensures
        1 <= slug(input).len() <= MAX_SEGMENT,
        slug(input)[0] != '.',
        forall|i: int|
            0 <= i < slug(input).len() ==> !is_invalid_char(#[trigger] slug(input)[i]) && !is_ws(
                slug(input)[i],
            ) && !is_ctrl(slug(input)[i]),
{
    let dec = remove_ctrl(nfkd_form(input));
    let col = collapse_seps(dec);
    let trimmed = sanitized(nfkd_form(input));
    lemma_remove_ctrl_chars(nfkd_form(input));
    lemma_collapse_chars(dec);
    lemma_trim_set_sub(col, TrimSet::SlugEdge);
    let safe = if is_reserved(lowercase_form(trimmed)) {
        seq!['_'] + trimmed
    } else {
        trimmed
    };
    assert forall|i: int| 0 <= i < safe.len() implies !is_invalid_char(#[trigger] safe[i])
        && !is_ws(safe[i]) && !is_ctrl(safe[i]) by {
        let c = safe[i];
        if c != '_' {
            let j = if is_reserved(lowercase_form(trimmed)) {
                i - 1
            } else {
                i
            };
            assert(c == trimmed[j]);
            assert(col.contains(c));
            let m = choose|m: int| 0 <= m < col.len() && col[m] == c;
            assert(dec.contains(c));
            let n = choose|n: int| 0 <= n < dec.len() && dec[n] == c;
        }
    }
    if safe.len() == 0 {
        reveal_strlit("untitled");
    }
}

/// A role folder name is a single ordinary path component too: non-empty,
/// no leading dot, and no invalid, whitespace or control character (the
/// `_` joining an id slug and a role slug is none of those).
pub proof fn lemma_role_folder_is_safe(
    job_external_id: Option<Seq<char>>,
    role_title: Seq<char>,
    jd_keyword: Option<Seq<char>>,
)
    ensures
        role_folder(job_external_id, role_title, jd_keyword).len() >= 1,
        role_folder(job_external_id, role_title, jd_keyword)[0] != '.',
        forall|i: int|
            0 <= i < role_folder(job_external_id, role_title, jd_keyword).len() ==> !is_invalid_char(
                #[trigger] role_folder(job_external_id, role_title, jd_keyword)[i],
            ) && !is_ws(role_folder(job_external_id, role_title, jd_keyword)[i]) && !is_ctrl(
                role_folder(job_external_id, role_title, jd_keyword)[i],
            ),
{
    let r = role_folder(job_external_id, role_title, jd_keyword);
    lemma_slug_is_safe_segment(role_title);
    if job_external_id is Some {
        let a = slug(job_external_id->0);
        let b = slug(role_title);
        lemma_slug_is_safe_segment(job_external_id->0);
        if a.len() > 0 && a != UNTITLED@ {
            assert(r == a + seq!['_'] + b);
            assert forall|i: int| 0 <= i < r.len() implies !is_invalid_char(#[trigger] r[i])
                && !is_ws(r[i]) && !is_ctrl(r[i]) by {
                if i < a.len() {
                    assert(r[i] == a[i]);
                } else if i > a.len() {
                    assert(r[i] == b[i - a.len() - 1]);
                }
            }
            assert(r[0] == a[0]);
        }
    }
    if let Some(k) = jd_keyword {
        lemma_slug_is_safe_segment(k);
    }
    if r == UNTITLED@ {
        reveal_strlit("untitled");
    }
}


// ---------------------------------------------------------------------------
// Slugging a slug again
// ---------------------------------------------------------------------------

/// A sanitized segment: no control char, `_` its only separator, never two
/// `_` in a row, and no dot, underscore or whitespace at either end.
pub open spec fn clean_segment(t: Seq<char>) -> bool {
    &&& forall|i: int| 0 <= i < t.len() ==> !is_ctrl(#[trigger] t[i])
    &&& forall|i: int| 0 <= i < t.len() && is_sep(#[trigger] t[i]) ==> t[i] == '_'
    &&& forall|i: int| 0 <= i < t.len() - 1 && #[trigger] t[i] == '_' ==> t[i + 1] != '_'
    &&& t.len() > 0 ==> !in_set(TrimSet::SlugEdge, t[0]) && !in_set(TrimSet::SlugEdge, t.last())
}

/// Collapsing leaves no two `_` in a row and no leading `_`.
proof fn lemma_collapse_runs(s: Seq<char>)
    ensures
        forall|i: int|
            0 <= i < collapse_seps(s).len() - 1 && #[trigger] collapse_seps(s)[i] == '_'
                ==> collapse_seps(s)[i + 1] != '_',
        collapse_seps(s).len() > 0 ==> collapse_seps(s)[0] != '_',
    decreases s.len(),
{
    if s.len() > 0 {
        let t = s.drop_last();
        lemma_collapse_runs(t);
        lemma_collapse_chars(t);
        let r = collapse_seps(t);
        let c = collapse_seps(s);
        assert forall|i: int| 0 <= i < c.len() - 1 && #[trigger] c[i] == '_' implies c[i + 1]
            != '_' by {
            assert(c[i] == r[i]);
            if i + 1 < r.len() {
                assert(c[i + 1] == r[i + 1]);
            } else {
                assert(i == r.len() - 1);
                if is_sep(s.last()) {
                } else {
                    assert(c[i + 1] == s.last());
                }
            }
        }
        if c.len() > 0 && r.len() > 0 {
            assert(c[0] == r[0]);
        }
    }
}

/// What sanitizing gives is a clean segment.
pub proof fn lemma_sanitized_clean(d: Seq<char>)
    ensures
        clean_segment(sanitized(d)),
{
    let k = remove_ctrl(d);
    let c = collapse_seps(k);
    lemma_remove_ctrl_chars(d);
    lemma_collapse_chars(k);
    lemma_collapse_runs(k);
    let (a, b) = lemma_trim_range(c, TrimSet::SlugEdge);
    let t = sanitized(d);
    assert(t == c.subrange(a, b));
    assert forall|i: int| 0 <= i < t.len() implies !is_ctrl(#[trigger] t[i]) by {
        assert(t[i] == c[a + i]);
        if c[a + i] != '_' {
            let j = choose|j: int| 0 <= j < k.len() && k[j] == c[a + i];
        }
    }
    assert forall|i: int| 0 <= i < t.len() && is_sep(#[trigger] t[i]) implies t[i] == '_' by {
        assert(t[i] == c[a + i]);
    }
    assert forall|i: int| 0 <= i < t.len() - 1 && #[trigger] t[i] == '_' implies t[i + 1] != '_' by {
        assert(t[i] == c[a + i]);
        assert(t[i + 1] == c[a + i + 1]);
    }
    if t.len() > 0 {
        assert(t[0] == c[a]);
        assert(t.last() == c[b - 1]);
    }
}

proof fn lemma_remove_ctrl_none(s: Seq<char>)
    requires
        forall|i: int| 0 <= i < s.len() ==> !is_ctrl(#[trigger] s[i]),
    ensures
        remove_ctrl(s) == s,
    decreases s.len(),
{
    if s.len() > 0 {
        assert(!is_ctrl(s[s.len() - 1]));
        lemma_remove_ctrl_none(s.drop_last());
        assert(s.drop_last().push(s.last()) =~= s);
    }
}

proof fn lemma_collapse_none(s: Seq<char>)
    requires
        forall|i: int| 0 <= i < s.len() && is_sep(#[trigger] s[i]) ==> s[i] == '_',
        forall|i: int| 0 <= i < s.len() - 1 && #[trigger] s[i] == '_' ==> s[i + 1] != '_',
        s.len() > 0 ==> s[0] != '_',
    ensures
        collapse_seps(s) == s,
    decreases s.len(),
{
    if s.len() > 0 {
        let t = s.drop_last();
        assert forall|i: int| 0 <= i < t.len() - 1 && #[trigger] t[i] == '_' implies t[i + 1]
            != '_' by {
            assert(s[i] == t[i]);
        }
        assert forall|i: int| 0 <= i < t.len() && is_sep(#[trigger] t[i]) implies t[i] == '_' by {
            assert(s[i] == t[i]);
        }
        if t.len() > 0 {
            assert(s[0] == t[0]);
        }
        lemma_collapse_none(t);
        let c = s.last();
        assert(c == s[s.len() - 1]);
        if is_sep(c) {
            assert(c == '_');
            if t.len() > 0 {
                assert(s[s.len() - 2] == t.last());
            }
        }
        assert(t.push(c) =~= s);
    }
}

proof fn lemma_trim_none(t: Seq<char>, ts: TrimSet)
    requires
        t.len() > 0 ==> !in_set(ts, t[0]) && !in_set(ts, t.last()),
    ensures
        trim_set(t, ts) == t,
{
}

/// Sanitizing a clean segment changes nothing.
pub proof fn lemma_clean_fixed(t: Seq<char>)
    requires
        clean_segment(t),
    ensures
        sanitized(t) == t,
{
    lemma_remove_ctrl_none(t);
    if t.len() > 0 {
        assert(!in_set(TrimSet::SlugEdge, t[0]));
    }
    lemma_collapse_none(t);
    lemma_trim_none(t, TrimSet::SlugEdge);
}

/// A leading separator is dropped by collapsing.
proof fn lemma_collapse_lead_sep(s: Seq<char>)
    ensures
        collapse_seps(seq!['_'] + s) == collapse_seps(s),
    decreases s.len(),
{
    let u = seq!['_'] + s;
    if s.len() == 0 {
        assert(u.drop_last() =~= Seq::<char>::empty());
        assert(is_sep(u.last()));
        assert(collapse_seps(u.drop_last()).len() == 0);
        assert(collapse_seps(u) == collapse_seps(u.drop_last()));
        assert(collapse_seps(s) =~= Seq::<char>::empty());
    } else {
        lemma_collapse_lead_sep(s.drop_last());
        assert(u.drop_last() =~= seq!['_'] + s.drop_last());
        assert(u.last() == s.last());
    }
}

/// Sanitizing `_` followed by a clean segment gives the segment back.
proof fn lemma_sanitize_escaped(t: Seq<char>)
    requires
        clean_segment(t),
    ensures
        sanitized(seq!['_'] + t) == t,
{
    let u = seq!['_'] + t;
    assert forall|i: int| 0 <= i < u.len() implies !is_ctrl(#[trigger] u[i]) by {
        if i > 0 {
            assert(u[i] == t[i - 1]);
        }
    }
    lemma_remove_ctrl_none(u);
    lemma_collapse_lead_sep(t);
    if t.len() > 0 {
        assert(!in_set(TrimSet::SlugEdge, t[0]));
    }
    lemma_collapse_none(t);
    lemma_trim_none(t, TrimSet::SlugEdge);
}

/// A prefix of a clean segment that ends outside the edge set is clean.
proof fn lemma_clean_prefix(t: Seq<char>, k: int)
    requires
        clean_segment(t),
        0 < k <= t.len(),
        !in_set(TrimSet::SlugEdge, t[k - 1]),
    ensures
        clean_segment(t.take(k)),
{
    let p = t.take(k);
    assert forall|i: int| 0 <= i < p.len() implies !is_ctrl(#[trigger] p[i]) by {
        assert(p[i] == t[i]);
    }
    assert forall|i: int| 0 <= i < p.len() && is_sep(#[trigger] p[i]) implies p[i] == '_' by {
        assert(p[i] == t[i]);
    }
    assert forall|i: int| 0 <= i < p.len() - 1 && #[trigger] p[i] == '_' implies p[i + 1] != '_' by {
        assert(p[i] == t[i]);
        assert(p[i + 1] == t[i + 1]);
    }
    assert(p[0] == t[0]);
    assert(p.last() == t[k - 1]);
}

/// Slugging a slug gives it back, where decomposition leaves the slug as
/// it is, the device-name check (after case folding) answers for the
/// slug's sanitized form as it did on the first pass, and the cut to 80
/// chars left no `_` or `.` at the end.
pub proof fn lemma_slug_idempotent(x: Seq<char>)
    requires
        nfkd_form(slug(x)) == slug(x),
        is_reserved(lowercase_form(sanitized(slug(x)))) == is_reserved(
            lowercase_form(sanitized(nfkd_form(x))),
        ),
        slug(x).last() != '_' && slug(x).last() != '.',
    ensures
        slug(slug(x)) == slug(x),
{
    let t = sanitized(nfkd_form(x));
    let b = is_reserved(lowercase_form(t));
    let r = slug(x);
    lemma_sanitized_clean(nfkd_form(x));
    let safe = if b {
        seq!['_'] + t
    } else {
        t
    };
    assert(r == finished(t, b));
    if safe.len() == 0 {
        reveal_strlit("untitled");
        assert(r == UNTITLED@);
        assert(clean_segment(r));
        lemma_clean_fixed(r);
    } else if safe.len() <= MAX_SEGMENT {
        if b {
            lemma_sanitize_escaped(t);
        } else {
            lemma_clean_fixed(t);
        }
    } else {
        if b {
            assert(r =~= seq!['_'] + t.take(79));
            assert(r.last() == t[78]);
            assert(!is_ws(t[78])) by {
                if is_ws(t[78]) {
                    assert(is_sep(t[78]));
                }
            }
            lemma_clean_prefix(t, 79);
            lemma_sanitize_escaped(t.take(79));
        } else {
            assert(r =~= t.take(80));
            assert(r.last() == t[79]);
            assert(!is_ws(t[79])) by {
                if is_ws(t[79]) {
                    assert(is_sep(t[79]));
                }
            }
            lemma_clean_prefix(t, 80);
            lemma_clean_fixed(t.take(80));
        }
    }
}

} // verus!
