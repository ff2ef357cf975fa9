//! Ranking rules.  Each sub-score is a fraction in `[0, 1]`; the fixed
//! tiers are given here in hundredths (`0..=100`), so the rules are exact
//! integers and the caller turns them into fractions.  Recency windows
//! decide which buckets a search includes.
use crate::domain::job::{RecencyBucket, SponsorshipConfidence, WorkMode};
use crate::domain::settings::RemotePreference;
use crate::ingestion::normalize::{is_state_code, US_STATE_CODES};
use crate::text::{
    ascii_lower, ascii_lower_vec, char_is_alnum, chars_of, contains_str, contains_sub, is_alnum,
    string_of, vec_eq,
};
use crate::resume::tailor::{build_needle, is_needle};
use crate::sorted::{holds_string, insert_sorted, strictly_sorted};
use crate::unicode::{lowercase_form, to_lowercase};
use vstd::prelude::*;

verus! {

// ---------------------------------------------------------------------------
// Recency
// ---------------------------------------------------------------------------

/// Recency sub-score in hundredths.  Today is best; after 28 days we cut
/// sharply; an undated posting scores nothing.
pub open spec fn recency_pct(b: Option<RecencyBucket>) -> nat {
    match b {
        Some(RecencyBucket::Today) => 100,
        Some(RecencyBucket::Yesterday) => 95,
        Some(RecencyBucket::Week) => 85,
        Some(RecencyBucket::TwoWeeks) => 65,
        Some(RecencyBucket::Month) => 40,
        Some(RecencyBucket::Older) => 15,
        None => 0,
    }
}

/// Fresher postings score strictly more: a bucket that reaches fewer days
/// back always outscores an older one, and an undated posting scores below
/// every dated one.
pub proof fn lemma_recency_score_decreasing(a: RecencyBucket, b: RecencyBucket)
    ensures
        bucket_rank(a) < bucket_rank(b) ==> recency_pct(Some(b)) < recency_pct(Some(a)),
        bucket_rank(a) == bucket_rank(b) ==> a == b,
        recency_pct(None) < recency_pct(Some(a)),
        recency_pct(Some(a)) <= 100,
{
}

pub fn recency_score_pct(b: Option<RecencyBucket>) -> (r: u32)
    ensures
        r == recency_pct(b),
        r <= 100,
{
    match b {
        Some(RecencyBucket::Today) => 100,
        Some(RecencyBucket::Yesterday) => 95,
        Some(RecencyBucket::Week) => 85,
        Some(RecencyBucket::TwoWeeks) => 65,
        Some(RecencyBucket::Month) => 40,
        Some(RecencyBucket::Older) => 15,
        None => 0,
    }
}

/// The bucket a window of `days` days reaches: stage 1 keeps today and
/// yesterday, stage 2 extends to a week, and so on.
pub open spec fn bucket_for(days: u32) -> RecencyBucket {
    if days <= 1 {
        RecencyBucket::Yesterday
    } else if days <= 7 {
        RecencyBucket::Week
    } else if days <= 14 {
        RecencyBucket::TwoWeeks
    } else if days <= 28 {
        RecencyBucket::Month
    } else {
        RecencyBucket::Older
    }
}

pub fn bucket_for_days(days: u32) -> (b: RecencyBucket)
    ensures
        b == bucket_for(days),
{
    if days <= 1 {
        RecencyBucket::Yesterday
    } else if days <= 7 {
        RecencyBucket::Week
    } else if days <= 14 {
        RecencyBucket::TwoWeeks
    } else if days <= 28 {
        RecencyBucket::Month
    } else {
        RecencyBucket::Older
    }
}

/// The age, in days, up to which a bucket reaches; `Older` reaches
/// arbitrarily far back.
pub open spec fn bucket_rank(b: RecencyBucket) -> nat {
    match b {
        RecencyBucket::Today => 0,
        RecencyBucket::Yesterday => 1,
        RecencyBucket::Week => 7,
        RecencyBucket::TwoWeeks => 14,
        RecencyBucket::Month => 28,
        RecencyBucket::Older => u32::MAX as nat,
    }
}

/// Bucket `b` is included in a window expanded to `max_days`.
pub open spec fn within_window(b: Option<RecencyBucket>, max_days: u32) -> bool {
    match b {
        None => false,
        Some(b) => bucket_rank(b) <= max_days,
    }
}

pub fn in_window(b: Option<RecencyBucket>, max_days: u32) -> (r: bool)
    ensures
        r == within_window(b, max_days),
{
    let b = match b {
        Some(b) => b,
        None => {
            return false;
        },
    };
    let rank: u32 = match b {
        RecencyBucket::Today => 0,
        RecencyBucket::Yesterday => 1,
        RecencyBucket::Week => 7,
        RecencyBucket::TwoWeeks => 14,
        RecencyBucket::Month => 28,
        RecencyBucket::Older => u32::MAX,
    };
    rank <= max_days
}

/// Expanding a window never drops a bucket it already included.
pub proof fn lemma_window_monotone(b: Option<RecencyBucket>, d1: u32, d2: u32)
    requires
        d1 <= d2,
        within_window(b, d1),
    ensures
        within_window(b, d2),
{
}

/// A window that reaches a bucket's age includes that bucket; fresher
/// buckets are in every window that includes an older one.
pub proof fn lemma_window_includes_fresher(b: RecencyBucket, c: RecencyBucket, d: u32)
    requires
        within_window(Some(b), d),
        bucket_rank(c) <= bucket_rank(b),
    ensures
        within_window(Some(c), d),
{
}

/// Human-readable label of a bucket.
pub open spec fn recency_text(b: Option<RecencyBucket>) -> Seq<char> {
    match b {
        Some(RecencyBucket::Today) => "Today"@,
        Some(RecencyBucket::Yesterday) => "Yesterday"@,
        Some(RecencyBucket::Week) => "Last 7 days"@,
        Some(RecencyBucket::TwoWeeks) => "Last 14 days"@,
        Some(RecencyBucket::Month) => "Last 28 days"@,
        Some(RecencyBucket::Older) => "Older / unknown"@,
        None => "Older / unknown"@,
    }
}

pub fn recency_label(b: Option<RecencyBucket>) -> (r: &'static str)
    ensures
        r@ == recency_text(b),
{
    match b {
        Some(RecencyBucket::Today) => "Today",
        Some(RecencyBucket::Yesterday) => "Yesterday",
        Some(RecencyBucket::Week) => "Last 7 days",
        Some(RecencyBucket::TwoWeeks) => "Last 14 days",
        Some(RecencyBucket::Month) => "Last 28 days",
        Some(RecencyBucket::Older) => "Older / unknown",
        None => "Older / unknown",
    }
}

// ---------------------------------------------------------------------------
// Sponsorship and work mode
// ---------------------------------------------------------------------------

/// Sponsorship sub-score in hundredths; an explicit no-sponsorship signal
/// contributes nothing.
pub open spec fn sponsorship_pct(c: SponsorshipConfidence) -> nat {
    match c {
        SponsorshipConfidence::ExplicitSponsor => 100,
        SponsorshipConfidence::SponsorLikely => 90,
        SponsorshipConfidence::SponsorUnclear => 70,
        SponsorshipConfidence::SponsorUnlikely => 40,
        SponsorshipConfidence::ExplicitNoSponsorship => 0,
    }
}

pub fn sponsorship_score_pct(c: SponsorshipConfidence) -> (r: u32)
    ensures
        r == sponsorship_pct(c),
        r <= 100,
{
    match c {
        SponsorshipConfidence::ExplicitSponsor => 100,
        SponsorshipConfidence::SponsorLikely => 90,
        SponsorshipConfidence::SponsorUnclear => 70,
        SponsorshipConfidence::SponsorUnlikely => 40,
        SponsorshipConfidence::ExplicitNoSponsorship => 0,
    }
}

/// How strongly a confidence says the employer sponsors: an explicit
/// refusal lowest, then "unlikely", no signal, "likely", and an explicit
/// offer highest.
pub open spec fn sponsorship_level(c: SponsorshipConfidence) -> int {
    match c {
        SponsorshipConfidence::ExplicitNoSponsorship => 0,
        SponsorshipConfidence::SponsorUnlikely => 1,
        SponsorshipConfidence::SponsorUnclear => 2,
        SponsorshipConfidence::SponsorLikely => 3,
        SponsorshipConfidence::ExplicitSponsor => 4,
    }
}

/// The sponsorship sub-score strictly increases with the confidence that
/// the employer sponsors: a stronger signal always scores more, an explicit
/// refusal scores nothing and an explicit offer scores full marks.
pub proof fn lemma_sponsorship_score_increasing(a: SponsorshipConfidence, b: SponsorshipConfidence)
    ensures
        sponsorship_level(a) < sponsorship_level(b) ==> sponsorship_pct(a) < sponsorship_pct(b),
        sponsorship_level(a) == sponsorship_level(b) ==> a == b,
        sponsorship_pct(SponsorshipConfidence::ExplicitNoSponsorship) == 0,
        sponsorship_pct(SponsorshipConfidence::ExplicitSponsor) == 100,
        sponsorship_pct(a) <= 100,
{
}

/// Work-mode fit in hundredths, given the user's remote preference.
pub open spec fn work_mode_pct(mode: WorkMode, pref: RemotePreference) -> nat {
    match (mode, pref) {
        (WorkMode::Remote, _) => 100,
        (WorkMode::Hybrid, RemotePreference::RemoteFirst) => 55,
        (WorkMode::Hybrid, RemotePreference::HybridOk) => 85,
        (WorkMode::Hybrid, RemotePreference::OnsiteOk) => 75,
        (WorkMode::Onsite, RemotePreference::RemoteFirst) => 35,
        (WorkMode::Onsite, RemotePreference::HybridOk) => 55,
        (WorkMode::Onsite, RemotePreference::OnsiteOk) => 80,
        (WorkMode::Unknown, _) => 60,
    }
}

pub fn work_mode_fit_pct(mode: WorkMode, pref: RemotePreference) -> (r: u32)
    ensures
        r == work_mode_pct(mode, pref),
        r <= 100,
{
    match (mode, pref) {
        (WorkMode::Remote, _) => 100,
        (WorkMode::Hybrid, RemotePreference::RemoteFirst) => 55,
        (WorkMode::Hybrid, RemotePreference::HybridOk) => 85,
        (WorkMode::Hybrid, RemotePreference::OnsiteOk) => 75,
        (WorkMode::Onsite, RemotePreference::RemoteFirst) => 35,
        (WorkMode::Onsite, RemotePreference::HybridOk) => 55,
        (WorkMode::Onsite, RemotePreference::OnsiteOk) => 80,
        (WorkMode::Unknown, _) => 60,
    }
}

/// The work-mode fit honours the preference: remote beats hybrid, which
/// beats on-site, for a remote-first or hybrid-ok user; an on-site-ok user
/// ranks on-site above hybrid (remote still first).
pub proof fn lemma_work_mode_follows_preference(pref: RemotePreference)
    ensures
        work_mode_pct(WorkMode::Hybrid, pref) < work_mode_pct(WorkMode::Remote, pref),
        work_mode_pct(WorkMode::Onsite, pref) < work_mode_pct(WorkMode::Remote, pref),
        pref != RemotePreference::OnsiteOk ==> work_mode_pct(WorkMode::Onsite, pref) < work_mode_pct(
            WorkMode::Hybrid,
            pref,
        ),
        pref == RemotePreference::OnsiteOk ==> work_mode_pct(WorkMode::Hybrid, pref) < work_mode_pct(
            WorkMode::Onsite,
            pref,
        ),
{
}

/// Remote work scores highest whatever the preference.
pub proof fn lemma_remote_fits_best(mode: WorkMode, pref: RemotePreference)
    ensures
        work_mode_pct(mode, pref) <= work_mode_pct(WorkMode::Remote, pref),
{
}

// ---------------------------------------------------------------------------
// Location
// ---------------------------------------------------------------------------

/// A remote location counts as US unless it names another region; a remote
/// job with no location is assumed to be US.
pub open spec fn remote_us(loc: Option<Seq<char>>) -> bool {
    match loc {
        None => true,
        Some(l0) => us_remote_text(lowercase_form(l0)),
    }
}

/// Lower-cased location text of a remote job that counts as US: it names no
/// other region, and says US, United States, anywhere or remote.
pub open spec fn us_remote_text(l: Seq<char>) -> bool {
    if contains_sub(l, "canada"@) || contains_sub(l, "emea"@) || contains_sub(l, "europe"@)
        || contains_sub(l, "uk"@) || contains_sub(l, "india"@) || contains_sub(l, "apac"@) {
        false
    } else {
        contains_sub(l, "us"@) || contains_sub(l, "u.s"@) || contains_sub(l, "united states"@)
            || contains_sub(l, "anywhere"@) || contains_sub(l, "remote"@)
    }
}

pub fn is_remote_us(loc: Option<&str>) -> (b: bool)
    ensures
        b == remote_us(
            match loc {
                Some(l) => Some(l@),
                None => None,
            },
        ),
{
    match loc {
        Some(l) => remote_text_is_us(&to_lowercase(l)),
        None => true,
    }
}

/// Whether lower-cased remote-location text counts as US.
pub fn remote_text_is_us(lower: &str) -> (b: bool)
    ensures
        b == us_remote_text(lower@),
{
    let l = chars_of(lower);
    if contains_str(&l, "canada") || contains_str(&l, "emea") || contains_str(&l, "europe")
        || contains_str(&l, "uk") || contains_str(&l, "india") || contains_str(&l, "apac") {
        return false;
    }
    contains_str(&l, "us") || contains_str(&l, "u.s") || contains_str(&l, "united states")
        || contains_str(&l, "anywhere") || contains_str(&l, "remote")
}

pub fn is_us_state_code(c: &str) -> (b: bool)
    ensures
        b == is_state_code(c@),
{
    let v = chars_of(c);
    let mut k: usize = 0;
    while k < 52
        invariant
            k <= 52,
            v@ == c@,
            forall|j: int| 0 <= j < k ==> US_STATE_CODES@[j]@ != c@,
        decreases 52 - k,
    {
        if vec_eq(&chars_of(US_STATE_CODES[k]), &v) {
            return true;
        }
        k = k + 1;
    }
    false
}

/// Central/south Florida hints that earn a small extra boost.
pub open spec fn florida_hint(l: Seq<char>) -> bool {
    contains_sub(l, "miami"@) || contains_sub(l, "orlando"@) || contains_sub(l, "tampa"@)
        || contains_sub(l, "fort lauderdale"@) || contains_sub(l, "west palm"@)
}

/// The score of lower-cased location text with no usable state: a US
/// mention, another region, or neither.
pub open spec fn region_pct(l: Seq<char>) -> nat {
    if contains_sub(l, "united states"@) || contains_sub(l, "usa"@) || contains_sub(l, "u.s"@) {
        55
    } else if contains_sub(l, "canada"@) || contains_sub(l, "uk"@) || contains_sub(l, "emea"@)
        || contains_sub(l, "europe"@) || contains_sub(l, "india"@) || contains_sub(l, "apac"@) {
        20
    } else {
        45
    }
}

/// Location sub-score in hundredths.  Remote-anywhere-US wins; CA and FL
/// get a boost; every other US state stays eligible (NY included); a
/// location that names a non-US region is heavily penalized but not zero.
pub open spec fn location_pct(
    work_mode: WorkMode,
    location: Option<Seq<char>>,
    state: Option<Seq<char>>,
) -> nat {
    if work_mode == WorkMode::Remote {
        if remote_us(location) {
            100
        } else {
            85
        }
    } else if state == Some("CA"@) {
        88
    } else if state == Some("FL"@) {
        if location is Some && florida_hint(lowercase_form(location->0)) {
            90
        } else {
            85
        }
    } else if state is Some && is_state_code(state->0) {
        70
    } else {
        match location {
            Some(l0) => region_pct(lowercase_form(l0)),
            None => 45,
        }
    }
}

pub fn location_score_pct(work_mode: WorkMode, location: Option<&str>, state: Option<&str>) -> (r:
    u32)
    ensures
        r == location_pct(
            work_mode,
            match location {
                Some(l) => Some(l@),
                None => None,
            },
            match state {
                Some(s) => Some(s@),
                None => None,
            },
        ),
        r <= 100,
{
    if work_mode == WorkMode::Remote {
        if is_remote_us(location) {
            return 100;
        }
        return 85;
    }
    if let Some(code) = state {
        if crate::text::str_eq(code, "CA") {
            return 88;
        }
        if crate::text::str_eq(code, "FL") {
            if let Some(l) = location {
                if has_florida_hint(&to_lowercase(l)) {
                    return 90;
                }
            }
            return 85;
        }
        if is_us_state_code(code) {
            return 70;
        }
    }
    match location {
        Some(l) => region_score_pct(&to_lowercase(l)),
        None => 45,
    }
}

/// Whether lower-cased location text names a central/south Florida city.
pub fn has_florida_hint(lower: &str) -> (b: bool)
    ensures
        b == florida_hint(lower@),
{
    let l = chars_of(lower);
    contains_str(&l, "miami") || contains_str(&l, "orlando") || contains_str(&l, "tampa")
        || contains_str(&l, "fort lauderdale") || contains_str(&l, "west palm")
}

/// The score of lower-cased location text when no state decides.
pub fn region_score_pct(lower: &str) -> (r: u32)
    ensures
        r == region_pct(lower@),
{
    let l = chars_of(lower);
    if contains_str(&l, "united states") || contains_str(&l, "usa") || contains_str(&l, "u.s") {
        return 55;
    }
    if contains_str(&l, "canada") || contains_str(&l, "uk") || contains_str(&l, "emea")
        || contains_str(&l, "europe") || contains_str(&l, "india") || contains_str(&l, "apac") {
        return 20;
    }
    45
}

/// Remote-anywhere-US scores at least as high as any other location.
pub proof fn lemma_remote_us_location_best(
    location: Option<Seq<char>>,
    w: WorkMode,
    l2: Option<Seq<char>>,
    s2: Option<Seq<char>>,
)
    requires
        remote_us(location),
    ensures
        location_pct(w, l2, s2) <= location_pct(WorkMode::Remote, location, None),
{
}

/// Two non-remote jobs in US states other than CA and FL score the same,
/// whatever the state (New York is not penalized below Illinois).
pub proof fn lemma_other_states_equal(
    w1: WorkMode,
    l1: Option<Seq<char>>,
    c1: Seq<char>,
    w2: WorkMode,
    l2: Option<Seq<char>>,
    c2: Seq<char>,
)
    requires
        w1 != WorkMode::Remote,
        w2 != WorkMode::Remote,
        is_state_code(c1),
        is_state_code(c2),
        c1 != "CA"@ && c1 != "FL"@,
        c2 != "CA"@ && c2 != "FL"@,
    ensures
        location_pct(w1, l1, Some(c1)) == location_pct(w2, l2, Some(c2)),
        location_pct(w1, l1, Some(c1)) == 70,
{
}

/// A location can lower the score but never to zero.
pub proof fn lemma_location_never_zero(w: WorkMode, l: Option<Seq<char>>, s: Option<Seq<char>>)
    ensures
        20 <= location_pct(w, l, s) <= 100,
{
}

// ---------------------------------------------------------------------------
// Tokens
// ---------------------------------------------------------------------------

/// The pieces of `s` between non-alphanumeric chars (`str::split` with a
/// char predicate: empty pieces included, a final piece always present),
/// once `cur` has been read.
pub open spec fn pieces_from(s: Seq<char>, cur: Seq<char>) -> Seq<Seq<char>>
    decreases s.len(),
{
    if s.len() == 0 {
        seq![cur]
    } else if !is_alnum(s[0]) {
        seq![cur] + pieces_from(s.drop_first(), seq![])
    } else {
        pieces_from(s.drop_first(), cur.push(s[0]))
    }
}

pub open spec fn long_piece_fn() -> spec_fn(Seq<char>) -> bool {
    |t: Seq<char>| t.len() > 2
}

/// The title tokens of `s`: alphanumeric pieces longer than two bytes,
/// ASCII-lowercased.
pub open spec fn tokens_of(s: Seq<char>) -> Seq<Seq<char>> {
    pieces_from(s, seq![]).filter(long_piece_fn()).map_values(
        |t: Seq<char>| ascii_lower(t),
    )
}

pub proof fn lemma_filter_push(s: Seq<Seq<char>>, x: Seq<char>)
    ensures
        s.push(x).filter(long_piece_fn()) == if x.len() > 2 {
            s.filter(long_piece_fn()).push(x)
        } else {
            s.filter(long_piece_fn())
        },
{
    reveal_with_fuel(Seq::filter, 1);
    assert(s.push(x).drop_last() =~= s);
}

/// Split `s` on non-alphanumeric chars, keep pieces longer than two bytes,
/// and ASCII-lowercase them.
pub fn tokenize(s: &str) -> (r: Vec<String>)
    ensures
        r.deep_view() == tokens_of(s@),
{
    let v = chars_of(s);
    let ghost all = pieces_from(v@, seq![]);
    let mut out: Vec<String> = Vec::new();
    let mut cur: Vec<char> = Vec::new();
    let mut i: usize = 0;
    let ghost done: Seq<Seq<char>> = seq![];
    assert(v@.skip(0) =~= v@);
    while i < v.len()
        invariant
            i <= v.len(),
            v@ == s@,
            all == pieces_from(v@, seq![]),
            all == done + pieces_from(v@.skip(i as int), cur@),
            out.deep_view() == done.filter(long_piece_fn()).map_values(
                |t: Seq<char>| ascii_lower(t),
            ),
        decreases v.len() - i,
    {
        let ghost rest = v@.skip(i as int);
        assert(rest[0] == v@[i as int]);
        assert(rest.drop_first() =~= v@.skip(i + 1));
        if !char_is_alnum(v[i]) {
            proof {
                lemma_filter_push(done, cur@);
            }
            if cur.len() > 2 {
                let ghost before = out.deep_view();
                let t = ascii_lower_vec(&cur);
                out.push(string_of(&t));
                assert(out.deep_view() =~= before.push(ascii_lower(cur@)));
            }
            assert(done.push(cur@).filter(long_piece_fn()).map_values(
                |t: Seq<char>| ascii_lower(t),
            ) =~= out.deep_view());
            assert(done + (seq![cur@] + pieces_from(v@.skip(i + 1), seq![])) =~= done.push(cur@)
                + pieces_from(v@.skip(i + 1), seq![]));
            proof {
                done = done.push(cur@);
            }
            cur = Vec::new();
        } else {
            cur.push(v[i]);
        }
        i = i + 1;
    }
    assert(v@.skip(i as int) =~= Seq::<char>::empty());
    proof {
        lemma_filter_push(done, cur@);
    }
    if cur.len() > 2 {
        let ghost before = out.deep_view();
        let t = ascii_lower_vec(&cur);
        out.push(string_of(&t));
        assert(out.deep_view() =~= before.push(ascii_lower(cur@)));
    }
    assert(all =~= done.push(cur@));
    assert(done.push(cur@).filter(long_piece_fn()).map_values(
        |t: Seq<char>| ascii_lower(t),
    ) =~= out.deep_view());
    out
}

/// There are no more long pieces than chars.
pub proof fn lemma_long_pieces(s: Seq<char>, cur: Seq<char>)
    ensures
        pieces_from(s, cur).filter(long_piece_fn()).len() <= s.len() + cur.len(),
    decreases s.len(),
{
    reveal_with_fuel(Seq::filter, 2);
    Seq::<Seq<char>>::empty().lemma_filter_push(cur, long_piece_fn());
    assert(Seq::<Seq<char>>::empty().push(cur) =~= seq![cur]);
    if s.len() > 0 {
        if !is_alnum(s[0]) {
            lemma_long_pieces(s.drop_first(), seq![]);
            Seq::filter_distributes_over_add(
                seq![cur],
                pieces_from(s.drop_first(), seq![]),
                long_piece_fn(),
            );
        } else {
            lemma_long_pieces(s.drop_first(), cur.push(s[0]));
        }
    }
}

/// `set` holds exactly the entries of `items`, sorted, each once.
pub open spec fn is_set_of(set: Seq<Seq<char>>, items: Seq<Seq<char>>) -> bool {
    &&& strictly_sorted(set)
    &&& forall|x: Seq<char>| #[trigger] set.contains(x) <==> items.contains(x)
}

/// The distinct tokens of `s`, sorted.
pub fn token_set(s: &str) -> (r: Vec<String>)
    ensures
        is_set_of(r.deep_view(), tokens_of(s@)),
        r@.len() <= s@.len(),
{
    let toks = tokenize(s);
    let ghost ts = toks.deep_view();
    proof {
        lemma_long_pieces(s@, seq![]);
    }
    let mut r: Vec<String> = Vec::new();
    let mut i: usize = 0;
    while i < toks.len()
        invariant
            i <= toks.len(),
            ts == toks.deep_view(),
            ts == tokens_of(s@),
            ts.len() <= s@.len(),
            r@.len() <= i,
            strictly_sorted(r.deep_view()),
            forall|x: Seq<char>| #[trigger]
                r.deep_view().contains(x) <==> ts.take(i as int).contains(x),
        decreases toks.len() - i,
    {
        let ghost before = r.deep_view();
        assert(ts[i as int] == toks[i as int]@);
        insert_sorted(&mut r, toks[i].clone());
        let ghost t0 = ts.take(i as int);
        let ghost t1 = ts.take(i + 1);
        assert forall|x: Seq<char>| #[trigger] r.deep_view().contains(x) <==> t1.contains(x) by {
            if t1.contains(x) {
                let k = choose|k: int| 0 <= k < t1.len() && t1[k] == x;
                if k < i {
                    assert(t0[k] == x);
                }
            }
            if t0.contains(x) {
                let k = choose|k: int| 0 <= k < t0.len() && t0[k] == x;
                assert(t1[k] == x);
            }
            if x == ts[i as int] {
                assert(t1[i as int] == x);
            }
        }
        i = i + 1;
    }
    assert(ts.take(i as int) =~= ts);
    r
}

/// How many entries of `a` are in `b`.
pub open spec fn common(a: Seq<Seq<char>>, b: Seq<Seq<char>>) -> int
    decreases a.len(),
{
    if a.len() == 0 {
        0
    } else {
        common(a.drop_last(), b) + if b.contains(a.last()) {
            1int
        } else {
            0
        }
    }
}

pub proof fn lemma_common_bounds(a: Seq<Seq<char>>, b: Seq<Seq<char>>)
    ensures
        0 <= common(a, b) <= a.len(),
    decreases a.len(),
{
    if a.len() > 0 {
        lemma_common_bounds(a.drop_last(), b);
    }
}

/// How many entries of `a` are in `b`.
pub fn common_count(a: &Vec<String>, b: &Vec<String>) -> (r: usize)
    ensures
        r == common(a.deep_view(), b.deep_view()),
{
    let ghost av = a.deep_view();
    let mut n: usize = 0;
    let mut i: usize = 0;
    while i < a.len()
        invariant
            i <= a.len(),
            av == a.deep_view(),
            n == common(av.take(i as int), b.deep_view()),
        decreases a.len() - i,
    {
        proof {
            assert(av.take(i + 1).drop_last() =~= av.take(i as int));
            lemma_common_bounds(av.take(i as int), b.deep_view());
        }
        assert(av[i as int] == a[i as int]@);
        if holds_string(b, a[i].as_str()) {
            n = n + 1;
        }
        i = i + 1;
    }
    assert(av.take(i as int) =~= av);
    n
}

/// Sizes of the intersection and the union of two sets (each without
/// repeats): the union is `a` plus the entries of `b` not in `a`.
pub open spec fn overlap_of(a: Seq<Seq<char>>, b: Seq<Seq<char>>) -> (int, int) {
    (common(a, b), a.len() + (b.len() - common(b, a)))
}

fn overlap(a: &Vec<String>, b: &Vec<String>) -> (r: (usize, usize))
    requires
        a@.len() + b@.len() <= usize::MAX,
    ensures
        r.0 == overlap_of(a.deep_view(), b.deep_view()).0,
        r.1 == overlap_of(a.deep_view(), b.deep_view()).1,
{
    let inter = common_count(a, b);
    let shared = common_count(b, a);
    proof {
        lemma_common_bounds(b.deep_view(), a.deep_view());
    }
    (inter, a.len() + (b.len() - shared))
}

// ---------------------------------------------------------------------------
// Skills and title overlap
// ---------------------------------------------------------------------------

/// The lower-cased skills of `xs`, as a sorted set.
pub open spec fn lower_set(xs: Seq<Seq<char>>) -> Seq<Seq<char>> {
    crate::resume::tailor::needle_of(xs)
}

/// Counts behind the skills sub-score: with no target skills there is
/// nothing to count; otherwise the number of target skills found in the
/// JD, the number of target skills, and the size of their union (all
/// compared lower-cased, each skill once).
pub open spec fn skill_overlap_of(jd_skills: Seq<Seq<char>>, target_skills: Seq<Seq<char>>) -> Option<
    (int, int, int),
> {
    if target_skills.len() == 0 {
        None
    } else {
        let jd = lower_set(jd_skills);
        let target = lower_set(target_skills);
        Some((overlap_of(target, jd).0, target.len() as int, overlap_of(target, jd).1))
    }
}

pub fn skill_overlap(jd_skills: &[String], target_skills: &[String]) -> (r: Option<
    (usize, usize, usize),
>)
    requires
        jd_skills@.len() + target_skills@.len() <= usize::MAX,
    ensures
        match skill_overlap_of(jd_skills.deep_view(), target_skills.deep_view()) {
            None => r is None,
            Some(c) => r matches Some(x) && x.0 == c.0 && x.1 == c.1 && x.2 == c.2,
        },
{
    if target_skills.len() == 0 {
        return None;
    }
    let jd = build_needle(jd_skills, &[]);
    let target = build_needle(target_skills, &[]);
    proof {
        assert(jd_skills.deep_view() + Seq::<Seq<char>>::empty() =~= jd_skills.deep_view());
        assert(target_skills.deep_view() + Seq::<Seq<char>>::empty() =~= target_skills.deep_view());
        crate::resume::tailor::lemma_needle_unique(jd.deep_view(), jd_skills.deep_view());
        crate::resume::tailor::lemma_needle_unique(target.deep_view(), target_skills.deep_view());
    }
    let (inter, union) = overlap(&target, &jd);
    Some((inter, target.len(), union))
}

/// Counts behind the title sub-score.
#[derive(Debug, Clone)]
pub enum TitleOverlap {
    /// The user named no preferred roles.
    NoPreferences,
    /// The job title has no token.
    NoTitleTokens,
    /// Per preferred role: the intersection and union sizes of its tokens
    /// with the title's, or nothing when the role has no token.
    Roles(Vec<Option<(usize, usize)>>),
}

/// The counts for one preferred role.
pub open spec fn role_overlap(title: Seq<char>, role: Seq<char>) -> Option<(int, int)> {
    let rt = set_of_tokens(role);
    if rt.len() == 0 {
        None
    } else {
        Some(overlap_of(set_of_tokens(title), rt))
    }
}

/// The distinct tokens of `s`, sorted.
pub open spec fn set_of_tokens(s: Seq<char>) -> Seq<Seq<char>> {
    choose|set: Seq<Seq<char>>| is_set_of(set, tokens_of(s))
}

pub proof fn lemma_set_unique(set: Seq<Seq<char>>, items: Seq<Seq<char>>)
    requires
        is_set_of(set, items),
    ensures
        set == choose|x: Seq<Seq<char>>| is_set_of(x, items),
{
    let m = choose|x: Seq<Seq<char>>| is_set_of(x, items);
    assert(is_set_of(m, items));
    assert forall|x: Seq<char>| set.contains(x) <==> m.contains(x) by {
        assert(set.contains(x) == items.contains(x));
        assert(m.contains(x) == items.contains(x));
    }
    crate::sorted::lemma_sorted_unique(set, m);
}

/// Token overlap of a job title with each preferred role.
pub fn title_overlap(title: &str, preferred_roles: &[String]) -> (r: TitleOverlap)
    requires
        forall|i: int| 0 <= i < preferred_roles@.len() ==> title@.len() + (#[trigger] preferred_roles@[i])@.len() <= usize::MAX,
    ensures
        preferred_roles@.len() == 0 ==> r is NoPreferences,
        preferred_roles@.len() > 0 && set_of_tokens(title@).len() == 0 ==> r is NoTitleTokens,
        preferred_roles@.len() > 0 && set_of_tokens(title@).len() > 0 ==> (r matches TitleOverlap::Roles(v)
            && v@.len() == preferred_roles@.len() && forall|i: int|
            0 <= i < v@.len() ==> match role_overlap(title@, #[trigger] preferred_roles@[i]@) {
                None => v@[i] is None,
                Some(c) => v@[i] matches Some(x) && x.0 == c.0 && x.1 == c.1,
            }),
{
    if preferred_roles.len() == 0 {
        return TitleOverlap::NoPreferences;
    }
    let job = token_set(title);
    proof {
        lemma_set_unique(job.deep_view(), tokens_of(title@));
    }
    if job.len() == 0 {
        return TitleOverlap::NoTitleTokens;
    }
    let mut out: Vec<Option<(usize, usize)>> = Vec::new();
    let mut i: usize = 0;
    while i < preferred_roles.len()
        invariant
            i <= preferred_roles.len(),
            job.deep_view() == set_of_tokens(title@),
            job@.len() <= title@.len(),
            forall|k: int| 0 <= k < preferred_roles@.len() ==> title@.len() + (#[trigger] preferred_roles@[k])@.len() <= usize::MAX,
            out@.len() == i,
            forall|k: int|
                0 <= k < i ==> match role_overlap(title@, #[trigger] preferred_roles@[k]@) {
                    None => out@[k] is None,
                    Some(c) => out@[k] matches Some(x) && x.0 == c.0 && x.1 == c.1,
                },
        decreases preferred_roles.len() - i,
    {
        let role = token_set(preferred_roles[i].as_str());
        proof {
            lemma_set_unique(role.deep_view(), tokens_of(preferred_roles@[i as int]@));
        }
        assert(title@.len() + preferred_roles@[i as int]@.len() <= usize::MAX);
        if role.len() == 0 {
            out.push(None);
        } else {
            let c = overlap(&job, &role);
            out.push(Some(c));
        }
        i = i + 1;
    }
    TitleOverlap::Roles(out)
}

} // verus!
