//! End-to-end ingestion: the decisions taken for each fetched posting and
//! the per-run bookkeeping.  The fetching, the database and the file tree
//! are driven from outside; this module says what to do with what came back.
use crate::dates::CalendarDate;
use crate::domain::ingestion_run::{SourceOutcome, SummaryEntry};
use crate::domain::job::{JobIngest, RecencyBucket, SponsorshipConfidence, WorkMode};
use crate::domain::settings::SponsorshipSensitivity;
use crate::ingestion::normalize::{
    alias_view, detect_sponsorship, detect_state, detect_work_mode, extract_skills,
    jd_scan_cut_ok, normalize_name, normalized, recency_bucket, recency_of, skill_found,
    sponsorship_of, state_of, work_mode_haystack, work_mode_of,
};
use crate::ranking::{in_window, within_window};
use crate::unicode::lowercase_form;
use crate::sorted::{lemma_insert_sorted_at, lemma_lt_total, seq_lt, strictly_sorted, vec_lt};
use crate::text::{
    char_is_whitespace, vec_eq, chars_of, is_ws, lemma_trim_range, string_of, sub_vec, trim, trim_vec,
    TrimSet,
};
use vstd::prelude::*;

verus! {

// ---------------------------------------------------------------------------
// JD summaries
// ---------------------------------------------------------------------------

/// Whether a tag is open after reading `s` (a `<` opens one, a `>` closes it).
pub open spec fn tag_open_after(s: Seq<char>) -> bool
    decreases s.len(),
{
    if s.len() == 0 {
        false
    } else if s.last() == '<' {
        true
    } else if s.last() == '>' {
        false
    } else {
        tag_open_after(s.drop_last())
    }
}

/// `s` with every `<...>` tag dropped and each `>` turned into a space.
pub open spec fn untagged(s: Seq<char>) -> Seq<char>
    decreases s.len(),
{
    if s.len() == 0 {
        seq![]
    } else {
        let c = s.last();
        let prev = untagged(s.drop_last());
        if c == '<' {
            prev
        } else if c == '>' {
            prev.push(' ')
        } else if !tag_open_after(s.drop_last()) {
            prev.push(c)
        } else {
            prev
        }
    }
}

/// `s` with every run of whitespace replaced by one space.
pub open spec fn collapsed(s: Seq<char>) -> Seq<char>
    decreases s.len(),
{
    if s.len() == 0 {
        seq![]
    } else {
        let c = s.last();
        let prev = collapsed(s.drop_last());
        if !is_ws(c) {
            prev.push(c)
        } else if s.len() > 1 && is_ws(s[s.len() - 2]) {
            prev
        } else {
            prev.push(' ')
        }
    }
}

/// Tag-free, whitespace-collapsed, trimmed text of an HTML fragment.
pub open spec fn stripped_html(s: Seq<char>) -> Seq<char> {
    trim(collapsed(untagged(s)))
}

/// Text in which every whitespace char is a plain space and no two spaces
/// are adjacent.
pub open spec fn single_spaced(s: Seq<char>) -> bool {
    &&& forall|k: int| 0 <= k < s.len() && is_ws(#[trigger] s[k]) ==> s[k] == ' '
    &&& forall|k: int| 0 <= k < s.len() - 1 && #[trigger] s[k] == ' ' ==> s[k + 1] != ' '
}

/// Maximum number of chars of a JD summary.
pub const SUMMARY_CHARS: usize = 400;

/// Maximum number of chars of an error kept in a run summary.
pub const ERROR_CHARS: usize = 200;

/// The summary stored beside a JD: its stripped text, cut to
/// `SUMMARY_CHARS` chars, or nothing if the JD is missing or blank.
pub open spec fn summary_of(jd: Option<Seq<char>>) -> Option<Seq<char>> {
    match jd {
        None => None,
        Some(t) => {
            let s = stripped_html(t);
            if s.len() == 0 {
                None
            } else if s.len() <= SUMMARY_CHARS {
                Some(s)
            } else {
                Some(s.take(SUMMARY_CHARS as int))
            }
        },
    }
}

proof fn lemma_collapsed_shape(s: Seq<char>)
    ensures
        single_spaced(collapsed(s)),
        collapsed(s).len() > 0 ==> (collapsed(s).last() == ' ' <==> is_ws(s.last())),
        collapsed(s).len() == 0 ==> s.len() == 0,
    decreases s.len(),
{
    if s.len() > 0 {
        let p = s.drop_last();
        lemma_collapsed_shape(p);
        let prev = collapsed(p);
        if is_ws(s.last()) && s.len() > 1 && is_ws(s[s.len() - 2]) {
            assert(p.last() == s[s.len() - 2]);
        } else if is_ws(s.last()) {
            if prev.len() > 0 {
                assert(p.last() == s[s.len() - 2]);
            }
            assert(collapsed(s) == prev.push(' '));
            assert forall|k: int| 0 <= k < collapsed(s).len() - 1 && #[trigger] collapsed(s)[k]
                == ' ' implies collapsed(s)[k + 1] != ' ' by {
                if k + 1 < prev.len() {
                    assert(collapsed(s)[k] == prev[k]);
                    assert(collapsed(s)[k + 1] == prev[k + 1]);
                }
            }
            assert forall|k: int| 0 <= k < collapsed(s).len() && is_ws(#[trigger] collapsed(s)[k])
                implies collapsed(s)[k] == ' ' by {
                if k < prev.len() {
                    assert(collapsed(s)[k] == prev[k]);
                }
            }
        } else {
            assert(collapsed(s) == prev.push(s.last()));
            assert forall|k: int| 0 <= k < collapsed(s).len() - 1 && #[trigger] collapsed(s)[k]
                == ' ' implies collapsed(s)[k + 1] != ' ' by {
                if k + 1 < prev.len() {
                    assert(collapsed(s)[k] == prev[k]);
                    assert(collapsed(s)[k + 1] == prev[k + 1]);
                }
            }
            assert forall|k: int| 0 <= k < collapsed(s).len() && is_ws(#[trigger] collapsed(s)[k])
                implies collapsed(s)[k] == ' ' by {
                if k < prev.len() {
                    assert(collapsed(s)[k] == prev[k]);
                }
            }
        }
    }
}

/// The text that `strip_html` leaves is trimmed and single-spaced: every
/// whitespace char is a plain space, no two spaces are adjacent, and it
/// neither starts nor ends with a space.  In particular it holds no line
/// break.
pub proof fn lemma_stripped_shape(s: Seq<char>)
    ensures
        single_spaced(stripped_html(s)),
        stripped_html(s).len() > 0 ==> !is_ws(stripped_html(s)[0]) && !is_ws(
            stripped_html(s).last(),
        ),
        forall|k: int| 0 <= k < stripped_html(s).len() ==> #[trigger] stripped_html(s)[k] != '\n',
{
    let c = collapsed(untagged(s));
    lemma_collapsed_shape(untagged(s));
    let (a, b) = lemma_trim_range(c, TrimSet::Whitespace);
    let t = stripped_html(s);
    assert(t == c.subrange(a, b));
    assert forall|k: int| 0 <= k < t.len() && is_ws(#[trigger] t[k]) implies t[k] == ' ' by {
        assert(t[k] == c[a + k]);
    }
    assert forall|k: int| 0 <= k < t.len() - 1 && #[trigger] t[k] == ' ' implies t[k + 1]
        != ' ' by {
        assert(t[k] == c[a + k]);
        assert(t[k + 1] == c[a + k + 1]);
    }
    assert forall|k: int| 0 <= k < t.len() implies #[trigger] t[k] != '\n' by {
        assert(t[k] == c[a + k]);
        assert(is_ws('\n'));
    }
}

/// Remove tags and collapse whitespace, leaving plain text.
pub fn strip_html(html: &str) -> (r: String)
    ensures
        r@ == stripped_html(html@),
{
    let v = chars_of(html);
    let mut out: Vec<char> = Vec::new();
    let mut in_tag = false;
    let mut i: usize = 0;
    while i < v.len()
        invariant
            i <= v.len(),
            out@ == untagged(v@.take(i as int)),
            in_tag == tag_open_after(v@.take(i as int)),
        decreases v.len() - i,
    {
        let ch = v[i];
        assert(v@.take(i + 1).drop_last() =~= v@.take(i as int));
        assert(v@.take(i + 1).last() == ch);
        if ch == '<' {
            in_tag = true;
        } else if ch == '>' {
            in_tag = false;
            out.push(' ');
        } else if !in_tag {
            out.push(ch);
        }
        i = i + 1;
    }
    assert(v@.take(i as int) =~= v@);
    let mut result: Vec<char> = Vec::new();
    let mut prev_space = false;
    let mut j: usize = 0;
    while j < out.len()
        invariant
            j <= out.len(),
            result@ == collapsed(out@.take(j as int)),
            prev_space == (j > 0 && is_ws(out@[j - 1])),
        decreases out.len() - j,
    {
        let ch = out[j];
        let ghost w = out@.take(j + 1);
        assert(w.drop_last() =~= out@.take(j as int));
        assert(w.last() == ch);
        if j > 0 {
            assert(w[w.len() - 2] == out@[j - 1]);
        }
        if char_is_whitespace(ch) {
            if !prev_space {
                result.push(' ');
            }
            prev_space = true;
        } else {
            result.push(ch);
            prev_space = false;
        }
        j = j + 1;
    }
    assert(out@.take(j as int) =~= out@);
    string_of(&trim_vec(&result, TrimSet::Whitespace))
}

/// A short plain-text summary of a JD.  The stripped text holds no line
/// break (`lemma_stripped_shape`), so it is a single line: the summary is
/// that line, cut to `SUMMARY_CHARS` chars.
pub fn summarize(jd: Option<&str>) -> (r: Option<String>)
    ensures
        r.deep_view() == summary_of(
            match jd {
                Some(t) => Some(t@),
                None => None,
            },
        ),
{
    let text = match jd {
        Some(t) => t,
        None => {
            return None;
        },
    };
    let stripped = chars_of(strip_html(text).as_str());
    if stripped.len() == 0 {
        None
    } else if stripped.len() <= SUMMARY_CHARS {
        Some(string_of(&stripped))
    } else {
        Some(string_of(&sub_vec(&stripped, 0, SUMMARY_CHARS)))
    }
}

/// An error message as kept in a run summary: its first `ERROR_CHARS` chars.
pub fn truncate_err(s: &str) -> (r: String)
    ensures
        r@ == if s@.len() <= ERROR_CHARS {
            s@
        } else {
            s@.take(ERROR_CHARS as int)
        },
{
    let v = chars_of(s);
    if v.len() <= ERROR_CHARS {
        string_of(&v)
    } else {
        string_of(&sub_vec(&v, 0, ERROR_CHARS))
    }
}

// ---------------------------------------------------------------------------
// Run bookkeeping
// ---------------------------------------------------------------------------

/// What a run reports when it ends.
#[derive(Debug, Clone)]
pub struct IngestionOutcome {
    pub run_id: i64,
    pub total_fetched: u32,
    pub total_filtered: u32,
    pub total_prepared: u32,
}

/// The per-source counters that add up to a run's totals.
#[derive(Debug, Clone, Copy, PartialEq, Eq, Structural)]
pub enum Counter {
    Filtered,
    Prepared,
}

pub open spec fn count(e: SummaryEntry, c: Counter) -> int {
    match c {
        Counter::Filtered => e.outcome.filtered as int,
        Counter::Prepared => e.outcome.prepared as int,
    }
}

/// Sum of one counter over all sources.
pub open spec fn sum_count(s: Seq<SummaryEntry>, c: Counter) -> int
    decreases s.len(),
{
    if s.len() == 0 {
        0
    } else {
        sum_count(s.drop_last(), c) + count(s.last(), c)
    }
}

/// The source names of a summary, in order.
pub open spec fn names(s: Seq<SummaryEntry>) -> Seq<Seq<char>> {
    s.map_values(|e: SummaryEntry| e.source@)
}

/// A source that has just been seen: all counters zero, no errors.
pub open spec fn fresh_entry(e: SummaryEntry, name: Seq<char>) -> bool {
    &&& e.source@ == name
    &&& e.outcome.fetched == 0
    &&& e.outcome.filtered == 0
    &&& e.outcome.prepared == 0
    &&& e.outcome.errors@.len() == 0
}

pub proof fn lemma_sum_update(s: Seq<SummaryEntry>, i: int, x: SummaryEntry, c: Counter)
    requires
        0 <= i < s.len(),
    ensures
        sum_count(s.update(i, x), c) == sum_count(s, c) - count(s[i], c) + count(x, c),
    decreases s.len(),
{
    if i == s.len() - 1 {
        assert(s.update(i, x).drop_last() =~= s.drop_last());
    } else {
        lemma_sum_update(s.drop_last(), i, x, c);
        assert(s.update(i, x).drop_last() =~= s.drop_last().update(i, x));
    }
}

pub proof fn lemma_sum_insert(s: Seq<SummaryEntry>, i: int, x: SummaryEntry, c: Counter)
    requires
        0 <= i <= s.len(),
    ensures
        sum_count(s.insert(i, x), c) == sum_count(s, c) + count(x, c),
    decreases s.len(),
{
    if i == s.len() {
        assert(s.insert(i, x).drop_last() =~= s);
    } else {
        lemma_sum_insert(s.drop_last(), i, x, c);
        assert(s.insert(i, x).drop_last() =~= s.drop_last().insert(i, x));
    }
}

/// If every source has no more of `a` than of `b`, neither has the run.
pub proof fn lemma_sum_le(s: Seq<SummaryEntry>, a: Counter, b: Counter)
    requires
        forall|k: int| 0 <= k < s.len() ==> count(#[trigger] s[k], a) <= count(s[k], b),
    ensures
        sum_count(s, a) <= sum_count(s, b),
    decreases s.len(),
{
    if s.len() > 0 {
        assert(count(s[s.len() - 1], a) <= count(s[s.len() - 1], b));
        lemma_sum_le(s.drop_last(), a, b);
    }
}

/// One source's counter is part of the run's sum.
pub proof fn lemma_sum_ge_one(s: Seq<SummaryEntry>, i: int, c: Counter)
    requires
        0 <= i < s.len(),
    ensures
        count(s[i], c) <= sum_count(s, c),
    decreases s.len(),
{
    lemma_sum_nonneg(s.drop_last(), c);
    if i < s.len() - 1 {
        lemma_sum_ge_one(s.drop_last(), i, c);
    }
}

pub proof fn lemma_sum_nonneg(s: Seq<SummaryEntry>, c: Counter)
    ensures
        sum_count(s, c) >= 0,
    decreases s.len(),
{
    if s.len() > 0 {
        lemma_sum_nonneg(s.drop_last(), c);
    }
}

/// The running summary of an ingestion run: one entry per source name,
/// ordered by name, the run's totals, the new folder trees built against
/// the run's cap, and (as a ghost count) the fetched postings not yet
/// recorded.
pub struct RunTally {
    pub summary: Vec<SummaryEntry>,
    pub total_fetched: u32,
    pub total_filtered: u32,
    pub total_prepared: u32,
    /// New folder trees built in this run.
    pub trees_built: u32,
    /// The most jobs a run prepares before it stops building folder trees
    /// (`max_jobs_to_prepare_per_run`).
    pub cap: u32,
    /// Postings fetched but not yet recorded as persisted or failed.
    pub pending: Ghost<nat>,
}

impl RunTally {
    /// Entries are ordered by name, with no name twice; the filtered and
    /// prepared totals are the sums over the entries; what a source
    /// prepared it also counted as filtered; every filtered posting (and
    /// every one still pending) was fetched; and every folder tree built
    /// belongs to a prepared job, within the cap.
    pub open spec fn wf(&self) -> bool {
        &&& strictly_sorted(names(self.summary@))
        &&& self.total_filtered == sum_count(self.summary@, Counter::Filtered)
        &&& self.total_prepared == sum_count(self.summary@, Counter::Prepared)
        &&& forall|k: int|
            0 <= k < self.summary@.len() ==> (#[trigger] self.summary@[k]).outcome.prepared
                <= self.summary@[k].outcome.filtered
        &&& self.total_filtered + self.pending@ <= self.total_fetched
        &&& self.trees_built <= self.total_prepared
        &&& self.trees_built <= self.cap
    }

    /// An empty tally for a run that builds at most `cap` folder trees.
    pub fn new(cap: u32) -> (t: Self)
        ensures
            t.wf(),
            t.summary@.len() == 0,
            t.total_fetched == 0,
            t.total_filtered == 0,
            t.total_prepared == 0,
            t.trees_built == 0,
            t.cap == cap,
            t.pending@ == 0,
    {
        let t = RunTally {
            summary: Vec::new(),
            total_fetched: 0,
            total_filtered: 0,
            total_prepared: 0,
            trees_built: 0,
            cap,
            pending: Ghost(0),
        };
        assert(names(t.summary@) =~= Seq::<Seq<char>>::empty());
        t
    }

    /// The index of the entry for `name`, creating an empty one (in name
    /// order) when the source has not been seen in this run.
    pub fn source_entry(&mut self, name: &str) -> (i: usize)
        requires
            old(self).wf(),
        ensures
            final(self).wf(),
            i < final(self).summary@.len(),
            final(self).summary@[i as int].source@ == name@,
            final(self).total_fetched == old(self).total_fetched,
            final(self).total_filtered == old(self).total_filtered,
            final(self).total_prepared == old(self).total_prepared,
            final(self).trees_built == old(self).trees_built,
            final(self).cap == old(self).cap,
            final(self).pending == old(self).pending,
            names(old(self).summary@).contains(name@) ==> final(self).summary@ == old(
                self,
            ).summary@,
            !names(old(self).summary@).contains(name@) ==> {
                &&& fresh_entry(final(self).summary@[i as int], name@)
                &&& final(self).summary@ == old(self).summary@.insert(
                    i as int,
                    final(self).summary@[i as int],
                )
            },
    {
        let key = chars_of(name);
        let ghost s0 = self.summary@;
        let ghost n0 = names(s0);
        let mut i: usize = 0;
        loop
            invariant
                i <= self.summary.len(),
                self.summary@ == s0,
                n0 == names(s0),
                key@ == name@,
                strictly_sorted(n0),
                forall|j: int| 0 <= j < i ==> seq_lt(#[trigger] n0[j], name@),
            ensures
                i <= self.summary.len(),
                forall|j: int| 0 <= j < i ==> seq_lt(#[trigger] n0[j], name@),
                i < self.summary.len() ==> !seq_lt(n0[i as int], name@),
            decreases self.summary.len() - i,
        {
            if i == self.summary.len() {
                break;
            }
            let cur = chars_of(self.summary[i].source.as_str());
            assert(cur@ == n0[i as int]);
            if !vec_lt(&cur, &key) {
                break;
            }
            i = i + 1;
        }
        if i < self.summary.len() {
            let cur = chars_of(self.summary[i].source.as_str());
            assert(cur@ == n0[i as int]);
            if vec_eq(&cur, &key) {
                return i;
            }
            proof {
                lemma_lt_total(n0[i as int], name@);
            }
        }
        proof {
            assert(!n0.contains(name@)) by {
                if n0.contains(name@) {
                    let k = choose|k: int| 0 <= k < n0.len() && n0[k] == name@;
                    if k < i {
                        crate::sorted::lemma_lt_irreflexive(name@);
                    } else if k > i {
                        crate::sorted::lemma_lt_asymmetric(n0[i as int], n0[k]);
                        crate::sorted::lemma_lt_transitive(name@, n0[i as int], n0[k]);
                        crate::sorted::lemma_lt_irreflexive(name@);
                    }
                }
            }
        }
        let e = SummaryEntry { source: string_of(&key), outcome: SourceOutcome::new() };
        self.summary.insert(i, e);
        proof {
            let s1 = self.summary@;
            assert(names(s1) =~= n0.insert(i as int, name@));
            lemma_insert_sorted_at(n0, i as int, name@);
            lemma_sum_insert(s0, i as int, s1[i as int], Counter::Filtered);
            lemma_sum_insert(s0, i as int, s1[i as int], Counter::Prepared);
            assert forall|k: int| 0 <= k < s1.len() implies (#[trigger] s1[k]).outcome.prepared
                <= s1[k].outcome.filtered by {
                if k > i {
                    assert(s1[k] == s0[k - 1]);
                }
            }
        }
        i
    }

    /// Record that a fetch for entry `i` returned `n` postings.  The entry
    /// keeps the latest count; the run's total adds it, and the postings
    /// are pending until each is recorded.
    pub fn record_fetched(&mut self, i: usize, n: u32)
        requires
            old(self).wf(),
            i < old(self).summary@.len(),
            old(self).total_fetched + n <= u32::MAX,
        ensures
            final(self).wf(),
            final(self).total_fetched == old(self).total_fetched + n,
            final(self).total_filtered == old(self).total_filtered,
            final(self).total_prepared == old(self).total_prepared,
            final(self).trees_built == old(self).trees_built,
            final(self).cap == old(self).cap,
            final(self).pending@ == old(self).pending@ + n,
            final(self).summary@.len() == old(self).summary@.len(),
            forall|j: int|
                0 <= j < old(self).summary@.len() && j != i ==> #[trigger] final(self).summary@[j]
                    == old(self).summary@[j],
            final(self).summary@[i as int].source == old(self).summary@[i as int].source,
            final(self).summary@[i as int].outcome.fetched == n,
            final(self).summary@[i as int].outcome.filtered == old(
                self,
            ).summary@[i as int].outcome.filtered,
            final(self).summary@[i as int].outcome.prepared == old(
                self,
            ).summary@[i as int].outcome.prepared,
            final(self).summary@[i as int].outcome.errors == old(
                self,
            ).summary@[i as int].outcome.errors,
    {
        let ghost s0 = self.summary@;
        let mut e = self.summary.remove(i);
        e.outcome.fetched = n;
        self.summary.insert(i, e);
        self.total_fetched = self.total_fetched + n;
        self.pending = Ghost((self.pending@ + n) as nat);
        proof {
            let s1 = self.summary@;
            assert(s1 =~= s0.update(i as int, s1[i as int]));
            assert(names(s1) =~= names(s0));
            lemma_sum_update(s0, i as int, s1[i as int], Counter::Filtered);
            lemma_sum_update(s0, i as int, s1[i as int], Counter::Prepared);
        }
    }

    /// Record the outcome of persisting one pending posting of entry `i`:
    /// a prepared job counts as prepared and as filtered, a filtered-out
    /// one as filtered only.  A folder tree can only have been built for a
    /// prepared job, and only while the run is below its cap.
    pub fn record_persisted(&mut self, i: usize, prepared: bool, tree_built: bool)
        requires
            old(self).wf(),
            i < old(self).summary@.len(),
            old(self).pending@ > 0,
            tree_built ==> prepared,
            tree_built ==> old(self).total_prepared < old(self).cap,
        ensures
            final(self).wf(),
            final(self).total_fetched == old(self).total_fetched,
            final(self).total_filtered == old(self).total_filtered + 1,
            final(self).total_prepared == old(self).total_prepared + if prepared {
                1int
            } else {
                0
            },
            final(self).trees_built == old(self).trees_built + if tree_built {
                1int
            } else {
                0
            },
            final(self).cap == old(self).cap,
            final(self).pending@ == old(self).pending@ - 1,
            final(self).summary@.len() == old(self).summary@.len(),
            forall|j: int|
                0 <= j < old(self).summary@.len() && j != i ==> #[trigger] final(self).summary@[j]
                    == old(self).summary@[j],
            final(self).summary@[i as int].source == old(self).summary@[i as int].source,
            final(self).summary@[i as int].outcome.fetched == old(
                self,
            ).summary@[i as int].outcome.fetched,
            final(self).summary@[i as int].outcome.filtered == old(
                self,
            ).summary@[i as int].outcome.filtered + 1,
            final(self).summary@[i as int].outcome.prepared == old(
                self,
            ).summary@[i as int].outcome.prepared + if prepared {
                1int
            } else {
                0
            },
            final(self).summary@[i as int].outcome.errors == old(
                self,
            ).summary@[i as int].outcome.errors,
    {
        let ghost s0 = self.summary@;
        proof {
            lemma_sum_ge_one(s0, i as int, Counter::Filtered);
            lemma_sum_ge_one(s0, i as int, Counter::Prepared);
            lemma_prepared_within_filtered(*self);
        }
        let mut e = self.summary.remove(i);
        e.outcome.filtered = e.outcome.filtered + 1;
        self.total_filtered = self.total_filtered + 1;
        if prepared {
            e.outcome.prepared = e.outcome.prepared + 1;
            self.total_prepared = self.total_prepared + 1;
        }
        if tree_built {
            self.trees_built = self.trees_built + 1;
        }
        self.pending = Ghost((self.pending@ - 1) as nat);
        self.summary.insert(i, e);
        proof {
            let s1 = self.summary@;
            assert(s1 =~= s0.update(i as int, s1[i as int]));
            assert(names(s1) =~= names(s0));
            lemma_sum_update(s0, i as int, s1[i as int], Counter::Filtered);
            lemma_sum_update(s0, i as int, s1[i as int], Counter::Prepared);
        }
    }

    /// Record an error for entry `i` (a failed fetch), cut to
    /// `ERROR_CHARS` chars.
    pub fn record_error(&mut self, i: usize, message: &str)
        requires
            old(self).wf(),
            i < old(self).summary@.len(),
        ensures
            final(self).wf(),
            final(self).total_fetched == old(self).total_fetched,
            final(self).total_filtered == old(self).total_filtered,
            final(self).total_prepared == old(self).total_prepared,
            final(self).trees_built == old(self).trees_built,
            final(self).cap == old(self).cap,
            final(self).pending == old(self).pending,
            final(self).summary@.len() == old(self).summary@.len(),
            forall|j: int|
                0 <= j < old(self).summary@.len() && j != i ==> #[trigger] final(self).summary@[j]
                    == old(self).summary@[j],
            final(self).summary@[i as int].source == old(self).summary@[i as int].source,
            final(self).summary@[i as int].outcome.fetched == old(
                self,
            ).summary@[i as int].outcome.fetched,
            final(self).summary@[i as int].outcome.filtered == old(
                self,
            ).summary@[i as int].outcome.filtered,
            final(self).summary@[i as int].outcome.prepared == old(
                self,
            ).summary@[i as int].outcome.prepared,
            final(self).summary@[i as int].outcome.errors@ == old(
                self,
            ).summary@[i as int].outcome.errors@.push(
                final(self).summary@[i as int].outcome.errors@.last(),
            ),
            final(self).summary@[i as int].outcome.errors@.last()@ == if message@.len()
                <= ERROR_CHARS {
                message@
            } else {
                message@.take(ERROR_CHARS as int)
            },
    {
        let ghost s0 = self.summary@;
        let mut e = self.summary.remove(i);
        e.outcome.errors.push(truncate_err(message));
        self.summary.insert(i, e);
        proof {
            let s1 = self.summary@;
            assert(s1 =~= s0.update(i as int, s1[i as int]));
            assert(names(s1) =~= names(s0));
            lemma_sum_update(s0, i as int, s1[i as int], Counter::Filtered);
            lemma_sum_update(s0, i as int, s1[i as int], Counter::Prepared);
        }
    }

    /// Record that persisting one pending posting of entry `i` failed:
    /// the error, cut to `ERROR_CHARS` chars, and the posting no longer
    /// pending.
    pub fn record_posting_error(&mut self, i: usize, message: &str)
        requires
            old(self).wf(),
            i < old(self).summary@.len(),
            old(self).pending@ > 0,
        ensures
            final(self).wf(),
            final(self).total_fetched == old(self).total_fetched,
            final(self).total_filtered == old(self).total_filtered,
            final(self).total_prepared == old(self).total_prepared,
            final(self).trees_built == old(self).trees_built,
            final(self).cap == old(self).cap,
            final(self).pending@ == old(self).pending@ - 1,
            final(self).summary@.len() == old(self).summary@.len(),
            forall|j: int|
                0 <= j < old(self).summary@.len() && j != i ==> #[trigger] final(self).summary@[j]
                    == old(self).summary@[j],
            final(self).summary@[i as int].source == old(self).summary@[i as int].source,
            final(self).summary@[i as int].outcome.fetched == old(
                self,
            ).summary@[i as int].outcome.fetched,
            final(self).summary@[i as int].outcome.filtered == old(
                self,
            ).summary@[i as int].outcome.filtered,
            final(self).summary@[i as int].outcome.prepared == old(
                self,
            ).summary@[i as int].outcome.prepared,
            final(self).summary@[i as int].outcome.errors@ == old(
                self,
            ).summary@[i as int].outcome.errors@.push(
                final(self).summary@[i as int].outcome.errors@.last(),
            ),
            final(self).summary@[i as int].outcome.errors@.last()@ == if message@.len()
                <= ERROR_CHARS {
                message@
            } else {
                message@.take(ERROR_CHARS as int)
            },
    {
        self.record_error(i, message);
        self.pending = Ghost((self.pending@ - 1) as nat);
    }

    /// Whether the run has prepared `cap` jobs already; from then on no new
    /// folder trees are made.
    pub fn at_cap(&self) -> (b: bool)
        ensures
            b == (self.total_prepared >= self.cap),
    {
        self.total_prepared >= self.cap
    }

    /// The totals reported for run `run_id`.
    pub fn outcome(&self, run_id: i64) -> (o: IngestionOutcome)
        ensures
            o.run_id == run_id,
            o.total_fetched == self.total_fetched,
            o.total_filtered == self.total_filtered,
            o.total_prepared == self.total_prepared,
    {
        IngestionOutcome {
            run_id,
            total_fetched: self.total_fetched,
            total_filtered: self.total_filtered,
            total_prepared: self.total_prepared,
        }
    }
}

/// A run never prepares more jobs than it counts as filtered, for the
/// whole run as for each source.
pub proof fn lemma_prepared_within_filtered(t: RunTally)
    requires
        t.wf(),
    ensures
        t.total_prepared <= t.total_filtered,
        forall|k: int|
            0 <= k < t.summary@.len() ==> (#[trigger] t.summary@[k]).outcome.prepared
                <= t.total_prepared,
{
    assert forall|k: int| 0 <= k < t.summary@.len() implies count(
        #[trigger] t.summary@[k],
        Counter::Prepared,
    ) <= count(t.summary@[k], Counter::Filtered) by {}
    lemma_sum_le(t.summary@, Counter::Prepared, Counter::Filtered);
    assert forall|k: int| 0 <= k < t.summary@.len() implies (
    #[trigger] t.summary@[k]).outcome.prepared <= t.total_prepared by {
        lemma_sum_ge_one(t.summary@, k, Counter::Prepared);
    }
}

/// A run's totals nest: it prepares no more jobs than it counts as
/// filtered, and filters no more postings than it fetched; and it builds
/// no more new folder trees than its cap allows.
pub proof fn lemma_run_totals(t: RunTally)
    requires
        t.wf(),
    ensures
        t.total_prepared <= t.total_filtered,
        t.total_filtered <= t.total_fetched,
        t.trees_built <= t.cap,
{
    lemma_prepared_within_filtered(t);
}

// ---------------------------------------------------------------------------
// Persisting one posting
// ---------------------------------------------------------------------------

/// What became of one posting.
#[derive(Debug, Clone, Copy, PartialEq, Eq, Structural)]
pub enum PersistOutcome {
    /// Stored, with the job's id.
    Prepared(i64),
    /// Dropped by the sponsorship rule or the recency window.
    FilteredOut,
}

/// Everything derived from a posting before it is stored.
#[derive(Debug)]
pub struct PersistPlan {
    pub work_mode: WorkMode,
    pub sponsorship: SponsorshipConfidence,
    pub sponsorship_reason: Option<String>,
    pub jd_skills: Vec<String>,
    pub recency_bucket: Option<RecencyBucket>,
    pub state_or_region: Option<String>,
    pub normalized_role_title: String,
    pub jd_summary: Option<String>,
}

/// `Option<String>::as_deref`.
pub fn opt_str(o: &Option<String>) -> (r: Option<&str>)
    ensures
        match r {
            Some(t) => o.deep_view() == Some(t@),
            None => o is None,
        },
{
    match o {
        Some(t) => Some(t.as_str()),
        None => None,
    }
}

/// The work mode a posting is stored with: the source's, or, when the
/// source did not say, the one detected from title, location and JD.
pub open spec fn planned_work_mode(ingest: JobIngest) -> WorkMode {
    if ingest.work_mode == WorkMode::Unknown {
        work_mode_of(
            work_mode_haystack(
                ingest.role_title@,
                ingest.location.deep_view(),
                ingest.jd_text.deep_view(),
            ),
        )
    } else {
        ingest.work_mode
    }
}

/// Whether the settings drop postings that explicitly refuse sponsorship:
/// Strict and Balanced do; Permissive keeps them (ranking them lower)
/// unless the exclusion switch is on.
pub open spec fn drops_explicit_no(
    sensitivity: SponsorshipSensitivity,
    exclude_explicit_no_sponsorship: bool,
) -> bool {
    exclude_explicit_no_sponsorship || sensitivity != SponsorshipSensitivity::Permissive
}

/// Whether the sponsorship rule drops the posting: it explicitly refuses
/// sponsorship and the settings drop such postings.
pub open spec fn sponsorship_excludes(
    ingest: JobIngest,
    sensitivity: SponsorshipSensitivity,
    exclude_explicit_no_sponsorship: bool,
) -> bool {
    &&& drops_explicit_no(sensitivity, exclude_explicit_no_sponsorship)
    &&& sponsorship_of(ingest.jd_text.deep_view()).0 == SponsorshipConfidence::ExplicitNoSponsorship
}

/// Whether the settings drop postings that explicitly refuse sponsorship.
pub fn drops_explicit_no_sponsorship(
    sensitivity: SponsorshipSensitivity,
    exclude_explicit_no_sponsorship: bool,
) -> (b: bool)
    ensures
        b == drops_explicit_no(sensitivity, exclude_explicit_no_sponsorship),
{
    match sensitivity {
        SponsorshipSensitivity::Permissive => exclude_explicit_no_sponsorship,
        _ => true,
    }
}

/// Derive what is stored for `ingest`, or `None` when the sponsorship rule
/// drops it.
pub fn plan_persist(
    ingest: &JobIngest,
    sensitivity: SponsorshipSensitivity,
    exclude_explicit_no_sponsorship: bool,
    target_skills: &[String],
    aliases: &[(String, Vec<String>)],
    today: CalendarDate,
) -> (r: Option<PersistPlan>)
    requires
        ingest.work_mode == WorkMode::Unknown ==> jd_scan_cut_ok(ingest.jd_text.deep_view()),
    ensures
        r is None <==> sponsorship_excludes(*ingest, sensitivity, exclude_explicit_no_sponsorship),
        r matches Some(p) ==> {
            &&& p.work_mode == planned_work_mode(*ingest)
            &&& p.sponsorship == sponsorship_of(ingest.jd_text.deep_view()).0
            &&& p.sponsorship_reason.deep_view() == sponsorship_of(ingest.jd_text.deep_view()).1
            &&& strictly_sorted(p.jd_skills.deep_view())
            &&& ingest.jd_text is None ==> p.jd_skills@.len() == 0
            &&& ingest.jd_text matches Some(t) ==> forall|x: Seq<char>| #[trigger]
                p.jd_skills.deep_view().contains(x) <==> skill_found(
                    lowercase_form(t@),
                    target_skills.deep_view(),
                    alias_view(aliases@),
                    x,
                )
            &&& p.recency_bucket == recency_of(ingest.posted_date.deep_view(), today)
            &&& p.state_or_region.deep_view() == state_of(ingest.location.deep_view())
            &&& p.normalized_role_title@ == normalized(ingest.role_title@)
            &&& p.jd_summary.deep_view() == summary_of(ingest.jd_text.deep_view())
        },
{
    let jd = opt_str(&ingest.jd_text);
    let location = opt_str(&ingest.location);
    let work_mode = if ingest.work_mode == WorkMode::Unknown {
        detect_work_mode(ingest.role_title.as_str(), location, jd)
    } else {
        ingest.work_mode
    };
    let (sponsorship, reason) = detect_sponsorship(jd);
    if sponsorship == SponsorshipConfidence::ExplicitNoSponsorship
        && drops_explicit_no_sponsorship(sensitivity, exclude_explicit_no_sponsorship) {
        return None;
    }
    let jd_skills = extract_skills(jd, target_skills, aliases);
    let bucket = recency_bucket(opt_str(&ingest.posted_date), today);
    let state = detect_state(location);
    let normalized_role = normalize_name(ingest.role_title.as_str());
    Some(
        PersistPlan {
            work_mode,
            sponsorship,
            sponsorship_reason: reason,
            jd_skills,
            recency_bucket: bucket,
            state_or_region: state,
            normalized_role_title: normalized_role,
            jd_summary: summarize(jd),
        },
    )
}

/// A dated job outside the configured recency window is filtered out;
/// an undated one is kept (its age is unknown).
pub fn keeps_after_window(has_posted_date: bool, bucket: Option<RecencyBucket>, max_days: u32) -> (b: bool)
    ensures
        b == (!has_posted_date || within_window(bucket, max_days)),
{
    !(has_posted_date && !in_window(bucket, max_days))
}

/// Whether to build the job's folder and files: not when it has a folder
/// already or the run is past its cap; otherwise when the import was
/// explicit, the score reaches the minimum, or the job is from today or
/// yesterday.
pub fn should_prepare(
    already_has_folder: bool,
    skip_new_file_trees: bool,
    force_prepare: bool,
    meets_min_score: bool,
    bucket: Option<RecencyBucket>,
) -> (b: bool)
    ensures
        b == (!already_has_folder && !skip_new_file_trees && (force_prepare || meets_min_score
            || bucket == Some(RecencyBucket::Today) || bucket == Some(RecencyBucket::Yesterday))),
{
    let fresh = match bucket {
        Some(RecencyBucket::Today) | Some(RecencyBucket::Yesterday) => true,
        _ => false,
    };
    !already_has_folder && !skip_new_file_trees && (force_prepare || meets_min_score || fresh)
}

/// What a single import answers: the job's id, or -1 when it was filtered
/// out.
pub fn ingest_one_result(o: PersistOutcome) -> (id: i64)
    ensures
        id == match o {
            PersistOutcome::Prepared(id) => id as int,
            PersistOutcome::FilteredOut => -1int,
        },
{
    match o {
        PersistOutcome::Prepared(id) => id,
        PersistOutcome::FilteredOut => -1,
    }
}

} // verus!
