//! Tailor a `CanonicalProfile` to a job description.
//!
//! Rules (honesty first):
//!   - Never invent skills, companies, titles, dates, bullets, or metrics.
//!   - Only select/reorder bullets and skills that already exist in the
//!     canonical profile.
//!   - A bullet "matches" the JD when any of its tags is a JD term, or a JD
//!     term occurs in it as a whole word (one of its tokens, or a run of
//!     them).
//!   - Skills block is reordered: matched skills first, in category.
//!   - Target a 1-page resume by capping selected bullets per role and
//!     projects count; caller can tune caps via `TailoringRequest`.
use crate::digest::{hex_encode, hex_text, sha256, sha256_of};
use crate::domain::resume::{
    CanonicalProfile, CertificationEntry, Contact, EducationEntry, ExperienceEntry, ProjectEntry,
    SkillGroup,
};
use crate::sorted::{holds_string, insert_sorted, lemma_sorted_unique, strictly_sorted};
use crate::text::{
    chars_of, contains_word_seq, copy_opt, extend, owned, str_eq, string_of, vec_contains_word,
};
use crate::unicode::{lowercase_form, to_lowercase};
use vstd::prelude::*;
use vstd::seq_lib::lemma_multiset_commutative;
use vstd::utf8::encode_utf8;

verus! {

// ---------------------------------------------------------------------------
// The needle: lower-cased JD terms
// ---------------------------------------------------------------------------

/// `n` is the set of lower-cased `terms`, sorted and without repeats.
pub open spec fn is_needle(n: Seq<Seq<char>>, terms: Seq<Seq<char>>) -> bool {
    &&& strictly_sorted(n)
    &&& forall|x: Seq<char>| #[trigger]
        n.contains(x) <==> exists|i: int| 0 <= i < terms.len() && x == lowercase_form(terms[i])
}

/// The needle of `terms`.
pub open spec fn needle_of(terms: Seq<Seq<char>>) -> Seq<Seq<char>> {
    choose|n: Seq<Seq<char>>| is_needle(n, terms)
}

/// Only one sequence is the needle of given terms.
pub proof fn lemma_needle_unique(n: Seq<Seq<char>>, terms: Seq<Seq<char>>)
    requires
        is_needle(n, terms),
    ensures
        n == needle_of(terms),
{
    let m = needle_of(terms);
    assert(is_needle(m, terms));
    assert forall|x: Seq<char>| n.contains(x) <==> m.contains(x) by {
        assert(n.contains(x) == m.contains(x));
    }
    lemma_sorted_unique(n, m);
}

/// Collect the lower-cased JD skills and keywords.
pub fn build_needle(jd_skills: &[String], jd_keywords: &[String]) -> (n: Vec<String>)
    ensures
        is_needle(n.deep_view(), jd_skills.deep_view() + jd_keywords.deep_view()),
        n@.len() <= jd_skills@.len() + jd_keywords@.len(),
{
    let ghost terms = jd_skills.deep_view() + jd_keywords.deep_view();
    let mut n: Vec<String> = Vec::new();
    let mut i: usize = 0;
    while i < jd_skills.len()
        invariant
            i <= jd_skills.len(),
            n@.len() <= i,
            terms == jd_skills.deep_view() + jd_keywords.deep_view(),
            strictly_sorted(n.deep_view()),
            forall|x: Seq<char>| #[trigger]
                n.deep_view().contains(x) <==> exists|j: int|
                    0 <= j < i && x == lowercase_form(terms[j]),
        decreases jd_skills.len() - i,
    {
        assert(terms[i as int] == jd_skills[i as int]@);
        let low = to_lowercase(jd_skills[i].as_str());
        insert_sorted(&mut n, low);
        i = i + 1;
    }
    let mut k: usize = 0;
    while k < jd_keywords.len()
        invariant
            k <= jd_keywords.len(),
            n@.len() <= jd_skills.len() + k,
            terms == jd_skills.deep_view() + jd_keywords.deep_view(),
            strictly_sorted(n.deep_view()),
            forall|x: Seq<char>| #[trigger]
                n.deep_view().contains(x) <==> exists|j: int|
                    0 <= j < jd_skills.len() + k && x == lowercase_form(terms[j]),
        decreases jd_keywords.len() - k,
    {
        assert(terms[jd_skills.len() + k] == jd_keywords[k as int]@);
        let low = to_lowercase(jd_keywords[k].as_str());
        insert_sorted(&mut n, low);
        k = k + 1;
    }
    n
}

/// Whether the lower-cased `t` is a JD term.
pub open spec fn in_needle(n: Seq<Seq<char>>, t: Seq<char>) -> bool {
    n.contains(lowercase_form(t))
}

/// `needle.contains(&t.to_lowercase())`.
pub fn needle_has(needle: &Vec<String>, t: &str) -> (b: bool)
    ensures
        b == in_needle(needle.deep_view(), t@),
{
    let low = to_lowercase(t);
    holds_string(needle, low.as_str())
}

// ---------------------------------------------------------------------------
// Scores
// ---------------------------------------------------------------------------

/// How many JD terms occur in `hay` as whole words (its tokens, or runs
/// of them, bounded by the text's ends or by chars other than ASCII
/// letters and digits): "rust" counts in "built rust services" but not in
/// "built trust".
pub open spec fn hits(hay: Seq<char>, n: Seq<Seq<char>>) -> int
    decreases n.len(),
{
    if n.len() == 0 {
        0
    } else {
        hits(hay, n.drop_last()) + if contains_word_seq(hay, n.last()) {
            1int
        } else {
            0
        }
    }
}

/// How many JD terms a bullet mentions as whole words (case-insensitively).
pub open spec fn bullet_points(b: Seq<char>, n: Seq<Seq<char>>) -> int {
    hits(lowercase_form(b), n)
}

/// How many of `tags` are JD terms.
pub open spec fn tag_hits(tags: Seq<Seq<char>>, n: Seq<Seq<char>>) -> int
    decreases tags.len(),
{
    if tags.len() == 0 {
        0
    } else {
        tag_hits(tags.drop_last(), n) + if in_needle(n, tags.last()) {
            1int
        } else {
            0
        }
    }
}

pub proof fn lemma_hits_bounds(hay: Seq<char>, n: Seq<Seq<char>>)
    ensures
        0 <= hits(hay, n) <= n.len(),
    decreases n.len(),
{
    if n.len() > 0 {
        lemma_hits_bounds(hay, n.drop_last());
    }
}

pub proof fn lemma_tag_hits_bounds(tags: Seq<Seq<char>>, n: Seq<Seq<char>>)
    ensures
        0 <= tag_hits(tags, n) <= tags.len(),
    decreases tags.len(),
{
    if tags.len() > 0 {
        lemma_tag_hits_bounds(tags.drop_last(), n);
    }
}

/// One point per JD term the bullet mentions.
pub fn bullet_score(bullet: &str, needle: &Vec<String>) -> (r: i32)
    requires
        needle@.len() <= i32::MAX,
    ensures
        r == bullet_points(bullet@, needle.deep_view()),
{
    let low = to_lowercase(bullet);
    term_hits(low.as_str(), needle)
}

/// How many JD terms occur in lower-cased text as whole words.
pub fn term_hits(lower: &str, needle: &Vec<String>) -> (r: i32)
    requires
        needle@.len() <= i32::MAX,
    ensures
        r == hits(lower@, needle.deep_view()),
{
    let hay = chars_of(lower);
    let ghost n = needle.deep_view();
    let mut count: i32 = 0;
    let mut k: usize = 0;
    while k < needle.len()
        invariant
            k <= needle.len(),
            needle@.len() <= i32::MAX,
            n == needle.deep_view(),
            hay@ == lower@,
            count == hits(hay@, n.take(k as int)),
        decreases needle.len() - k,
    {
        proof {
            assert(n.take(k + 1).drop_last() =~= n.take(k as int));
            lemma_hits_bounds(hay@, n.take(k as int));
        }
        let term = chars_of(needle[k].as_str());
        if vec_contains_word(&hay, &term) {
            count = count + 1;
        }
        k = k + 1;
    }
    assert(n.take(k as int) =~= n);
    count
}

/// How many of `tags` are JD terms.
pub fn count_tag_hits(tags: &Vec<String>, needle: &Vec<String>) -> (r: usize)
    ensures
        r == tag_hits(tags.deep_view(), needle.deep_view()),
{
    let ghost ts = tags.deep_view();
    let mut count: usize = 0;
    let mut k: usize = 0;
    while k < tags.len()
        invariant
            k <= tags.len(),
            ts == tags.deep_view(),
            count == tag_hits(ts.take(k as int), needle.deep_view()),
        decreases tags.len() - k,
    {
        proof {
            assert(ts.take(k + 1).drop_last() =~= ts.take(k as int));
            lemma_tag_hits_bounds(ts.take(k as int), needle.deep_view());
        }
        if needle_has(needle, tags[k].as_str()) {
            count = count + 1;
        }
        k = k + 1;
    }
    assert(ts.take(k as int) =~= ts);
    count
}

// ---------------------------------------------------------------------------
// Choosing the best entries
// ---------------------------------------------------------------------------

/// Scores widened to mathematical integers.
pub open spec fn int_view(s: Seq<i32>) -> Seq<int> {
    s.map_values(|x: i32| x as int)
}

/// Entry `i` ranks before entry `j`: a higher score, or the same score and
/// an earlier position (a stable sort by descending score).
pub open spec fn ranks_before(s: Seq<int>, i: int, j: int) -> bool {
    s[i] > s[j] || (s[i] == s[j] && i < j)
}

/// `top` lists the `min(k, |s|)` best entries of `s`, best first: each
/// ranks before the next, and every entry left out ranks after all of
/// them.  This is the prefix of a stable sort by descending score.
pub open spec fn is_top(s: Seq<int>, k: int, top: Seq<usize>) -> bool {
    &&& top.len() == if k < s.len() {
        k
    } else {
        s.len() as int
    }
    &&& forall|a: int| 0 <= a < top.len() ==> #[trigger] top[a] < s.len()
    &&& forall|a: int, b: int|
        0 <= a < b < top.len() ==> ranks_before(s, #[trigger] top[a] as int, #[trigger] top[b] as int)
    &&& forall|a: int, j: usize|
        #![trigger top[a], top.contains(j)]
        0 <= a < top.len() && j < s.len() && !top.contains(j) ==> ranks_before(
            s,
            top[a] as int,
            j as int,
        )
}

/// The `k` best entries of `s`, best first (see `is_top`).
pub open spec fn top_of(s: Seq<int>, k: int) -> Seq<usize> {
    choose|top: Seq<usize>| is_top(s, k, top)
}

proof fn lemma_top_agree(s: Seq<int>, k: int, t1: Seq<usize>, t2: Seq<usize>, a: int)
    requires
        is_top(s, k, t1),
        is_top(s, k, t2),
        0 <= a < t1.len(),
        forall|b: int| 0 <= b < a ==> t1[b] == t2[b],
    ensures
        t1[a] == t2[a],
{
    let x = t1[a];
    let y = t2[a];
    if x != y {
        // y ranks before x in t2's view, and x before y in t1's.
        if t2.contains(x) {
            let c = choose|c: int| 0 <= c < t2.len() && t2[c] == x;
            if c < a {
                assert(t1[c] == x);
                assert(ranks_before(s, t1[c] as int, t1[a] as int));
            }
            assert(ranks_before(s, y as int, x as int));
        } else {
            assert(ranks_before(s, t2[a] as int, x as int));
        }
        if t1.contains(y) {
            let c = choose|c: int| 0 <= c < t1.len() && t1[c] == y;
            if c < a {
                assert(t2[c] == y);
                assert(ranks_before(s, t2[c] as int, t2[a] as int));
            }
            assert(ranks_before(s, x as int, y as int));
        } else {
            assert(ranks_before(s, t1[a] as int, y as int));
        }
    }
}

/// There is only one list of the `k` best entries.
pub proof fn lemma_top_unique(s: Seq<int>, k: int, t1: Seq<usize>, t2: Seq<usize>)
    requires
        is_top(s, k, t1),
        is_top(s, k, t2),
    ensures
        t1 == t2,
{
    lemma_top_prefix(s, k, t1, t2, t1.len() as int);
    assert(t1 =~= t2);
}

proof fn lemma_top_prefix(s: Seq<int>, k: int, t1: Seq<usize>, t2: Seq<usize>, a: int)
    requires
        is_top(s, k, t1),
        is_top(s, k, t2),
        0 <= a <= t1.len(),
    ensures
        forall|b: int| 0 <= b < a ==> t1[b] == t2[b],
    decreases a,
{
    if a > 0 {
        lemma_top_prefix(s, k, t1, t2, a - 1);
        lemma_top_agree(s, k, t1, t2, a - 1);
    }
}

/// The indices of the `k` best-scoring entries, best first.
pub fn top_indices(scores: &Vec<i32>, k: usize) -> (top: Vec<usize>)
    ensures
        is_top(int_view(scores@), k as int, top@),
        top@ == top_of(int_view(scores@), k as int),
{
    let ghost sc = int_view(scores@);
    let n = scores.len();
    let mut remaining: Vec<usize> = Vec::new();
    let mut i: usize = 0;
    while i < n
        invariant
            i <= n,
            n == scores.len(),
            sc == int_view(scores@),
            remaining@.len() == i,
            forall|q: int| 0 <= q < i ==> remaining@[q] == q,
        decreases n - i,
    {
        remaining.push(i);
        i = i + 1;
    }
    let mut top: Vec<usize> = Vec::new();
    assert forall|j: usize| j < n implies #[trigger] top@.contains(j) || remaining@.contains(j) by {
        assert(remaining@[j as int] == j);
    }
    while top.len() < k && remaining.len() > 0
        invariant
            n == scores.len(),
            sc == int_view(scores@),
            top@.len() <= k,
            top@.len() + remaining@.len() == n,
            forall|q: int| 0 <= q < remaining@.len() ==> #[trigger] remaining@[q] < n,
            forall|a: int| 0 <= a < top@.len() ==> #[trigger] top@[a] < n,
            forall|p: int, q: int|
                0 <= p < q < remaining@.len() ==> #[trigger] remaining@[p] != #[trigger] remaining@[q],
            forall|j: usize| j < n ==> #[trigger] top@.contains(j) || remaining@.contains(j),
            forall|a: int, b: int|
                0 <= a < b < top@.len() ==> ranks_before(
                    sc,
                    #[trigger] top@[a] as int,
                    #[trigger] top@[b] as int,
                ),
            forall|a: int, q: int|
                0 <= a < top@.len() && 0 <= q < remaining@.len() ==> ranks_before(
                    sc,
                    #[trigger] top@[a] as int,
                    #[trigger] remaining@[q] as int,
                ),
        decreases remaining@.len(),
    {
        let mut best: usize = 0;
        let mut q: usize = 1;
        while q < remaining.len()
            invariant
                n == scores.len(),
                sc == int_view(scores@),
            sc == int_view(scores@),
                best < remaining@.len(),
                1 <= q <= remaining@.len(),
                forall|r: int| 0 <= r < remaining@.len() ==> #[trigger] remaining@[r] < n,
                forall|r: int|
                    0 <= r < q && r != best ==> ranks_before(
                        sc,
                        remaining@[best as int] as int,
                        #[trigger] remaining@[r] as int,
                    ),
                forall|p: int, r: int|
                    0 <= p < r < remaining@.len() ==> #[trigger] remaining@[p]
                        != #[trigger] remaining@[r],
            decreases remaining@.len() - q,
        {
            let c = remaining[q];
            let b = remaining[best];
            if scores[c] > scores[b] || (scores[c] == scores[b] && c < b) {
                best = q;
            }
            q = q + 1;
        }
        let ghost rem0 = remaining@;
        let ghost top0 = top@;
        let chosen = remaining.remove(best);
        top.push(chosen);
        proof {
            assert(remaining@ == rem0.remove(best as int));
            assert forall|j: usize| j < n implies #[trigger] top@.contains(j)
                || remaining@.contains(j) by {
                if !top0.contains(j) {
                    assert(rem0.contains(j));
                    let q = choose|q: int| 0 <= q < rem0.len() && rem0[q] == j;
                    if q == best {
                        assert(top@[top0.len() as int] == j);
                    } else if q < best {
                        assert(remaining@[q] == j);
                    } else {
                        assert(remaining@[q - 1] == j);
                    }
                } else {
                    let a = choose|a: int| 0 <= a < top0.len() && top0[a] == j;
                    assert(top@[a] == j);
                }
            }
            assert forall|a: int, b: int| 0 <= a < b < top@.len() implies ranks_before(
                sc,
                #[trigger] top@[a] as int,
                #[trigger] top@[b] as int,
            ) by {
                if b == top0.len() {
                    assert(top@[a] == top0[a]);
                    assert(rem0[best as int] == chosen);
                } else {
                    assert(top@[a] == top0[a]);
                    assert(top@[b] == top0[b]);
                }
            }
            assert forall|a: int, q: int| 0 <= a < top@.len() && 0 <= q < remaining@.len()
                implies ranks_before(
                sc,
                #[trigger] top@[a] as int,
                #[trigger] remaining@[q] as int,
            ) by {
                let q0 = if q < best {
                    q
                } else {
                    q + 1
                };
                assert(remaining@[q] == rem0[q0]);
                if a < top0.len() {
                    assert(top@[a] == top0[a]);
                } else {
                    assert(top@[a] == rem0[best as int]);
                    assert(q0 != best);
                    assert(rem0[q0] != rem0[best as int]);
                    if (q0 as int) < q {
                    }
                    if !ranks_before(sc, rem0[best as int] as int, rem0[q0] as int) {
                        assert(ranks_before(sc, rem0[q0] as int, rem0[best as int] as int));
                    }
                }
            }
        }
    }
    proof {
        assert forall|a: int, j: usize|
            #![trigger top@[a], top@.contains(j)]
            0 <= a < top@.len() && j < n && !top@.contains(j) implies ranks_before(
            sc,
            top@[a] as int,
            j as int,
        ) by {
            assert(remaining@.contains(j));
            let q = choose|q: int| 0 <= q < remaining@.len() && remaining@[q] == j;
            assert(ranks_before(sc, top@[a] as int, remaining@[q] as int));
        }
        assert(is_top(sc, k as int, top@));
        lemma_top_unique(sc, k as int, top@, top_of(sc, k as int));
    }
    top
}

// ---------------------------------------------------------------------------
// Skills: matched first
// ---------------------------------------------------------------------------

/// The entries of `s` whose lower-cased form is (`want`) or is not a JD
/// term, in their order.
pub open spec fn keep_where(s: Seq<Seq<char>>, n: Seq<Seq<char>>, want: bool) -> Seq<Seq<char>>
    decreases s.len(),
{
    if s.len() == 0 {
        seq![]
    } else if in_needle(n, s.last()) == want {
        keep_where(s.drop_last(), n, want).push(s.last())
    } else {
        keep_where(s.drop_last(), n, want)
    }
}

/// A group's skills with the JD matches first, each part in its order.
pub open spec fn matched_first(s: Seq<Seq<char>>, n: Seq<Seq<char>>) -> Seq<Seq<char>> {
    keep_where(s, n, true) + keep_where(s, n, false)
}

pub open spec fn group_view(g: SkillGroup) -> (Seq<char>, Seq<Seq<char>>) {
    (g.category@, g.skills.deep_view())
}

pub open spec fn groups_view(gs: Seq<SkillGroup>) -> Seq<(Seq<char>, Seq<Seq<char>>)> {
    gs.map_values(|g: SkillGroup| group_view(g))
}

/// Every non-empty group, in order, with its skills matched first.
pub open spec fn reordered(gs: Seq<(Seq<char>, Seq<Seq<char>>)>, n: Seq<Seq<char>>) -> Seq<
    (Seq<char>, Seq<Seq<char>>),
>
    decreases gs.len(),
{
    if gs.len() == 0 {
        seq![]
    } else if gs.last().1.len() == 0 {
        reordered(gs.drop_last(), n)
    } else {
        reordered(gs.drop_last(), n).push((gs.last().0, matched_first(gs.last().1, n)))
    }
}

/// Reordering a group's skills only moves them: the same skills, each as
/// often as before.
pub proof fn lemma_matched_first_permutes(s: Seq<Seq<char>>, n: Seq<Seq<char>>)
    ensures
        matched_first(s, n).to_multiset() == s.to_multiset(),
        matched_first(s, n).len() == s.len(),
    decreases s.len(),
{
    broadcast use vstd::seq_lib::group_to_multiset_ensures;

    if s.len() == 0 {
        assert(matched_first(s, n) =~= Seq::<Seq<char>>::empty());
    } else {
        let p = s.drop_last();
        let x = s.last();
        lemma_matched_first_permutes(p, n);
        let a = keep_where(p, n, true);
        let b = keep_where(p, n, false);
        lemma_multiset_commutative(a, b);
        assert(s =~= p.push(x));
        if in_needle(n, x) {
            lemma_multiset_commutative(a.push(x), b);
        } else {
            assert(a + b.push(x) =~= (a + b).push(x));
        }
    }
}

/// The matched skills come first, then the others.
pub proof fn lemma_matched_first_order(s: Seq<Seq<char>>, n: Seq<Seq<char>>)
    ensures
        forall|k: int|
            0 <= k < matched_first(s, n).len() ==> (in_needle(n, #[trigger] matched_first(s, n)[k])
                <==> k < keep_where(s, n, true).len()),
{
    lemma_keep_where_all(s, n, true);
    lemma_keep_where_all(s, n, false);
    let a = keep_where(s, n, true);
    let m = matched_first(s, n);
    assert forall|k: int| 0 <= k < m.len() implies (in_needle(n, #[trigger] m[k]) <==> k
        < a.len()) by {
        if k < a.len() {
            assert(m[k] == a[k]);
        } else {
            assert(m[k] == keep_where(s, n, false)[k - a.len()]);
        }
    }
}

/// Each entry kept for `want` has that membership.
pub proof fn lemma_keep_where_all(s: Seq<Seq<char>>, n: Seq<Seq<char>>, want: bool)
    ensures
        forall|k: int|
            0 <= k < keep_where(s, n, want).len() ==> in_needle(n, #[trigger] keep_where(s, n, want)[k])
                == want,
    decreases s.len(),
{
    if s.len() > 0 {
        let prev = keep_where(s.drop_last(), n, want);
        lemma_keep_where_all(s.drop_last(), n, want);
        assert forall|k: int| 0 <= k < keep_where(s, n, want).len() implies in_needle(
            n,
            #[trigger] keep_where(s, n, want)[k],
        ) == want by {
            if k < prev.len() {
                assert(keep_where(s, n, want)[k] == prev[k]);
            }
        }
    }
}

/// The skills of `skills` whose lower-cased form is (`want`) or is not a
/// JD term.
fn skills_where(skills: &Vec<String>, needle: &Vec<String>, want: bool) -> (r: Vec<String>)
    ensures
        r.deep_view() == keep_where(skills.deep_view(), needle.deep_view(), want),
{
    let ghost s = skills.deep_view();
    let mut r: Vec<String> = Vec::new();
    let mut k: usize = 0;
    while k < skills.len()
        invariant
            k <= skills.len(),
            s == skills.deep_view(),
            r.deep_view() == keep_where(s.take(k as int), needle.deep_view(), want),
        decreases skills.len() - k,
    {
        assert(s.take(k + 1).drop_last() =~= s.take(k as int));
        assert(s.take(k + 1).last() == skills[k as int]@);
        if needle_has(needle, skills[k].as_str()) == want {
            r.push(skills[k].clone());
            assert(r.deep_view() =~= keep_where(s.take(k as int), needle.deep_view(), want).push(
                skills[k as int]@,
            ));
        }
        k = k + 1;
    }
    assert(s.take(k as int) =~= s);
    r
}

/// Reorder each skill group so that JD matches come first; empty groups
/// are dropped.
pub fn reorder_skills(groups: &Vec<SkillGroup>, needle: &Vec<String>) -> (r: Vec<SkillGroup>)
    ensures
        groups_view(r@) == reordered(groups_view(groups@), needle.deep_view()),
{
    let ghost gs = groups_view(groups@);
    let mut r: Vec<SkillGroup> = Vec::new();
    let mut i: usize = 0;
    while i < groups.len()
        invariant
            i <= groups.len(),
            gs == groups_view(groups@),
            groups_view(r@) == reordered(gs.take(i as int), needle.deep_view()),
        decreases groups.len() - i,
    {
        let g = &groups[i];
        assert(gs.take(i + 1).drop_last() =~= gs.take(i as int));
        assert(gs.take(i + 1).last() == group_view(groups@[i as int]));
        let mut skills = skills_where(&g.skills, needle, true);
        let mut misses = skills_where(&g.skills, needle, false);
        let ghost hits_v = skills.deep_view();
        let ghost miss_v = misses.deep_view();
        skills.append(&mut misses);
        assert(skills.deep_view() =~= hits_v + miss_v);
        proof {
            lemma_matched_first_permutes(g.skills.deep_view(), needle.deep_view());
        }
        if skills.len() > 0 {
            let ghost r0 = r@;
            r.push(SkillGroup { category: g.category.clone(), skills });
            assert(groups_view(r@) =~= groups_view(r0).push(groups_view(r@).last()));
        } else {
            assert(g.skills.deep_view().len() == 0);
        }
        i = i + 1;
    }
    assert(gs.take(i as int) =~= gs);
    r
}

// ---------------------------------------------------------------------------
// Sums
// ---------------------------------------------------------------------------

/// `f` summed over `s`.
pub open spec fn sum_by<A>(s: Seq<A>, f: spec_fn(A) -> int) -> int
    decreases s.len(),
{
    if s.len() == 0 {
        0
    } else {
        sum_by(s.drop_last(), f) + f(s.last())
    }
}

pub proof fn lemma_sum_by_step<A>(s: Seq<A>, i: int, f: spec_fn(A) -> int)
    requires
        0 <= i < s.len(),
    ensures
        sum_by(s.take(i + 1), f) == sum_by(s.take(i), f) + f(s[i]),
{
    assert(s.take(i + 1).drop_last() =~= s.take(i));
}

/// With no negative term, a prefix sums to at most the whole.
pub proof fn lemma_sum_by_prefix<A>(s: Seq<A>, i: int, f: spec_fn(A) -> int)
    requires
        0 <= i <= s.len(),
        forall|k: int| 0 <= k < s.len() ==> f(#[trigger] s[k]) >= 0,
    ensures
        0 <= sum_by(s.take(i), f) <= sum_by(s, f),
    decreases s.len() - i,
{
    if i < s.len() {
        lemma_sum_by_prefix(s, i + 1, f);
        lemma_sum_by_step(s, i, f);
        assert(f(s[i]) >= 0);
        assert forall|k: int| 0 <= k < s.take(i).len() implies f(#[trigger] s.take(i)[k]) >= 0 by {
            assert(s.take(i)[k] == s[k]);
        }
        lemma_sum_by_nonneg(s.take(i), f);
    } else {
        assert(s.take(i) =~= s);
        lemma_sum_by_nonneg(s, f);
    }
}

pub proof fn lemma_sum_by_nonneg<A>(s: Seq<A>, f: spec_fn(A) -> int)
    requires
        forall|k: int| 0 <= k < s.len() ==> f(#[trigger] s[k]) >= 0,
    ensures
        sum_by(s, f) >= 0,
    decreases s.len(),
{
    if s.len() > 0 {
        assert(f(s[s.len() - 1]) >= 0);
        lemma_sum_by_nonneg(s.drop_last(), f);
    }
}

pub open spec fn points_fn(n: Seq<Seq<char>>) -> spec_fn(Seq<char>) -> int {
    |b: Seq<char>| bullet_points(b, n)
}

pub open spec fn tags_fn(n: Seq<Seq<char>>) -> spec_fn(Seq<Seq<char>>) -> int {
    |ts: Seq<Seq<char>>| tag_hits(ts, n)
}

/// Points of all bullets.
pub open spec fn points_sum(bs: Seq<Seq<char>>, n: Seq<Seq<char>>) -> int {
    sum_by(bs, points_fn(n))
}

/// JD-term tags over all tag lists.
pub open spec fn tags_sum(tss: Seq<Seq<Seq<char>>>, n: Seq<Seq<char>>) -> int {
    sum_by(tss, tags_fn(n))
}

pub proof fn lemma_points_nonneg(bs: Seq<Seq<char>>, n: Seq<Seq<char>>)
    ensures
        forall|k: int| 0 <= k < bs.len() ==> points_fn(n)(#[trigger] bs[k]) >= 0,
{
    assert forall|k: int| 0 <= k < bs.len() implies points_fn(n)(#[trigger] bs[k]) >= 0 by {
        lemma_hits_bounds(lowercase_form(bs[k]), n);
    }
}

pub proof fn lemma_tags_nonneg(tss: Seq<Seq<Seq<char>>>, n: Seq<Seq<char>>)
    ensures
        forall|k: int| 0 <= k < tss.len() ==> tags_fn(n)(#[trigger] tss[k]) >= 0,
{
    assert forall|k: int| 0 <= k < tss.len() implies tags_fn(n)(#[trigger] tss[k]) >= 0 by {
        lemma_tag_hits_bounds(tss[k], n);
    }
}

// ---------------------------------------------------------------------------
// Experience
// ---------------------------------------------------------------------------

/// A role as it appears on the tailored resume.
#[derive(Debug, Clone)]
pub struct TailoredExperience {
    pub company: String,
    pub title: String,
    pub location: Option<String>,
    pub start_date: String,
    pub end_date: Option<String>,
    pub bullets: Vec<String>,
}

/// A bullet's score: one point per JD term in its text, two per JD-term
/// tag.
pub open spec fn exp_score(
    bs: Seq<Seq<char>>,
    tss: Seq<Seq<Seq<char>>>,
    n: Seq<Seq<char>>,
    i: int,
) -> int {
    bullet_points(bs[i], n) + 2 * if i < tss.len() {
        tag_hits(tss[i], n)
    } else {
        0
    }
}

pub open spec fn exp_scores(bs: Seq<Seq<char>>, tss: Seq<Seq<Seq<char>>>, n: Seq<Seq<char>>) -> Seq<
    int,
> {
    Seq::new(bs.len(), |i: int| exp_score(bs, tss, n, i))
}

/// The entries of `s` whose index is in `top`, in their order.
pub open spec fn keep_marked<A>(s: Seq<A>, top: Seq<usize>) -> Seq<A>
    decreases s.len(),
{
    if s.len() == 0 {
        seq![]
    } else if top.contains((s.len() - 1) as usize) {
        keep_marked(s.drop_last(), top).push(s.last())
    } else {
        keep_marked(s.drop_last(), top)
    }
}

/// The scores of a role's bullets fit in `i32`.
pub open spec fn exp_fits(e: ExperienceEntry, n: Seq<Seq<char>>) -> bool {
    &&& n.len() <= i32::MAX
    &&& forall|i: int|
        0 <= i < e.bullets@.len() ==> #[trigger] exp_score(
            e.bullets.deep_view(),
            e.bullet_tags.deep_view(),
            n,
            i,
        ) <= i32::MAX
}

/// The `max_bullets` best-scoring bullets of `e`, in their order.
pub open spec fn role_bullets(e: ExperienceEntry, n: Seq<Seq<char>>, max_bullets: int) -> Seq<
    Seq<char>,
> {
    keep_marked(
        e.bullets.deep_view(),
        top_of(exp_scores(e.bullets.deep_view(), e.bullet_tags.deep_view(), n), max_bullets),
    )
}

/// What `tailor_experience` makes of `e`: the same role, with the
/// `max_bullets` best-scoring bullets kept in their order.
pub open spec fn tailored_role(
    r: TailoredExperience,
    e: ExperienceEntry,
    n: Seq<Seq<char>>,
    max_bullets: int,
) -> bool {
    &&& r.company == e.company
    &&& r.title == e.title
    &&& r.location == e.location
    &&& r.start_date == e.start_date
    &&& r.end_date == e.end_date
    &&& r.bullets.deep_view() == role_bullets(e, n, max_bullets)
    &&& is_top(
        exp_scores(e.bullets.deep_view(), e.bullet_tags.deep_view(), n),
        max_bullets,
        top_of(exp_scores(e.bullets.deep_view(), e.bullet_tags.deep_view(), n), max_bullets),
    )
}

/// Whether `top` holds `i`.
fn has_index(top: &Vec<usize>, i: usize) -> (b: bool)
    ensures
        b == top@.contains(i),
{
    let mut k: usize = 0;
    while k < top.len()
        invariant
            k <= top.len(),
            forall|j: int| 0 <= j < k ==> top@[j] != i,
        decreases top.len() - k,
    {
        if top[k] == i {
            return true;
        }
        k = k + 1;
    }
    false
}

/// The strings of `v` whose index is in `top`, in their order.
fn strings_marked(v: &Vec<String>, top: &Vec<usize>) -> (r: Vec<String>)
    ensures
        r.deep_view() == keep_marked(v.deep_view(), top@),
{
    let ghost s = v.deep_view();
    let mut r: Vec<String> = Vec::new();
    let mut i: usize = 0;
    while i < v.len()
        invariant
            i <= v.len(),
            s == v.deep_view(),
            r.deep_view() == keep_marked(s.take(i as int), top@),
        decreases v.len() - i,
    {
        assert(s.take(i + 1).drop_last() =~= s.take(i as int));
        assert(s.take(i + 1).last() == v[i as int]@);
        if has_index(top, i) {
            r.push(v[i].clone());
            assert(r.deep_view() =~= keep_marked(s.take(i as int), top@).push(v[i as int]@));
        }
        i = i + 1;
    }
    assert(s.take(i as int) =~= s);
    r
}

/// Score each bullet of `e` and keep the `max_bullets` best, in their
/// original order, so unrelated context is not shuffled.
pub fn tailor_experience(e: &ExperienceEntry, needle: &Vec<String>, max_bullets: usize) -> (r:
    TailoredExperience)
    requires
        exp_fits(*e, needle.deep_view()),
    ensures
        tailored_role(r, *e, needle.deep_view(), max_bullets as int),
{
    let ghost bs = e.bullets.deep_view();
    let ghost tss = e.bullet_tags.deep_view();
    let ghost n = needle.deep_view();
    let mut scores: Vec<i32> = Vec::new();
    let mut i: usize = 0;
    while i < e.bullets.len()
        invariant
            i <= e.bullets.len(),
            bs == e.bullets.deep_view(),
            tss == e.bullet_tags.deep_view(),
            n == needle.deep_view(),
            exp_fits(*e, n),
            scores@.len() == i,
            forall|j: int| 0 <= j < i ==> scores@[j] == exp_score(bs, tss, n, j),
        decreases e.bullets.len() - i,
    {
        assert(bs[i as int] == e.bullets[i as int]@);
        assert(exp_score(bs, tss, n, i as int) <= i32::MAX);
        proof {
            lemma_hits_bounds(lowercase_form(bs[i as int]), n);
        }
        let mut score = bullet_score(e.bullets[i].as_str(), needle);
        if i < e.bullet_tags.len() {
            assert(tss[i as int] == e.bullet_tags[i as int].deep_view());
            let t = count_tag_hits(&e.bullet_tags[i], needle);
            score = score + 2 * (t as i32);
        }
        scores.push(score);
        i = i + 1;
    }
    let top = top_indices(&scores, max_bullets);
    assert(int_view(scores@) =~= exp_scores(bs, tss, n));
    let bullets = strings_marked(&e.bullets, &top);
    TailoredExperience {
        company: e.company.clone(),
        title: e.title.clone(),
        location: copy_opt(&e.location),
        start_date: e.start_date.clone(),
        end_date: copy_opt(&e.end_date),
        bullets,
    }
}

// ---------------------------------------------------------------------------
// Projects
// ---------------------------------------------------------------------------

/// A project as it appears on the tailored resume.
#[derive(Debug, Clone)]
pub struct TailoredProject {
    pub name: String,
    pub link: Option<String>,
    pub tools: Option<String>,
    pub bullets: Vec<String>,
}

/// The bullets that mention a JD term or carry a JD-term tag, in order.
pub open spec fn flagged(bs: Seq<Seq<char>>, tss: Seq<Seq<Seq<char>>>, n: Seq<Seq<char>>) -> Seq<
    Seq<char>,
>
    decreases bs.len(),
{
    if bs.len() == 0 {
        seq![]
    } else {
        let i = bs.len() - 1;
        if bullet_points(bs[i], n) > 0 || (i < tss.len() && tag_hits(tss[i], n) > 0) {
            flagged(bs.drop_last(), tss, n).push(bs[i])
        } else {
            flagged(bs.drop_last(), tss, n)
        }
    }
}

/// A project's bullets on the resume: the relevant ones, or, when none
/// is, its first two.
pub open spec fn project_bullets(bs: Seq<Seq<char>>, tss: Seq<Seq<Seq<char>>>, n: Seq<Seq<char>>) -> Seq<
    Seq<char>,
> {
    if flagged(bs, tss, n).len() > 0 {
        flagged(bs, tss, n)
    } else if bs.len() <= 2 {
        bs
    } else {
        bs.take(2)
    }
}

/// What `tailor_project` makes of `p`.
pub open spec fn tailored_project(r: TailoredProject, p: ProjectEntry, n: Seq<Seq<char>>) -> bool {
    &&& r.name == p.name
    &&& r.link == p.link
    &&& r.tools == p.tools
    &&& r.bullets.deep_view() == project_bullets(p.bullets.deep_view(), p.bullet_tags.deep_view(), n)
}

/// Keep a project's relevant bullets (or its first two).
pub fn tailor_project(p: &ProjectEntry, needle: &Vec<String>) -> (r: TailoredProject)
    requires
        needle@.len() <= i32::MAX,
    ensures
        tailored_project(r, *p, needle.deep_view()),
{
    let ghost bs = p.bullets.deep_view();
    let ghost tss = p.bullet_tags.deep_view();
    let ghost n = needle.deep_view();
    let mut bullets: Vec<String> = Vec::new();
    let mut i: usize = 0;
    while i < p.bullets.len()
        invariant
            i <= p.bullets.len(),
            bs == p.bullets.deep_view(),
            tss == p.bullet_tags.deep_view(),
            n == needle.deep_view(),
            needle@.len() <= i32::MAX,
            bullets.deep_view() == flagged(bs.take(i as int), tss, n),
        decreases p.bullets.len() - i,
    {
        let ghost w = bs.take(i + 1);
        assert(w.drop_last() =~= bs.take(i as int));
        assert(w[i as int] == p.bullets[i as int]@);
        let by_text = bullet_score(p.bullets[i].as_str(), needle) > 0;
        let by_tag = if i < p.bullet_tags.len() {
            assert(tss[i as int] == p.bullet_tags[i as int].deep_view());
            count_tag_hits(&p.bullet_tags[i], needle) > 0
        } else {
            false
        };
        if by_text || by_tag {
            bullets.push(p.bullets[i].clone());
            assert(bullets.deep_view() =~= flagged(bs.take(i as int), tss, n).push(
                p.bullets[i as int]@,
            ));
        }
        i = i + 1;
    }
    assert(bs.take(i as int) =~= bs);
    let bullets = if bullets.len() == 0 {
        let mut first: Vec<String> = Vec::new();
        let mut k: usize = 0;
        while k < p.bullets.len() && k < 2
            invariant
                k <= p.bullets.len(),
                k <= 2,
                bs == p.bullets.deep_view(),
                first.deep_view() == bs.take(k as int),
            decreases 2 - k,
        {
            assert(bs[k as int] == p.bullets[k as int]@);
            let ghost before = first.deep_view();
            first.push(p.bullets[k].clone());
            assert(first.deep_view() =~= before.push(p.bullets[k as int]@));
            assert(bs.take(k + 1) =~= bs.take(k as int).push(bs[k as int]));
            k = k + 1;
        }
        proof {
            if bs.len() <= 2 {
                assert(bs.take(k as int) =~= bs);
            }
        }
        first
    } else {
        bullets
    };
    TailoredProject {
        name: p.name.clone(),
        link: copy_opt(&p.link),
        tools: copy_opt(&p.tools),
        bullets,
    }
}

/// How relevant a project is: its bullets' points plus two per JD-term tag.
pub open spec fn relevance(p: ProjectEntry, n: Seq<Seq<char>>) -> int {
    points_sum(p.bullets.deep_view(), n) + 2 * tags_sum(p.bullet_tags.deep_view(), n)
}

pub fn project_relevance(p: &ProjectEntry, needle: &Vec<String>) -> (r: i32)
    requires
        needle@.len() <= i32::MAX,
        relevance(*p, needle.deep_view()) <= i32::MAX,
    ensures
        r == relevance(*p, needle.deep_view()),
{
    let ghost bs = p.bullets.deep_view();
    let ghost tss = p.bullet_tags.deep_view();
    let ghost n = needle.deep_view();
    let ghost fb = points_fn(n);
    let ghost ft = tags_fn(n);
    proof {
        lemma_points_nonneg(bs, n);
        lemma_tags_nonneg(tss, n);
        lemma_sum_by_nonneg(bs, fb);
        lemma_sum_by_nonneg(tss, ft);
    }
    let mut score: i32 = 0;
    let mut i: usize = 0;
    while i < p.bullets.len()
        invariant
            i <= p.bullets.len(),
            bs == p.bullets.deep_view(),
            tss == p.bullet_tags.deep_view(),
            n == needle.deep_view(),
            fb == points_fn(n),
            ft == tags_fn(n),
            needle@.len() <= i32::MAX,
            relevance(*p, n) <= i32::MAX,
            sum_by(tss, ft) >= 0,
            score == sum_by(bs.take(i as int), fb),
        decreases p.bullets.len() - i,
    {
        proof {
            lemma_sum_by_step(bs, i as int, fb);
            lemma_points_nonneg(bs, n);
            lemma_sum_by_prefix(bs, i + 1, fb);
        }
        assert(bs[i as int] == p.bullets[i as int]@);
        score = score + bullet_score(p.bullets[i].as_str(), needle);
        i = i + 1;
    }
    assert(bs.take(i as int) =~= bs);
    let mut k: usize = 0;
    while k < p.bullet_tags.len()
        invariant
            k <= p.bullet_tags.len(),
            bs == p.bullets.deep_view(),
            tss == p.bullet_tags.deep_view(),
            n == needle.deep_view(),
            fb == points_fn(n),
            ft == tags_fn(n),
            relevance(*p, n) <= i32::MAX,
            sum_by(bs, fb) >= 0,
            score == sum_by(bs, fb) + 2 * sum_by(tss.take(k as int), ft),
        decreases p.bullet_tags.len() - k,
    {
        proof {
            lemma_sum_by_step(tss, k as int, ft);
            lemma_tags_nonneg(tss, n);
            lemma_sum_by_prefix(tss, k + 1, ft);
            lemma_sum_by_prefix(tss, k as int, ft);
        }
        assert(tss[k as int] == p.bullet_tags[k as int].deep_view());
        assert(ft(tss[k as int]) == tag_hits(tss[k as int], n));
        let t = count_tag_hits(&p.bullet_tags[k], needle);
        assert(sum_by(tss.take(k + 1), ft) <= sum_by(tss, ft));
        assert(relevance(*p, n) == sum_by(bs, fb) + 2 * sum_by(tss, ft));
        assert(sum_by(tss.take(k + 1), ft) == sum_by(tss.take(k as int), ft) + t);
        assert(t <= i32::MAX);
        score = score + 2 * (t as i32);
        k = k + 1;
    }
    assert(tss.take(k as int) =~= tss);
    score
}

// ---------------------------------------------------------------------------
// Match count
// ---------------------------------------------------------------------------

pub open spec fn group_hits_fn(n: Seq<Seq<char>>) -> spec_fn((Seq<char>, Seq<Seq<char>>)) -> int {
    |g: (Seq<char>, Seq<Seq<char>>)| tag_hits(g.1, n)
}

pub open spec fn rows_fn(n: Seq<Seq<char>>) -> spec_fn(Seq<Seq<char>>) -> int {
    |bs: Seq<Seq<char>>| points_sum(bs, n)
}

pub open spec fn exp_rows(v: Seq<TailoredExperience>) -> Seq<Seq<Seq<char>>> {
    v.map_values(|e: TailoredExperience| e.bullets.deep_view())
}

pub open spec fn proj_rows(v: Seq<TailoredProject>) -> Seq<Seq<Seq<char>>> {
    v.map_values(|p: TailoredProject| p.bullets.deep_view())
}

/// How many JD terms a tailored resume shows: matched skills, plus the
/// points of every experience and project bullet.
pub open spec fn matches_total(
    groups: Seq<(Seq<char>, Seq<Seq<char>>)>,
    exp: Seq<Seq<Seq<char>>>,
    proj: Seq<Seq<Seq<char>>>,
    n: Seq<Seq<char>>,
) -> int {
    sum_by(groups, group_hits_fn(n)) + sum_by(exp, rows_fn(n)) + sum_by(proj, rows_fn(n))
}

pub proof fn lemma_rows_nonneg(rows: Seq<Seq<Seq<char>>>, n: Seq<Seq<char>>)
    ensures
        forall|k: int| 0 <= k < rows.len() ==> rows_fn(n)(#[trigger] rows[k]) >= 0,
{
    assert forall|k: int| 0 <= k < rows.len() implies rows_fn(n)(#[trigger] rows[k]) >= 0 by {
        lemma_points_nonneg(rows[k], n);
        lemma_sum_by_nonneg(rows[k], points_fn(n));
    }
}

pub proof fn lemma_groups_nonneg(gs: Seq<(Seq<char>, Seq<Seq<char>>)>, n: Seq<Seq<char>>)
    ensures
        forall|k: int| 0 <= k < gs.len() ==> group_hits_fn(n)(#[trigger] gs[k]) >= 0,
{
    assert forall|k: int| 0 <= k < gs.len() implies group_hits_fn(n)(#[trigger] gs[k]) >= 0 by {
        lemma_tag_hits_bounds(gs[k].1, n);
    }
}

/// The points of all of `bullets`.
fn points_of(bullets: &Vec<String>, needle: &Vec<String>) -> (r: usize)
    requires
        needle@.len() <= i32::MAX,
        points_sum(bullets.deep_view(), needle.deep_view()) <= usize::MAX,
    ensures
        r == points_sum(bullets.deep_view(), needle.deep_view()),
{
    let ghost bs = bullets.deep_view();
    let ghost n = needle.deep_view();
    let mut total: usize = 0;
    let mut i: usize = 0;
    while i < bullets.len()
        invariant
            i <= bullets.len(),
            bs == bullets.deep_view(),
            n == needle.deep_view(),
            needle@.len() <= i32::MAX,
            points_sum(bs, n) <= usize::MAX,
            total == sum_by(bs.take(i as int), points_fn(n)),
        decreases bullets.len() - i,
    {
        proof {
            lemma_sum_by_step(bs, i as int, points_fn(n));
            lemma_points_nonneg(bs, n);
            lemma_sum_by_prefix(bs, i + 1, points_fn(n));
        }
        assert(bs[i as int] == bullets[i as int]@);
        let b = bullet_score(bullets[i].as_str(), needle);
        total = total + (b as usize);
        i = i + 1;
    }
    assert(bs.take(i as int) =~= bs);
    total
}

/// Count the JD terms the tailored resume shows.
pub fn count_matches(
    skills: &Vec<SkillGroup>,
    experience: &Vec<TailoredExperience>,
    projects: &Vec<TailoredProject>,
    needle: &Vec<String>,
) -> (r: usize)
    requires
        needle@.len() <= i32::MAX,
        matches_total(
            groups_view(skills@),
            exp_rows(experience@),
            proj_rows(projects@),
            needle.deep_view(),
        ) <= usize::MAX,
    ensures
        r == matches_total(
            groups_view(skills@),
            exp_rows(experience@),
            proj_rows(projects@),
            needle.deep_view(),
        ),
{
    let ghost n = needle.deep_view();
    let ghost gs = groups_view(skills@);
    let ghost es = exp_rows(experience@);
    let ghost ps = proj_rows(projects@);
    proof {
        lemma_groups_nonneg(gs, n);
        lemma_rows_nonneg(es, n);
        lemma_rows_nonneg(ps, n);
        lemma_sum_by_nonneg(gs, group_hits_fn(n));
        lemma_sum_by_nonneg(es, rows_fn(n));
        lemma_sum_by_nonneg(ps, rows_fn(n));
    }
    let mut total: usize = 0;
    let mut i: usize = 0;
    while i < skills.len()
        invariant
            i <= skills.len(),
            n == needle.deep_view(),
            gs == groups_view(skills@),
            matches_total(gs, es, ps, n) <= usize::MAX,
            sum_by(es, rows_fn(n)) >= 0,
            sum_by(ps, rows_fn(n)) >= 0,
            total == sum_by(gs.take(i as int), group_hits_fn(n)),
        decreases skills.len() - i,
    {
        proof {
            lemma_sum_by_step(gs, i as int, group_hits_fn(n));
            lemma_groups_nonneg(gs, n);
            lemma_sum_by_prefix(gs, i + 1, group_hits_fn(n));
        }
        let c = count_tag_hits(&skills[i].skills, needle);
        total = total + c;
        i = i + 1;
    }
    assert(gs.take(i as int) =~= gs);
    let mut j: usize = 0;
    while j < experience.len()
        invariant
            j <= experience.len(),
            n == needle.deep_view(),
            es == exp_rows(experience@),
            needle@.len() <= i32::MAX,
            matches_total(gs, es, ps, n) <= usize::MAX,
            sum_by(ps, rows_fn(n)) >= 0,
            total == sum_by(gs, group_hits_fn(n)) + sum_by(es.take(j as int), rows_fn(n)),
        decreases experience.len() - j,
    {
        proof {
            lemma_sum_by_step(es, j as int, rows_fn(n));
            lemma_rows_nonneg(es, n);
            lemma_sum_by_prefix(es, j + 1, rows_fn(n));
        }
        let c = points_of(&experience[j].bullets, needle);
        total = total + c;
        j = j + 1;
    }
    assert(es.take(j as int) =~= es);
    let mut k: usize = 0;
    while k < projects.len()
        invariant
            k <= projects.len(),
            n == needle.deep_view(),
            ps == proj_rows(projects@),
            needle@.len() <= i32::MAX,
            matches_total(gs, es, ps, n) <= usize::MAX,
            total == sum_by(gs, group_hits_fn(n)) + sum_by(es, rows_fn(n)) + sum_by(
                ps.take(k as int),
                rows_fn(n),
            ),
        decreases projects.len() - k,
    {
        proof {
            lemma_sum_by_step(ps, k as int, rows_fn(n));
            lemma_rows_nonneg(ps, n);
            lemma_sum_by_prefix(ps, k + 1, rows_fn(n));
        }
        let c = points_of(&projects[k].bullets, needle);
        total = total + c;
        k = k + 1;
    }
    assert(ps.take(k as int) =~= ps);
    total
}

/// The points of all of `bullets`, in a type wide enough for any count.
fn points_wide(bullets: &Vec<String>, needle: &Vec<String>) -> (r: u128)
    requires
        needle@.len() <= i32::MAX,
    ensures
        r == points_sum(bullets.deep_view(), needle.deep_view()),
        r <= bullets@.len() * 2147483647,
{
    let ghost bs = bullets.deep_view();
    let ghost n = needle.deep_view();
    let mut total: u128 = 0;
    let mut i: usize = 0;
    while i < bullets.len()
        invariant
            i <= bullets.len(),
            bs == bullets.deep_view(),
            n == needle.deep_view(),
            needle@.len() <= i32::MAX,
            total == sum_by(bs.take(i as int), points_fn(n)),
            total <= i * 2147483647,
        decreases bullets.len() - i,
    {
        proof {
            lemma_sum_by_step(bs, i as int, points_fn(n));
        }
        assert(bs[i as int] == bullets[i as int]@);
        let b = bullet_score(bullets[i].as_str(), needle);
        proof {
            lemma_hits_bounds(lowercase_form(bs[i as int]), n);
        }
        total = total + (b as u128);
        i = i + 1;
    }
    assert(bs.take(i as int) =~= bs);
    total
}

/// Count the JD terms the tailored resume shows, or `None` when the
/// count does not fit a `usize`.
pub fn count_matches_checked(
    skills: &Vec<SkillGroup>,
    experience: &Vec<TailoredExperience>,
    projects: &Vec<TailoredProject>,
    needle: &Vec<String>,
) -> (r: Option<usize>)
    requires
        needle@.len() <= i32::MAX,
    ensures
        r is Some <==> matches_total(
            groups_view(skills@),
            exp_rows(experience@),
            proj_rows(projects@),
            needle.deep_view(),
        ) <= usize::MAX,
        r matches Some(t) ==> t == matches_total(
            groups_view(skills@),
            exp_rows(experience@),
            proj_rows(projects@),
            needle.deep_view(),
        ),
{
    let ghost n = needle.deep_view();
    let ghost gs = groups_view(skills@);
    let ghost es = exp_rows(experience@);
    let ghost ps = proj_rows(projects@);
    proof {
        lemma_groups_nonneg(gs, n);
        lemma_rows_nonneg(es, n);
        lemma_rows_nonneg(ps, n);
        lemma_sum_by_nonneg(gs, group_hits_fn(n));
        lemma_sum_by_nonneg(es, rows_fn(n));
        lemma_sum_by_nonneg(ps, rows_fn(n));
    }
    let mut total: u128 = 0;
    let mut i: usize = 0;
    while i < skills.len()
        invariant
            i <= skills.len(),
            n == needle.deep_view(),
            gs == groups_view(skills@),
            es == exp_rows(experience@),
            ps == proj_rows(projects@),
            sum_by(es, rows_fn(n)) >= 0,
            sum_by(ps, rows_fn(n)) >= 0,
            forall|k: int| 0 <= k < gs.len() ==> group_hits_fn(n)(#[trigger] gs[k]) >= 0,
            total == sum_by(gs.take(i as int), group_hits_fn(n)),
            total <= usize::MAX,
        decreases skills.len() - i,
    {
        proof {
            lemma_sum_by_step(gs, i as int, group_hits_fn(n));
            lemma_sum_by_prefix(gs, i + 1, group_hits_fn(n));
        }
        let c = count_tag_hits(&skills[i].skills, needle);
        total = total + (c as u128);
        if total > (usize::MAX as u128) {
            return None;
        }
        i = i + 1;
    }
    assert(gs.take(i as int) =~= gs);
    let mut j: usize = 0;
    while j < experience.len()
        invariant
            j <= experience.len(),
            n == needle.deep_view(),
            gs == groups_view(skills@),
            es == exp_rows(experience@),
            ps == proj_rows(projects@),
            needle@.len() <= i32::MAX,
            sum_by(gs, group_hits_fn(n)) >= 0,
            sum_by(ps, rows_fn(n)) >= 0,
            forall|k: int| 0 <= k < es.len() ==> rows_fn(n)(#[trigger] es[k]) >= 0,
            total == sum_by(gs, group_hits_fn(n)) + sum_by(es.take(j as int), rows_fn(n)),
            total <= usize::MAX,
        decreases experience.len() - j,
    {
        proof {
            lemma_sum_by_step(es, j as int, rows_fn(n));
            lemma_sum_by_prefix(es, j + 1, rows_fn(n));
        }
        let blen = experience[j].bullets.len();
        let c = points_wide(&experience[j].bullets, needle);
        assert(es[j as int] == experience@[j as int].bullets.deep_view());
        assert(c <= 18446744073709551615u128 * 2147483647u128) by (nonlinear_arith)
            requires
                c <= blen * 2147483647,
                blen <= 18446744073709551615u128,
        ;
        total = total + c;
        if total > (usize::MAX as u128) {
            return None;
        }
        j = j + 1;
    }
    assert(es.take(j as int) =~= es);
    let mut k: usize = 0;
    while k < projects.len()
        invariant
            k <= projects.len(),
            n == needle.deep_view(),
            gs == groups_view(skills@),
            es == exp_rows(experience@),
            ps == proj_rows(projects@),
            needle@.len() <= i32::MAX,
            forall|m: int| 0 <= m < ps.len() ==> rows_fn(n)(#[trigger] ps[m]) >= 0,
            total == sum_by(gs, group_hits_fn(n)) + sum_by(es, rows_fn(n)) + sum_by(
                ps.take(k as int),
                rows_fn(n),
            ),
            total <= usize::MAX,
        decreases projects.len() - k,
    {
        proof {
            lemma_sum_by_step(ps, k as int, rows_fn(n));
            lemma_sum_by_prefix(ps, k + 1, rows_fn(n));
        }
        let blen = projects[k].bullets.len();
        let c = points_wide(&projects[k].bullets, needle);
        assert(ps[k as int] == projects@[k as int].bullets.deep_view());
        assert(c <= 18446744073709551615u128 * 2147483647u128) by (nonlinear_arith)
            requires
                c <= blen * 2147483647,
                blen <= 18446744073709551615u128,
        ;
        total = total + c;
        if total > (usize::MAX as u128) {
            return None;
        }
        k = k + 1;
    }
    assert(ps.take(k as int) =~= ps);
    Some(total as usize)
}

// ---------------------------------------------------------------------------
// Variant name
// ---------------------------------------------------------------------------

/// The bytes hashed for a variant name: each part's UTF-8 bytes followed
/// by a newline.
pub open spec fn hashed_lines(parts: Seq<Seq<char>>) -> Seq<u8>
    decreases parts.len(),
{
    if parts.len() == 0 {
        seq![]
    } else {
        hashed_lines(parts.drop_last()) + encode_utf8(parts.last()) + seq![10u8]
    }
}

/// Eight hex digits: the first four bytes of the SHA-256 of the parts.
pub open spec fn short_hash_text(parts: Seq<Seq<char>>) -> Seq<char> {
    hex_text(sha256_of(hashed_lines(parts)).take(4))
}

/// A short, stable tag for a list of JD skills.
pub fn short_hash(parts: &[String]) -> (r: String)
    ensures
        r@ == short_hash_text(parts.deep_view()),
{
    let buf = hashed_bytes(parts);
    let digest = sha256(buf.as_slice());
    hash_tag(digest.as_slice())
}

/// The bytes `short_hash` digests.
pub fn hashed_bytes(parts: &[String]) -> (buf: Vec<u8>)
    ensures
        buf@ == hashed_lines(parts.deep_view()),
{
    let ghost ps = parts.deep_view();
    let mut buf: Vec<u8> = Vec::new();
    let mut i: usize = 0;
    while i < parts.len()
        invariant
            i <= parts.len(),
            ps == parts.deep_view(),
            buf@ == hashed_lines(ps.take(i as int)),
        decreases parts.len() - i,
    {
        assert(ps.take(i + 1).drop_last() =~= ps.take(i as int));
        assert(ps.take(i + 1).last() == parts[i as int]@);
        let bytes = parts[i].as_str().as_bytes();
        let ghost before = buf@;
        let mut k: usize = 0;
        while k < bytes.len()
            invariant
                k <= bytes.len(),
                buf@ == before + bytes@.take(k as int),
            decreases bytes.len() - k,
        {
            buf.push(bytes[k]);
            assert(buf@ =~= before + bytes@.take(k + 1));
            k = k + 1;
        }
        assert(bytes@.take(k as int) =~= bytes@);
        buf.push(10u8);
        assert(buf@ =~= before + encode_utf8(parts[i as int]@) + seq![10u8]);
        i = i + 1;
    }
    assert(ps.take(i as int) =~= ps);
    buf
}

/// The tag of a digest: its first four bytes in hex.
pub fn hash_tag(digest: &[u8]) -> (r: String)
    requires
        digest@.len() >= 4,
    ensures
        r@ == hex_text(digest@.take(4)),
{
    let mut head: Vec<u8> = Vec::new();
    let mut k: usize = 0;
    while k < 4
        invariant
            k <= 4,
            digest@.len() >= 4,
            head@ == digest@.take(k as int),
        decreases 4 - k,
    {
        head.push(digest[k]);
        assert(head@ =~= digest@.take(k + 1));
        k = k + 1;
    }
    hex_encode(head.as_slice())
}

// ---------------------------------------------------------------------------
// Whole resume
// ---------------------------------------------------------------------------

/// Inputs to the tailoring pass.  `jd_skills` is the already-extracted,
/// already-alias-resolved set from the normalizer.
#[derive(Debug, Clone)]
pub struct TailoringRequest<'a> {
    pub profile: &'a CanonicalProfile,
    pub jd_skills: &'a [String],
    pub jd_keywords: &'a [String],
    pub max_experience_bullets: usize,
    pub max_projects: usize,
}

impl<'a> TailoringRequest<'a> {
    /// A request with no JD terms, four bullets per role and three projects.
    pub fn new(profile: &'a CanonicalProfile) -> (r: Self)
        ensures
            r.profile == profile,
            r.jd_skills@.len() == 0,
            r.jd_keywords@.len() == 0,
            r.max_experience_bullets == 4,
            r.max_projects == 3,
    {
        TailoringRequest {
            profile,
            jd_skills: &[],
            jd_keywords: &[],
            max_experience_bullets: 4,
            max_projects: 3,
        }
    }
}

#[derive(Debug, Clone)]
pub struct TailoredResume {
    pub name: String,
    pub headline: Option<String>,
    pub summary: Option<String>,
    pub contact: Contact,
    pub skills: Vec<SkillGroup>,
    pub experience: Vec<TailoredExperience>,
    pub projects: Vec<TailoredProject>,
    pub education: Vec<EducationEntry>,
    pub certifications: Vec<CertificationEntry>,
    pub variant_name: String,
    pub tokens_matched: usize,
}

/// The request's needle: its JD skills and keywords, lower-cased.
pub open spec fn request_needle(req: TailoringRequest) -> Seq<Seq<char>> {
    needle_of(req.jd_skills.deep_view() + req.jd_keywords.deep_view())
}

pub open spec fn relevance_scores(ps: Seq<ProjectEntry>, n: Seq<Seq<char>>) -> Seq<int> {
    Seq::new(ps.len(), |i: int| relevance(ps[i], n))
}

/// The projects shown, most relevant first (ties keep profile order).
pub open spec fn project_order(p: CanonicalProfile, n: Seq<Seq<char>>, max_projects: int) -> Seq<
    usize,
> {
    top_of(relevance_scores(p.projects@, n), max_projects)
}

/// The bullets of each tailored role.
pub open spec fn planned_exp_rows(p: CanonicalProfile, n: Seq<Seq<char>>, max_bullets: int) -> Seq<
    Seq<Seq<char>>,
> {
    Seq::new(p.experience@.len(), |i: int| role_bullets(p.experience@[i], n, max_bullets))
}

/// The bullets of each project shown.
pub open spec fn planned_proj_rows(p: CanonicalProfile, n: Seq<Seq<char>>, max_projects: int) -> Seq<
    Seq<Seq<char>>,
> {
    let order = project_order(p, n, max_projects);
    Seq::new(
        order.len(),
        |a: int|
            project_bullets(
                p.projects@[order[a] as int].bullets.deep_view(),
                p.projects@[order[a] as int].bullet_tags.deep_view(),
                n,
            ),
    )
}

/// The scores of tailoring `req` fit `i32`: the needle's size, each
/// role bullet's score and each project's relevance.
pub open spec fn scores_fit(req: TailoringRequest) -> bool {
    let n = request_needle(req);
    let p = *req.profile;
    &&& n.len() <= i32::MAX
    &&& forall|i: int| 0 <= i < p.experience@.len() ==> exp_fits(#[trigger] p.experience@[i], n)
    &&& forall|i: int| 0 <= i < p.projects@.len() ==> relevance(#[trigger] p.projects@[i], n) <= i32::MAX
}

/// The JD terms a tailoring of `req` shows, counted over the planned
/// skills, role bullets and project bullets.
pub open spec fn planned_matches(req: TailoringRequest) -> int {
    let n = request_needle(req);
    let p = *req.profile;
    matches_total(
        reordered(groups_view(p.skills@), n),
        planned_exp_rows(p, n, req.max_experience_bullets as int),
        planned_proj_rows(p, n, req.max_projects as int),
        n,
    )
}

/// The scores and counts of tailoring `req` fit their integer types.
pub open spec fn tailor_fits(req: TailoringRequest) -> bool {
    &&& scores_fit(req)
    &&& planned_matches(req) <= usize::MAX
}

pub open spec fn same_education(a: EducationEntry, b: EducationEntry) -> bool {
    &&& a.institution == b.institution
    &&& a.degree == b.degree
    &&& a.field == b.field
    &&& a.start_date == b.start_date
    &&& a.end_date == b.end_date
    &&& a.gpa == b.gpa
    &&& a.highlights@ == b.highlights@
}

pub fn copy_strings(v: &Vec<String>) -> (r: Vec<String>)
    ensures
        r@ == v@,
{
    let mut r: Vec<String> = Vec::new();
    let mut i: usize = 0;
    while i < v.len()
        invariant
            i <= v.len(),
            r@ == v@.take(i as int),
        decreases v.len() - i,
    {
        r.push(v[i].clone());
        assert(r@ =~= v@.take(i + 1));
        i = i + 1;
    }
    assert(v@.take(i as int) =~= v@);
    r
}

pub fn copy_contact(c: &Contact) -> (r: Contact)
    ensures
        r == *c,
{
    Contact {
        email: copy_opt(&c.email),
        phone: copy_opt(&c.phone),
        location: copy_opt(&c.location),
        website: copy_opt(&c.website),
        linkedin: copy_opt(&c.linkedin),
        github: copy_opt(&c.github),
    }
}

pub fn copy_education(v: &Vec<EducationEntry>) -> (r: Vec<EducationEntry>)
    ensures
        r@.len() == v@.len(),
        forall|i: int| 0 <= i < v@.len() ==> same_education(#[trigger] r@[i], v@[i]),
{
    let mut r: Vec<EducationEntry> = Vec::new();
    let mut i: usize = 0;
    while i < v.len()
        invariant
            i <= v.len(),
            r@.len() == i,
            forall|j: int| 0 <= j < i ==> same_education(#[trigger] r@[j], v@[j]),
        decreases v.len() - i,
    {
        let e = &v[i];
        r.push(
            EducationEntry {
                institution: e.institution.clone(),
                degree: e.degree.clone(),
                field: copy_opt(&e.field),
                start_date: copy_opt(&e.start_date),
                end_date: copy_opt(&e.end_date),
                gpa: copy_opt(&e.gpa),
                highlights: copy_strings(&e.highlights),
            },
        );
        i = i + 1;
    }
    r
}

pub fn copy_certifications(v: &Vec<CertificationEntry>) -> (r: Vec<CertificationEntry>)
    ensures
        r@ == v@,
{
    let mut r: Vec<CertificationEntry> = Vec::new();
    let mut i: usize = 0;
    while i < v.len()
        invariant
            i <= v.len(),
            r@ == v@.take(i as int),
        decreases v.len() - i,
    {
        let c = &v[i];
        r.push(
            CertificationEntry {
                name: c.name.clone(),
                issuer: copy_opt(&c.issuer),
                date: copy_opt(&c.date),
            },
        );
        assert(r@ =~= v@.take(i + 1));
        i = i + 1;
    }
    assert(v@.take(i as int) =~= v@);
    r
}

/// `r` is the tailoring of `req`: the profile's identity, contact,
/// education and certifications kept; matched skills first; the best
/// bullets of each role; the most relevant projects with their relevant
/// bullets; a variant name from the JD skills; and the JD terms shown.
pub open spec fn tailored_as(r: TailoredResume, req: TailoringRequest) -> bool {
    let n = request_needle(req);
    let p = *req.profile;
    let order = project_order(p, n, req.max_projects as int);
    &&& is_top(relevance_scores(p.projects@, n), req.max_projects as int, order)
    &&& r.name == p.name
    &&& r.headline == p.headline
    &&& r.summary == p.summary
    &&& r.contact == p.contact
    &&& groups_view(r.skills@) == reordered(groups_view(p.skills@), n)
    &&& r.experience@.len() == p.experience@.len()
    &&& forall|i: int|
        0 <= i < p.experience@.len() ==> tailored_role(
            #[trigger] r.experience@[i],
            p.experience@[i],
            n,
            req.max_experience_bullets as int,
        )
    &&& r.projects@.len() == order.len()
    &&& forall|a: int|
        0 <= a < order.len() ==> tailored_project(
            #[trigger] r.projects@[a],
            p.projects@[order[a] as int],
            n,
        )
    &&& r.education@.len() == p.education@.len()
    &&& forall|i: int|
        0 <= i < p.education@.len() ==> same_education(#[trigger] r.education@[i], p.education@[i])
    &&& r.certifications@ == p.certifications@
    &&& r.variant_name@ == "tailored-"@ + short_hash_text(req.jd_skills.deep_view())
    &&& r.tokens_matched == matches_total(
        groups_view(r.skills@),
        exp_rows(r.experience@),
        proj_rows(r.projects@),
        n,
    )
}

/// The skill groups, roles and projects of a tailored resume, once the
/// needle is built and the scores are known to fit.
fn tailored_parts(req: &TailoringRequest, needle: &Vec<String>) -> (r: (
    Vec<SkillGroup>,
    Vec<TailoredExperience>,
    Vec<TailoredProject>,
))
    requires
        needle.deep_view() == request_needle(*req),
        scores_fit(*req),
    ensures
        ({
            let n = request_needle(*req);
            let p = *req.profile;
            let order = project_order(p, n, req.max_projects as int);
            &&& is_top(relevance_scores(p.projects@, n), req.max_projects as int, order)
            &&& groups_view(r.0@) == reordered(groups_view(p.skills@), n)
            &&& r.1@.len() == p.experience@.len()
            &&& forall|i: int|
                0 <= i < p.experience@.len() ==> tailored_role(
                    #[trigger] r.1@[i],
                    p.experience@[i],
                    n,
                    req.max_experience_bullets as int,
                )
            &&& r.2@.len() == order.len()
            &&& forall|a: int|
                0 <= a < order.len() ==> tailored_project(
                    #[trigger] r.2@[a],
                    p.projects@[order[a] as int],
                    n,
                )
            &&& exp_rows(r.1@) == planned_exp_rows(p, n, req.max_experience_bullets as int)
            &&& proj_rows(r.2@) == planned_proj_rows(p, n, req.max_projects as int)
        }),
{
    let p = req.profile;
    let ghost n = needle.deep_view();
    let skills = reorder_skills(&p.skills, needle);
    let mut experience: Vec<TailoredExperience> = Vec::new();
    let mut i: usize = 0;
    while i < p.experience.len()
        invariant
            i <= p.experience.len(),
            n == needle.deep_view(),
            n == request_needle(*req),
            p == req.profile,
            scores_fit(*req),
            experience@.len() == i,
            forall|j: int|
                0 <= j < i ==> tailored_role(
                    #[trigger] experience@[j],
                    p.experience@[j],
                    n,
                    req.max_experience_bullets as int,
                ),
        decreases p.experience.len() - i,
    {
        assert(exp_fits(p.experience@[i as int], n));
        experience.push(tailor_experience(&p.experience[i], needle, req.max_experience_bullets));
        i = i + 1;
    }
    let mut scores: Vec<i32> = Vec::new();
    let mut k: usize = 0;
    while k < p.projects.len()
        invariant
            k <= p.projects.len(),
            n == needle.deep_view(),
            n == request_needle(*req),
            p == req.profile,
            scores_fit(*req),
            scores@.len() == k,
            forall|j: int| 0 <= j < k ==> scores@[j] == relevance(p.projects@[j], n),
        decreases p.projects.len() - k,
    {
        assert(relevance(p.projects@[k as int], n) <= i32::MAX);
        scores.push(project_relevance(&p.projects[k], needle));
        k = k + 1;
    }
    let top = top_indices(&scores, req.max_projects);
    assert(int_view(scores@) =~= relevance_scores(p.projects@, n));
    let ghost order = project_order(*p, n, req.max_projects as int);
    assert(top@ == order);
    let mut projects: Vec<TailoredProject> = Vec::new();
    let mut a: usize = 0;
    while a < top.len()
        invariant
            a <= top.len(),
            top@ == order,
            order == project_order(*p, n, req.max_projects as int),
            is_top(relevance_scores(p.projects@, n), req.max_projects as int, order),
            n == needle.deep_view(),
            n.len() <= i32::MAX,
            projects@.len() == a,
            forall|b: int|
                0 <= b < a ==> tailored_project(
                    #[trigger] projects@[b],
                    p.projects@[order[b] as int],
                    n,
                ),
        decreases top.len() - a,
    {
        assert(top@[a as int] < p.projects@.len());
        projects.push(tailor_project(&p.projects[top[a]], needle));
        a = a + 1;
    }
    proof {
        assert(exp_rows(experience@) =~= planned_exp_rows(*p, n, req.max_experience_bullets as int));
        assert(proj_rows(projects@) =~= planned_proj_rows(*p, n, req.max_projects as int));
    }
    (skills, experience, projects)
}

/// A tailored resume from its parts and the count of JD terms it shows.
fn assemble(
    req: &TailoringRequest,
    skills: Vec<SkillGroup>,
    experience: Vec<TailoredExperience>,
    projects: Vec<TailoredProject>,
    tokens_matched: usize,
) -> (r: TailoredResume)
    ensures
        r.name == req.profile.name,
        r.headline == req.profile.headline,
        r.summary == req.profile.summary,
        r.contact == req.profile.contact,
        r.skills == skills,
        r.experience == experience,
        r.projects == projects,
        r.education@.len() == req.profile.education@.len(),
        forall|i: int|
            0 <= i < req.profile.education@.len() ==> same_education(
                #[trigger] r.education@[i],
                req.profile.education@[i],
            ),
        r.certifications@ == req.profile.certifications@,
        r.variant_name@ == "tailored-"@ + short_hash_text(req.jd_skills.deep_view()),
        r.tokens_matched == tokens_matched,
{
    let p = req.profile;
    let hash = short_hash(req.jd_skills);
    let mut name = chars_of("tailored-");
    extend(&mut name, &chars_of(hash.as_str()));
    TailoredResume {
        name: p.name.clone(),
        headline: copy_opt(&p.headline),
        summary: copy_opt(&p.summary),
        contact: copy_contact(&p.contact),
        skills,
        experience,
        projects,
        education: copy_education(&p.education),
        certifications: copy_certifications(&p.certifications),
        variant_name: string_of(&name),
        tokens_matched,
    }
}

/// Tailor the profile to the JD terms of `req`: matched skills first,
/// the best bullets of each role, the most relevant projects, and a
/// variant name derived from the JD skills.  Nothing is added that the
/// profile does not hold.
pub fn tailor(req: TailoringRequest) -> (r: TailoredResume)
    requires
        tailor_fits(req),
    ensures
        tailored_as(r, req),
{
    let needle = build_needle(req.jd_skills, req.jd_keywords);
    proof {
        lemma_needle_unique(needle.deep_view(), req.jd_skills.deep_view() + req.jd_keywords.deep_view());
    }
    let (skills, experience, projects) = tailored_parts(&req, &needle);
    let tokens_matched = count_matches(&skills, &experience, &projects, &needle);
    assemble(&req, skills, experience, projects, tokens_matched)
}

/// Whether every bullet score of role `e` fits an `i32` (with a needle
/// that fits one).
fn exp_fits_check(e: &ExperienceEntry, needle: &Vec<String>) -> (b: bool)
    ensures
        b == exp_fits(*e, needle.deep_view()),
{
    if needle.len() > 2147483647usize {
        return false;
    }
    let ghost bs = e.bullets.deep_view();
    let ghost tss = e.bullet_tags.deep_view();
    let ghost n = needle.deep_view();
    let mut i: usize = 0;
    while i < e.bullets.len()
        invariant
            i <= e.bullets.len(),
            bs == e.bullets.deep_view(),
            tss == e.bullet_tags.deep_view(),
            n == needle.deep_view(),
            needle@.len() <= i32::MAX,
            forall|j: int| 0 <= j < i ==> #[trigger] exp_score(bs, tss, n, j) <= i32::MAX,
        decreases e.bullets.len() - i,
    {
        assert(bs[i as int] == e.bullets[i as int]@);
        let pts = bullet_score(e.bullets[i].as_str(), needle);
        proof {
            lemma_hits_bounds(lowercase_form(bs[i as int]), n);
        }
        let th: usize = if i < e.bullet_tags.len() {
            assert(tss[i as int] == e.bullet_tags[i as int].deep_view());
            count_tag_hits(&e.bullet_tags[i], needle)
        } else {
            0
        };
        let score: u128 = (pts as u128) + 2 * (th as u128);
        if score > 2147483647u128 {
            assert(exp_score(bs, tss, n, i as int) > i32::MAX);
            return false;
        }
        i = i + 1;
    }
    true
}

/// Whether project `p`'s relevance fits an `i32`.
fn relevance_fits(p: &ProjectEntry, needle: &Vec<String>) -> (b: bool)
    requires
        needle@.len() <= i32::MAX,
    ensures
        b == (relevance(*p, needle.deep_view()) <= i32::MAX),
{
    let ghost bs = p.bullets.deep_view();
    let ghost tss = p.bullet_tags.deep_view();
    let ghost n = needle.deep_view();
    proof {
        lemma_tags_nonneg(tss, n);
        lemma_sum_by_nonneg(tss, tags_fn(n));
    }
    let pts = points_wide(&p.bullets, needle);
    if pts > 2147483647u128 {
        return false;
    }
    let mut tags: u128 = 0;
    let mut k: usize = 0;
    while k < p.bullet_tags.len()
        invariant
            k <= p.bullet_tags.len(),
            tss == p.bullet_tags.deep_view(),
            n == needle.deep_view(),
            pts == points_sum(bs, n),
            bs == p.bullets.deep_view(),
            pts <= 2147483647,
            forall|m: int| 0 <= m < tss.len() ==> tags_fn(n)(#[trigger] tss[m]) >= 0,
            tags == sum_by(tss.take(k as int), tags_fn(n)),
            pts + 2 * tags <= 2147483647,
        decreases p.bullet_tags.len() - k,
    {
        proof {
            lemma_sum_by_step(tss, k as int, tags_fn(n));
            lemma_sum_by_prefix(tss, k + 1, tags_fn(n));
        }
        assert(tss[k as int] == p.bullet_tags[k as int].deep_view());
        let c = count_tag_hits(&p.bullet_tags[k], needle);
        tags = tags + (c as u128);
        if pts + 2 * tags > 2147483647u128 {
            return false;
        }
        k = k + 1;
    }
    assert(tss.take(k as int) =~= tss);
    true
}

/// Tailor role `e` where its bullet scores fit an `i32`; `None` where they
/// do not (where `tailor_experience` would overflow).
pub fn try_tailor_experience(e: &ExperienceEntry, needle: &Vec<String>, max_bullets: usize) -> (r:
    Option<TailoredExperience>)
    ensures
        r is Some <==> exp_fits(*e, needle.deep_view()),
        r matches Some(t) ==> tailored_role(t, *e, needle.deep_view(), max_bullets as int),
{
    if exp_fits_check(e, needle) {
        Some(tailor_experience(e, needle, max_bullets))
    } else {
        None
    }
}

/// Project `p`'s relevance where it fits an `i32`; `None` where it does
/// not (where `project_relevance` would overflow).
pub fn try_project_relevance(p: &ProjectEntry, needle: &Vec<String>) -> (r: Option<i32>)
    requires
        needle@.len() <= i32::MAX,
    ensures
        r is Some <==> relevance(*p, needle.deep_view()) <= i32::MAX,
        r matches Some(v) ==> v == relevance(*p, needle.deep_view()),
{
    if relevance_fits(p, needle) {
        Some(project_relevance(p, needle))
    } else {
        None
    }
}

/// Tailor `req` where its scores and counts fit their integer types, and
/// answer `None` where they do not (where `tailor` would overflow).
pub fn try_tailor(req: TailoringRequest) -> (r: Option<TailoredResume>)
    ensures
        r is Some <==> tailor_fits(req),
        r matches Some(t) ==> tailored_as(t, req),
{
    let needle = build_needle(req.jd_skills, req.jd_keywords);
    proof {
        lemma_needle_unique(needle.deep_view(), req.jd_skills.deep_view() + req.jd_keywords.deep_view());
    }
    let ghost n = needle.deep_view();
    if needle.len() > 2147483647usize {
        return None;
    }
    let p = req.profile;
    let mut i: usize = 0;
    while i < p.experience.len()
        invariant
            i <= p.experience.len(),
            p == req.profile,
            n == needle.deep_view(),
            n == request_needle(req),
            forall|j: int| 0 <= j < i ==> exp_fits(#[trigger] p.experience@[j], n),
        decreases p.experience.len() - i,
    {
        if !exp_fits_check(&p.experience[i], &needle) {
            return None;
        }
        i = i + 1;
    }
    let mut k: usize = 0;
    while k < p.projects.len()
        invariant
            k <= p.projects.len(),
            p == req.profile,
            n == needle.deep_view(),
            n == request_needle(req),
            needle@.len() <= i32::MAX,
            forall|j: int| 0 <= j < k ==> relevance(#[trigger] p.projects@[j], n) <= i32::MAX,
        decreases p.projects.len() - k,
    {
        if !relevance_fits(&p.projects[k], &needle) {
            return None;
        }
        k = k + 1;
    }
    assert(scores_fit(req));
    let (skills, experience, projects) = tailored_parts(&req, &needle);
    match count_matches_checked(&skills, &experience, &projects, &needle) {
        Some(tokens_matched) => Some(assemble(&req, skills, experience, projects, tokens_matched)),
        None => None,
    }
}

// ---------------------------------------------------------------------------
// Honesty
// ---------------------------------------------------------------------------

/// The best entries are distinct positions of the scored sequence.
pub proof fn lemma_top_distinct(s: Seq<int>, k: int, top: Seq<usize>)
    requires
        is_top(s, k, top),
    ensures
        forall|a: int, b: int| 0 <= a < b < top.len() ==> #[trigger] top[a] != #[trigger] top[b],
        forall|a: int| 0 <= a < top.len() ==> #[trigger] top[a] < s.len(),
{
    assert forall|a: int, b: int| 0 <= a < b < top.len() implies #[trigger] top[a]
        != #[trigger] top[b] by {
        assert(ranks_before(s, top[a] as int, top[b] as int));
    }
}

proof fn lemma_keep_marked_same<A>(s: Seq<A>, t1: Seq<usize>, t2: Seq<usize>)
    requires
        forall|i: usize| i < s.len() ==> #[trigger] t1.contains(i) == t2.contains(i),
    ensures
        keep_marked(s, t1) == keep_marked(s, t2),
    decreases s.len(),
{
    if s.len() > 0 {
        assert(t1.contains((s.len() - 1) as usize) == t2.contains((s.len() - 1) as usize));
        lemma_keep_marked_same(s.drop_last(), t1, t2);
    }
}

/// Keeping the marked entries keeps one entry per (distinct, in range)
/// mark, each an entry of `s`.
pub proof fn lemma_keep_marked_count<A>(s: Seq<A>, top: Seq<usize>)
    requires
        s.len() <= usize::MAX,
        forall|a: int, b: int| 0 <= a < b < top.len() ==> #[trigger] top[a] != #[trigger] top[b],
        forall|a: int| 0 <= a < top.len() ==> #[trigger] top[a] < s.len(),
    ensures
        keep_marked(s, top).len() == top.len(),
        forall|k: int| 0 <= k < keep_marked(s, top).len() ==> s.contains(#[trigger] keep_marked(s, top)[k]),
    decreases s.len(),
{
    if s.len() == 0 {
        if top.len() > 0 {
            assert(top[0] < s.len());
        }
    } else {
        let m = (s.len() - 1) as usize;
        let p = s.drop_last();
        if top.contains(m) {
            let c = choose|c: int| 0 <= c < top.len() && top[c] == m;
            let t2 = top.remove(c);
            assert forall|a: int| 0 <= a < t2.len() implies #[trigger] t2[a] < p.len() by {
                let a0 = if a < c { a } else { a + 1 };
                assert(t2[a] == top[a0]);
                assert(a0 != c);
            }
            assert forall|a: int, b: int| 0 <= a < b < t2.len() implies #[trigger] t2[a]
                != #[trigger] t2[b] by {
                let a0 = if a < c { a } else { a + 1 };
                let b0 = if b < c { b } else { b + 1 };
                assert(t2[a] == top[a0]);
                assert(t2[b] == top[b0]);
            }
            assert forall|i: usize| i < p.len() implies #[trigger] top.contains(i) == t2.contains(
                i,
            ) by {
                if top.contains(i) {
                    let d = choose|d: int| 0 <= d < top.len() && top[d] == i;
                    assert(i != m);
                    if d < c {
                        assert(t2[d] == i);
                    } else {
                        assert(d != c);
                        assert(t2[d - 1] == i);
                    }
                }
                if t2.contains(i) {
                    let d = choose|d: int| 0 <= d < t2.len() && t2[d] == i;
                    let d0 = if d < c { d } else { d + 1 };
                    assert(top[d0] == i);
                }
            }
            lemma_keep_marked_same(p, top, t2);
            lemma_keep_marked_count(p, t2);
            let kp = keep_marked(p, t2);
            assert forall|k: int| 0 <= k < keep_marked(s, top).len() implies s.contains(
                #[trigger] keep_marked(s, top)[k],
            ) by {
                if k < kp.len() {
                    assert(keep_marked(s, top)[k] == kp[k]);
                    let j = choose|j: int| 0 <= j < p.len() && p[j] == kp[k];
                    assert(s[j] == kp[k]);
                } else {
                    assert(keep_marked(s, top)[k] == s[s.len() - 1]);
                }
            }
        } else {
            assert forall|a: int| 0 <= a < top.len() implies #[trigger] top[a] < p.len() by {
                assert(top[a] != m);
            }
            lemma_keep_marked_count(p, top);
            assert forall|k: int| 0 <= k < keep_marked(s, top).len() implies s.contains(
                #[trigger] keep_marked(s, top)[k],
            ) by {
                assert(keep_marked(s, top)[k] == keep_marked(p, top)[k]);
                let j = choose|j: int| 0 <= j < p.len() && p[j] == keep_marked(p, top)[k];
                assert(s[j] == p[j]);
            }
        }
    }
}

/// A tailored role keeps `min(max_bullets, #bullets)` of the role's own
/// bullets and nothing else.
pub proof fn lemma_role_keeps_own_bullets(
    r: TailoredExperience,
    e: ExperienceEntry,
    n: Seq<Seq<char>>,
    max_bullets: int,
)
    requires
        tailored_role(r, e, n, max_bullets),
    ensures
        r.bullets.deep_view().len() == if max_bullets < e.bullets@.len() {
            max_bullets
        } else {
            e.bullets@.len() as int
        },
        forall|k: int|
            0 <= k < r.bullets.deep_view().len() ==> e.bullets.deep_view().contains(
                #[trigger] r.bullets.deep_view()[k],
            ),
{
    let sc = exp_scores(e.bullets.deep_view(), e.bullet_tags.deep_view(), n);
    let top = top_of(sc, max_bullets);
    lemma_top_distinct(sc, max_bullets, top);
    assert(e.bullets.deep_view().len() == e.bullets.len());
    lemma_keep_marked_count(e.bullets.deep_view(), top);
}

/// A tailored project shows only bullets of the project, and shows some
/// whenever the project has any.
pub proof fn lemma_project_keeps_own_bullets(r: TailoredProject, p: ProjectEntry, n: Seq<Seq<char>>)
    requires
        tailored_project(r, p, n),
    ensures
        forall|k: int|
            0 <= k < r.bullets.deep_view().len() ==> p.bullets.deep_view().contains(
                #[trigger] r.bullets.deep_view()[k],
            ),
        p.bullets@.len() > 0 ==> r.bullets@.len() > 0,
{
    let bs = p.bullets.deep_view();
    let tss = p.bullet_tags.deep_view();
    lemma_flagged_sub(bs, tss, n);
    assert forall|k: int| 0 <= k < r.bullets.deep_view().len() implies bs.contains(
        #[trigger] r.bullets.deep_view()[k],
    ) by {
        if flagged(bs, tss, n).len() == 0 {
            assert(r.bullets.deep_view()[k] == bs[k]);
        }
    }
}

proof fn lemma_flagged_sub(bs: Seq<Seq<char>>, tss: Seq<Seq<Seq<char>>>, n: Seq<Seq<char>>)
    ensures
        forall|k: int| 0 <= k < flagged(bs, tss, n).len() ==> bs.contains(#[trigger] flagged(bs, tss, n)[k]),
    decreases bs.len(),
{
    if bs.len() > 0 {
        let p = bs.drop_last();
        lemma_flagged_sub(p, tss, n);
        let f = flagged(p, tss, n);
        assert forall|k: int| 0 <= k < flagged(bs, tss, n).len() implies bs.contains(
            #[trigger] flagged(bs, tss, n)[k],
        ) by {
            if k < f.len() {
                assert(flagged(bs, tss, n)[k] == f[k]);
                let j = choose|j: int| 0 <= j < p.len() && p[j] == f[k];
                assert(bs[j] == p[j]);
            } else {
                assert(flagged(bs, tss, n)[k] == bs[bs.len() - 1]);
            }
        }
    }
}

} // verus!
