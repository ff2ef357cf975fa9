//! Ordered sets of strings, kept as strictly increasing vectors.  The
//! order is that of `String`'s `Ord`: UTF-8 byte order, which is the code
//! point order of the chars.
use vstd::prelude::*;

verus! {

/// `a < b` in lexicographic char order.
pub open spec fn seq_lt(a: Seq<char>, b: Seq<char>) -> bool
    decreases a.len(),
{
    if a.len() == 0 {
        b.len() > 0
    } else if b.len() == 0 {
        false
    } else if a[0] != b[0] {
        a[0] < b[0]
    } else {
        seq_lt(a.drop_first(), b.drop_first())
    }
}

/// Strictly increasing, hence free of duplicates.
pub open spec fn strictly_sorted(s: Seq<Seq<char>>) -> bool {
    forall|i: int, j: int| 0 <= i < j < s.len() ==> seq_lt(#[trigger] s[i], #[trigger] s[j])
}

pub proof fn lemma_lt_irreflexive(a: Seq<char>)
    ensures
        !seq_lt(a, a),
    decreases a.len(),
{
    if a.len() > 0 {
        lemma_lt_irreflexive(a.drop_first());
    }
}

pub proof fn lemma_lt_asymmetric(a: Seq<char>, b: Seq<char>)
    ensures
        seq_lt(a, b) ==> !seq_lt(b, a),
    decreases a.len(),
{
    if a.len() > 0 && b.len() > 0 && a[0] == b[0] {
        lemma_lt_asymmetric(a.drop_first(), b.drop_first());
    }
}

pub proof fn lemma_lt_total(a: Seq<char>, b: Seq<char>)
    ensures
        a != b ==> seq_lt(a, b) || seq_lt(b, a),
    decreases a.len(),
{
    if a.len() > 0 && b.len() > 0 && a[0] == b[0] {
        lemma_lt_total(a.drop_first(), b.drop_first());
        if a.drop_first() == b.drop_first() {
            assert(a =~= seq![a[0]] + a.drop_first());
            assert(b =~= seq![b[0]] + b.drop_first());
        }
    } else if a.len() == 0 && b.len() == 0 {
        assert(a =~= b);
    }
}

pub proof fn lemma_lt_transitive(a: Seq<char>, b: Seq<char>, c: Seq<char>)
    ensures
        seq_lt(a, b) && seq_lt(b, c) ==> seq_lt(a, c),
    decreases a.len(),
{
    if a.len() > 0 && b.len() > 0 && c.len() > 0 && a[0] == b[0] && b[0] == c[0] {
        lemma_lt_transitive(a.drop_first(), b.drop_first(), c.drop_first());
    }
}

/// Whether `a < b` in lexicographic char order.
pub fn vec_lt(a: &Vec<char>, b: &Vec<char>) -> (r: bool)
    ensures
        r == seq_lt(a@, b@),
{
    let mut i: usize = 0;
    assert(a@.skip(0) =~= a@);
    assert(b@.skip(0) =~= b@);
    while i < a.len() && i < b.len() && a[i] == b[i]
        invariant
            i <= a.len(),
            i <= b.len(),
            seq_lt(a@, b@) == seq_lt(a@.skip(i as int), b@.skip(i as int)),
        decreases a.len() - i,
    {
        assert(a@.skip(i as int).drop_first() =~= a@.skip(i + 1));
        assert(b@.skip(i as int).drop_first() =~= b@.skip(i + 1));
        i = i + 1;
    }
    if i == a.len() {
        i < b.len()
    } else if i == b.len() {
        false
    } else {
        a[i] < b[i]
    }
}

/// A strictly sorted sequence is fixed by its elements: two with the same
/// elements are equal.
pub proof fn lemma_sorted_unique(a: Seq<Seq<char>>, b: Seq<Seq<char>>)
    requires
        strictly_sorted(a),
        strictly_sorted(b),
        forall|x: Seq<char>| a.contains(x) <==> b.contains(x),
    ensures
        a == b,
    decreases a.len(),
{
    if a.len() == 0 {
        if b.len() > 0 {
            assert(b.contains(b[0]));
        }
        assert(a =~= b);
    } else {
        assert(a.contains(a[0]));
        assert(b.len() > 0);
        assert(b.contains(b[0]));
        let i = choose|i: int| 0 <= i < a.len() && a[i] == b[0];
        let j = choose|j: int| 0 <= j < b.len() && b[j] == a[0];
        if i > 0 && j > 0 {
            assert(seq_lt(a[0], a[i]));
            assert(seq_lt(b[0], b[j]));
            lemma_lt_asymmetric(a[0], b[0]);
        }
        if i > 0 && j == 0 {
            assert(seq_lt(a[0], a[i]));
            lemma_lt_irreflexive(a[0]);
        }
        if i == 0 && j > 0 {
            assert(seq_lt(b[0], b[j]));
            lemma_lt_irreflexive(b[0]);
        }
        assert(a[0] == b[0]);
        let a1 = a.drop_first();
        let b1 = b.drop_first();
        assert forall|x: Seq<char>| a1.contains(x) <==> b1.contains(x) by {
            if a1.contains(x) {
                let k = choose|k: int| 0 <= k < a1.len() && a1[k] == x;
                assert(seq_lt(a[0], a[k + 1]));
                assert(b.contains(x));
                let m = choose|m: int| 0 <= m < b.len() && b[m] == x;
                if m == 0 {
                    lemma_lt_irreflexive(x);
                }
                assert(b1[m - 1] == x);
            }
            if b1.contains(x) {
                let k = choose|k: int| 0 <= k < b1.len() && b1[k] == x;
                assert(seq_lt(b[0], b[k + 1]));
                assert(a.contains(x));
                let m = choose|m: int| 0 <= m < a.len() && a[m] == x;
                if m == 0 {
                    lemma_lt_irreflexive(x);
                }
                assert(a1[m - 1] == x);
            }
        }
        lemma_sorted_unique(a1, b1);
        assert(a =~= seq![a[0]] + a1);
        assert(b =~= seq![b[0]] + b1);
    }
}

/// Putting `x` at a position `i` with only smaller keys before it and a
/// larger key (if any) at it keeps a sequence strictly sorted.
pub proof fn lemma_insert_sorted_at(s0: Seq<Seq<char>>, i: int, x: Seq<char>)
    requires
        strictly_sorted(s0),
        0 <= i <= s0.len(),
        forall|j: int| 0 <= j < i ==> seq_lt(#[trigger] s0[j], x),
        i < s0.len() ==> seq_lt(x, s0[i]),
    ensures
        strictly_sorted(s0.insert(i, x)),
{
    let s1 = s0.insert(i, x);
    assert forall|a: int, b: int| 0 <= a < b < s1.len() implies seq_lt(
        #[trigger] s1[a],
        #[trigger] s1[b],
    ) by {
        if b < i {
        } else if a < i && b == i {
        } else if a < i && b > i {
            assert(s1[b] == s0[b - 1]);
            assert(seq_lt(s0[a], s0[b - 1]));
        } else if a == i {
            assert(s1[b] == s0[b - 1]);
            if b - 1 > i {
                assert(seq_lt(s0[i], s0[b - 1]));
                lemma_lt_transitive(x, s0[i], s0[b - 1]);
            }
        } else {
            assert(s1[a] == s0[a - 1]);
            assert(s1[b] == s0[b - 1]);
        }
    }
}

/// Whether `v` holds `s`.
pub fn holds_string(v: &Vec<String>, s: &str) -> (b: bool)
    ensures
        b == v.deep_view().contains(s@),
{
    let mut k: usize = 0;
    while k < v.len()
        invariant
            k <= v.len(),
            forall|j: int| 0 <= j < k ==> v.deep_view()[j] != s@,
        decreases v.len() - k,
    {
        assert(v.deep_view()[k as int] == v[k as int]@);
        if crate::text::str_eq(v[k].as_str(), s) {
            return true;
        }
        k = k + 1;
    }
    false
}

/// Insert `x` into the strictly sorted `v` unless it is already there.
pub fn insert_sorted(v: &mut Vec<String>, x: String)
    requires
        strictly_sorted(old(v).deep_view()),
    ensures
        strictly_sorted(final(v).deep_view()),
        forall|y: Seq<char>| #[trigger]
            final(v).deep_view().contains(y) <==> (old(v).deep_view().contains(y) || y == x@),
        final(v)@.len() <= old(v)@.len() + 1,
{
    let xv = crate::text::chars_of(x.as_str());
    let ghost s0 = v.deep_view();
    let mut i: usize = 0;
    loop
        invariant
            i <= v.len(),
            s0 == v.deep_view(),
            xv@ == x@,
            strictly_sorted(s0),
            forall|j: int| 0 <= j < i ==> seq_lt(#[trigger] s0[j], x@),
        ensures
            i <= v.len(),
            forall|j: int| 0 <= j < i ==> seq_lt(#[trigger] s0[j], x@),
            i < v.len() ==> !seq_lt(s0[i as int], x@),
        decreases v.len() - i,
    {
        if i == v.len() {
            break;
        }
        let cur = crate::text::chars_of(v[i].as_str());
        assert(cur@ == s0[i as int]);
        if !vec_lt(&cur, &xv) {
            break;
        }
        assert(seq_lt(s0[i as int], x@));
        i = i + 1;
    }
    // Now every element before `i` is below `x`, and (if `i` is in range)
    // `v[i]` is not.
    if i < v.len() {
        let cur = crate::text::chars_of(v[i].as_str());
        if crate::text::vec_eq(&cur, &xv) {
            assert(s0.contains(x@)) by {
                assert(s0[i as int] == x@);
            }
            return;
        }
        proof {
            lemma_lt_total(s0[i as int], x@);
            assert(seq_lt(x@, s0[i as int]));
        }
    }
    v.insert(i, x);
    let ghost s1 = v.deep_view();
    assert(s1 =~= s0.insert(i as int, x@));
    proof {
        lemma_insert_sorted_at(s0, i as int, x@);
    }
    assert forall|y: Seq<char>| #[trigger] s1.contains(y) <==> (s0.contains(y) || y == x@) by {
        if s1.contains(y) {
            let k = choose|k: int| 0 <= k < s1.len() && s1[k] == y;
            if k < i {
                assert(s0[k] == y);
            } else if k > i {
                assert(s0[k - 1] == y);
            }
        }
        if s0.contains(y) {
            let k = choose|k: int| 0 <= k < s0.len() && s0[k] == y;
            if k < i {
                assert(s1[k] == y);
            } else {
                assert(s1[k + 1] == y);
            }
        }
        if y == x@ {
            assert(s1[i as int] == y);
        }
    }
}

} // verus!
