//! Token bags of job descriptions, the input of the reuse decision (whether
//! a new JD is close enough to an earlier one to reuse its tailored
//! resume).  The cosine similarity over two bags is computed by the
//! application.
use crate::domain::resume::ReuseStrategy;
use crate::ranking::{tokenize, tokens_of};
use crate::sorted::{lemma_insert_sorted_at, lemma_lt_asymmetric, lemma_lt_irreflexive,
    lemma_lt_total, lemma_lt_transitive, seq_lt, strictly_sorted, vec_lt};
use crate::text::{chars_of, str_eq, vec_eq};
use vstd::prelude::*;

verus! {

/// How a prior tailored resume is reused for a new JD.
#[derive(Debug, Clone, Copy, PartialEq, Eq, Structural)]
pub enum ReuseDecision {
    Reuse,
    EditedReuse,
    New,
}

/// The strategy recorded for a resume given the reuse decision.
pub fn strategy_for(d: ReuseDecision) -> (s: ReuseStrategy)
    ensures
        s == match d {
            ReuseDecision::Reuse => ReuseStrategy::Reused,
            ReuseDecision::EditedReuse => ReuseStrategy::EditedReuse,
            ReuseDecision::New => ReuseStrategy::New,
        },
{
    match d {
        ReuseDecision::Reuse => ReuseStrategy::Reused,
        ReuseDecision::EditedReuse => ReuseStrategy::EditedReuse,
        ReuseDecision::New => ReuseStrategy::New,
    }
}

/// Words too common to tell two JDs apart.
pub const STOP: [&'static str; 29] = [
    "the", "and", "for", "with", "you", "are", "our", "have", "will", "from", "that", "this",
    "your", "any", "all", "can", "not", "but", "we're", "we", "their", "they", "them", "such",
    "who", "per", "its", "it's", "a",
];

pub open spec fn is_stop_word(t: Seq<char>) -> bool {
    exists|k: int| 0 <= k < 29 && STOP@[k]@ == t
}

pub open spec fn not_stop_fn() -> spec_fn(Seq<char>) -> bool {
    |t: Seq<char>| !is_stop_word(t)
}

/// The words a bag counts: the lower-cased alphanumeric tokens of three
/// or more chars that are not stop words, in text order.
pub open spec fn bag_tokens(text: Seq<char>) -> Seq<Seq<char>> {
    tokens_of(text).filter(not_stop_fn())
}

pub open spec fn bag_keys(b: Seq<(String, u32)>) -> Seq<Seq<char>> {
    b.map_values(|e: (String, u32)| e.0@)
}

/// `b` counts the words of `words`: one entry per distinct word, ordered
/// by word, with the number of times it occurs.
pub open spec fn counts_words(b: Seq<(String, u32)>, words: Seq<Seq<char>>) -> bool {
    &&& strictly_sorted(bag_keys(b))
    &&& forall|x: Seq<char>| #[trigger] bag_keys(b).contains(x) <==> words.contains(x)
    &&& forall|k: int| 0 <= k < b.len() ==> (#[trigger] b[k]).1 == words.to_multiset().count(b[k].0@)
}

fn is_stop(t: &str) -> (b: bool)
    ensures
        b == is_stop_word(t@),
{
    let mut k: usize = 0;
    while k < 29
        invariant
            k <= 29,
            forall|j: int| 0 <= j < k ==> STOP@[j]@ != t@,
        decreases 29 - k,
    {
        if str_eq(STOP[k], t) {
            return true;
        }
        k = k + 1;
    }
    false
}

/// Add one occurrence of `w` to the bag.
fn add_word(b: &mut Vec<(String, u32)>, w: &String, Ghost(words): Ghost<Seq<Seq<char>>>)
    requires
        counts_words(old(b)@, words),
        words.len() < u32::MAX,
    ensures
        counts_words(final(b)@, words.push(w@)),
{
    broadcast use vstd::seq_lib::group_to_multiset_ensures;

    let key = chars_of(w.as_str());
    let ghost b0 = b@;
    let ghost k0 = bag_keys(b0);
    let ghost w2 = words.push(w@);
    assert forall|k: int| 0 <= k < b0.len() implies (#[trigger] b0[k]).1 <= words.len() by {
        assert(words.to_multiset().count(b0[k].0@) <= words.to_multiset().len());
    }
    let mut i: usize = 0;
    loop
        invariant
            i <= b.len(),
            b@ == b0,
            k0 == bag_keys(b0),
            key@ == w@,
            strictly_sorted(k0),
            forall|j: int| 0 <= j < i ==> seq_lt(#[trigger] k0[j], w@),
        ensures
            i <= b.len(),
            forall|j: int| 0 <= j < i ==> seq_lt(#[trigger] k0[j], w@),
            i < b.len() ==> !seq_lt(k0[i as int], w@),
        decreases b.len() - i,
    {
        if i == b.len() {
            break;
        }
        let cur = chars_of(b[i].0.as_str());
        assert(cur@ == k0[i as int]);
        if !vec_lt(&cur, &key) {
            break;
        }
        i = i + 1;
    }
    if i < b.len() {
        let cur = chars_of(b[i].0.as_str());
        assert(cur@ == k0[i as int]);
        if vec_eq(&cur, &key) {
            let c = b[i].1;
            assert(c <= words.len());
            let entry = (b[i].0.clone(), c + 1);
            b.set(i, entry);
            proof {
                let b1 = b@;
                assert(bag_keys(b1) =~= k0);
                assert forall|x: Seq<char>| #[trigger] bag_keys(b1).contains(x) <==> w2.contains(x) by {
                    if x == w@ {
                        assert(bag_keys(b1)[i as int] == x);
                        assert(w2[words.len() as int] == x);
                    }
                    if w2.contains(x) && x != w@ {
                        let m = choose|m: int| 0 <= m < w2.len() && w2[m] == x;
                        assert(words[m] == x);
                    }
                    if words.contains(x) {
                        let m = choose|m: int| 0 <= m < words.len() && words[m] == x;
                        assert(w2[m] == x);
                    }
                }
                assert forall|k: int| 0 <= k < b1.len() implies (#[trigger] b1[k]).1
                    == w2.to_multiset().count(b1[k].0@) by {
                    if k != i {
                        assert(b1[k] == b0[k]);
                        assert(k0[k] != k0[i as int]) by {
                            if k < i {
                                lemma_lt_irreflexive(k0[k]);
                            } else {
                                lemma_lt_irreflexive(k0[i as int]);
                            }
                        }
                    }
                }
            }
            return;
        }
        proof {
            lemma_lt_total(k0[i as int], w@);
        }
    }
    proof {
        assert(!words.contains(w@)) by {
            if words.contains(w@) {
                assert(k0.contains(w@));
                let k = choose|k: int| 0 <= k < k0.len() && k0[k] == w@;
                if k < i {
                    lemma_lt_irreflexive(w@);
                } else if k > i {
                    lemma_lt_asymmetric(k0[i as int], k0[k]);
                    lemma_lt_transitive(w@, k0[i as int], k0[k]);
                    lemma_lt_irreflexive(w@);
                }
            }
        }
        assert(words.to_multiset().count(w@) == 0);
    }
    b.insert(i, (w.clone(), 1u32));
    proof {
        let b1 = b@;
        assert(bag_keys(b1) =~= k0.insert(i as int, w@));
        lemma_insert_sorted_at(k0, i as int, w@);
        assert forall|x: Seq<char>| #[trigger] bag_keys(b1).contains(x) <==> w2.contains(x) by {
            if x == w@ {
                assert(bag_keys(b1)[i as int] == x);
                assert(w2[words.len() as int] == x);
            }
            if bag_keys(b1).contains(x) && x != w@ {
                let m = choose|m: int| 0 <= m < bag_keys(b1).len() && bag_keys(b1)[m] == x;
                if m < i {
                    assert(k0[m] == x);
                } else {
                    assert(k0[m - 1] == x);
                }
                assert(k0.contains(x));
                assert(words.contains(x));
                let q = choose|q: int| 0 <= q < words.len() && words[q] == x;
                assert(w2[q] == x);
            }
            if w2.contains(x) && x != w@ {
                let m = choose|m: int| 0 <= m < w2.len() && w2[m] == x;
                assert(words[m] == x);
                assert(k0.contains(x));
                let q = choose|q: int| 0 <= q < k0.len() && k0[q] == x;
                if q < i {
                    assert(bag_keys(b1)[q] == x);
                } else {
                    assert(bag_keys(b1)[q + 1] == x);
                }
            }
        }
        assert forall|k: int| 0 <= k < b1.len() implies (#[trigger] b1[k]).1
            == w2.to_multiset().count(b1[k].0@) by {
            if k < i {
                assert(b1[k] == b0[k]);
                assert(k0[k] != w@) by {
                    lemma_lt_irreflexive(w@);
                }
            } else if k > i {
                assert(b1[k] == b0[k - 1]);
                assert(k0[k - 1] != w@) by {
                    if k - 1 == i {
                        lemma_lt_irreflexive(w@);
                    } else {
                        assert(seq_lt(k0[i as int], k0[k - 1]));
                        lemma_lt_transitive(w@, k0[i as int], k0[k - 1]);
                        lemma_lt_irreflexive(w@);
                    }
                }
            }
        }
    }
}

/// The word counts of a JD: its lower-cased tokens of three or more chars,
/// stop words left out.
pub fn bag(text: &str) -> (b: Vec<(String, u32)>)
    requires
        bag_tokens(text@).len() < u32::MAX,
    ensures
        counts_words(b@, bag_tokens(text@)),
{
    let toks = tokenize(text);
    let ghost ts = toks.deep_view();
    let mut b: Vec<(String, u32)> = Vec::new();
    let ghost mut words: Seq<Seq<char>> = seq![];
    assert(bag_keys(b@) =~= Seq::<Seq<char>>::empty());
    let mut i: usize = 0;
    while i < toks.len()
        invariant
            i <= toks.len(),
            ts == toks.deep_view(),
            ts == tokens_of(text@),
            bag_tokens(text@).len() < u32::MAX,
            words == ts.take(i as int).filter(not_stop_fn()),
            counts_words(b@, words),
        decreases toks.len() - i,
    {
        proof {
            assert(ts.take(i + 1) =~= ts.take(i as int).push(ts[i as int]));
            assert(ts[i as int] == toks[i as int]@);
            ts.take(i as int).lemma_filter_push(ts[i as int], not_stop_fn());
            assert(ts =~= ts.take(i as int) + ts.skip(i as int));
            Seq::filter_distributes_over_add(ts.take(i as int), ts.skip(i as int), not_stop_fn());
        }
        if !is_stop(toks[i].as_str()) {
            add_word(&mut b, &toks[i], Ghost(words));
            proof {
                words = words.push(toks[i as int]@);
            }
        }
        i = i + 1;
    }
    assert(ts.take(i as int) =~= ts);
    b
}

} // verus!
