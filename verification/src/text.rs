//! Character-level text helpers shared by the normalizer, the slug builder,
//! the tailoring pass and the runner.  Everything here works on the `char`
//! view of a string (`Seq<char>`), which is also how the contracts speak.
use vstd::prelude::*;

verus! {

// ---------------------------------------------------------------------------
// Character classes (the meaning of std's `char` predicates)
// ---------------------------------------------------------------------------

/// Unicode `White_Space`, the property behind `char::is_whitespace`.
pub open spec fn is_ws(c: char) -> bool {
    ||| ('\u{9}' <= c && c <= '\u{d}')
    ||| c == ' '
    ||| c == '\u{85}'
    ||| c == '\u{a0}'
    ||| c == '\u{1680}'
    ||| ('\u{2000}' <= c && c <= '\u{200a}')
    ||| c == '\u{2028}'
    ||| c == '\u{2029}'
    ||| c == '\u{202f}'
    ||| c == '\u{205f}'
    ||| c == '\u{3000}'
}

/// General category `Cc`, the property behind `char::is_control`.
pub open spec fn is_ctrl(c: char) -> bool {
    c <= '\u{1f}' || ('\u{7f}' <= c && c <= '\u{9f}')
}

/// `char::is_ascii_alphanumeric`.
pub open spec fn is_alnum(c: char) -> bool {
    ('0' <= c && c <= '9') || ('A' <= c && c <= 'Z') || ('a' <= c && c <= 'z')
}

pub open spec fn is_upper_ascii(c: char) -> bool {
    'A' <= c && c <= 'Z'
}

pub open spec fn is_lower_ascii(c: char) -> bool {
    'a' <= c && c <= 'z'
}

/// `char::to_ascii_lowercase`.
pub open spec fn lower_char(c: char) -> char {
    if is_upper_ascii(c) {
        ((c as u32) + 32) as char
    } else {
        c
    }
}

/// `char::to_ascii_uppercase`.
pub open spec fn upper_char(c: char) -> char {
    if is_lower_ascii(c) {
        ((c as u32) - 32) as char
    } else {
        c
    }
}

/// `str::to_ascii_lowercase` on the char view.
pub open spec fn ascii_lower(s: Seq<char>) -> Seq<char> {
    s.map_values(|c: char| lower_char(c))
}

/// `str::to_ascii_uppercase` on the char view.
pub open spec fn ascii_upper(s: Seq<char>) -> Seq<char> {
    s.map_values(|c: char| upper_char(c))
}

/// Number of bytes of `c` in UTF-8 (`char::len_utf8`).
pub open spec fn char_width(c: char) -> nat {
    if (c as u32) < 0x80 {
        1
    } else if (c as u32) < 0x800 {
        2
    } else if (c as u32) < 0x10000 {
        3
    } else {
        4
    }
}

/// Number of bytes of the UTF-8 encoding of `s` (`str::len`).
pub open spec fn byte_len(s: Seq<char>) -> nat
    decreases s.len(),
{
    if s.len() == 0 {
        0
    } else {
        byte_len(s.drop_last()) + char_width(s.last())
    }
}

pub fn char_is_whitespace(c: char) -> (b: bool)
    ensures
        b == is_ws(c),
{
    ('\u{9}' <= c && c <= '\u{d}') || c == ' ' || c == '\u{85}' || c == '\u{a0}' || c
        == '\u{1680}' || ('\u{2000}' <= c && c <= '\u{200a}') || c == '\u{2028}' || c
        == '\u{2029}' || c == '\u{202f}' || c == '\u{205f}' || c == '\u{3000}'
}

pub fn char_is_control(c: char) -> (b: bool)
    ensures
        b == is_ctrl(c),
{
    c <= '\u{1f}' || ('\u{7f}' <= c && c <= '\u{9f}')
}

pub fn char_is_alnum(c: char) -> (b: bool)
    ensures
        b == is_alnum(c),
{
    ('0' <= c && c <= '9') || ('A' <= c && c <= 'Z') || ('a' <= c && c <= 'z')
}

pub fn char_lower(c: char) -> (r: char)
    ensures
        r == lower_char(c),
{
    if 'A' <= c && c <= 'Z' {
        ((c as u8) + 32) as char
    } else {
        c
    }
}

pub fn char_upper(c: char) -> (r: char)
    ensures
        r == upper_char(c),
{
    if 'a' <= c && c <= 'z' {
        ((c as u8) - 32) as char
    } else {
        c
    }
}

pub fn char_width_exec(c: char) -> (w: usize)
    ensures
        w == char_width(c),
{
    if (c as u32) < 0x80 {
        1
    } else if (c as u32) < 0x800 {
        2
    } else if (c as u32) < 0x10000 {
        3
    } else {
        4
    }
}

pub proof fn lemma_byte_len_push(s: Seq<char>, c: char)
    ensures
        byte_len(s.push(c)) == byte_len(s) + char_width(c),
{
    assert(s.push(c).drop_last() =~= s);
}

pub proof fn lemma_byte_len_prepend(c: char, t: Seq<char>)
    ensures
        byte_len(seq![c] + t) == char_width(c) + byte_len(t),
    decreases t.len(),
{
    if t.len() == 0 {
        assert(seq![c] + t =~= Seq::<char>::empty().push(c));
        lemma_byte_len_push(Seq::<char>::empty(), c);
    } else {
        lemma_byte_len_prepend(c, t.drop_last());
        assert(seq![c] + t =~= (seq![c] + t.drop_last()).push(t.last()));
        assert(t =~= t.drop_last().push(t.last()));
        lemma_byte_len_push(seq![c] + t.drop_last(), t.last());
        lemma_byte_len_push(t.drop_last(), t.last());
    }
}

pub proof fn lemma_byte_len_ge_len(s: Seq<char>)
    ensures
        byte_len(s) >= s.len(),
    decreases s.len(),
{
    if s.len() > 0 {
        lemma_byte_len_ge_len(s.drop_last());
    }
}

/// Byte length of a char sequence, computed by summing widths.
pub fn byte_len_of(v: &Vec<char>) -> (n: usize)
    requires
        byte_len(v@) <= usize::MAX,
    ensures
        n == byte_len(v@),
{
    let mut n: usize = 0;
    let mut i: usize = 0;
    while i < v.len()
        invariant
            i <= v.len(),
            n == byte_len(v@.take(i as int)),
            byte_len(v@) <= usize::MAX,
        decreases v.len() - i,
    {
        proof {
            lemma_byte_len_push(v@.take(i as int), v@[i as int]);
            assert(v@.take(i as int).push(v@[i as int]) =~= v@.take(i + 1));
            lemma_byte_len_prefix_le(v@, i + 1);
        }
        n = n + char_width_exec(v[i]);
        i = i + 1;
    }
    assert(v@.take(i as int) =~= v@);
    n
}

pub proof fn lemma_byte_len_prefix_le(s: Seq<char>, k: int)
    requires
        0 <= k <= s.len(),
    ensures
        byte_len(s.take(k)) <= byte_len(s),
    decreases s.len() - k,
{
    if k < s.len() {
        lemma_byte_len_prefix_le(s, k + 1);
        lemma_byte_len_push(s.take(k), s[k]);
        assert(s.take(k).push(s[k]) =~= s.take(k + 1));
    } else {
        assert(s.take(k) =~= s);
    }
}

// ---------------------------------------------------------------------------
// Conversions between `&str`, `String` and `Vec<char>`
// ---------------------------------------------------------------------------

/// The characters of `s`, in order.
pub fn chars_of(s: &str) -> (v: Vec<char>)
    ensures
        v@ == s@,
{
    let mut v: Vec<char> = Vec::new();
    for c in it: s.chars()
        invariant
            v@ == it.seq().take(it.index() as int),
    {
        v.push(c);
    }
    v
}

/// `String::from_iter` over a slice of chars.
#[verifier::external_body]
pub fn string_of(v: &[char]) -> (s: String)
    ensures
        s@ == v@,
{
    v.iter().collect()
}

/// `str::to_string`.
pub fn owned(s: &str) -> (r: String)
    ensures
        r@ == s@,
{
    s.to_owned()
}

/// `Option<String>::clone`.
pub fn copy_opt(o: &Option<String>) -> (r: Option<String>)
    ensures
        r == *o,
{
    match o {
        Some(t) => Some(t.clone()),
        None => None,
    }
}

/// A copy of `v[lo..hi]`.
pub fn sub_vec(v: &Vec<char>, lo: usize, hi: usize) -> (r: Vec<char>)
    requires
        lo <= hi <= v.len(),
    ensures
        r@ == v@.subrange(lo as int, hi as int),
{
    let mut r: Vec<char> = Vec::new();
    let mut i = lo;
    while i < hi
        invariant
            lo <= i <= hi <= v.len(),
            r@ == v@.subrange(lo as int, i as int),
        decreases hi - i,
    {
        r.push(v[i]);
        i = i + 1;
        assert(r@ =~= v@.subrange(lo as int, i as int));
    }
    r
}

/// Append all of `b` to `a`.
pub fn extend(a: &mut Vec<char>, b: &Vec<char>)
    ensures
        final(a)@ == old(a)@ + b@,
{
    let ghost a0 = a@;
    let mut i: usize = 0;
    while i < b.len()
        invariant
            i <= b.len(),
            a@ == a0 + b@.take(i as int),
        decreases b.len() - i,
    {
        a.push(b[i]);
        i = i + 1;
        assert(a@ =~= a0 + b@.take(i as int));
    }
    assert(b@.take(i as int) =~= b@);
}

/// Element-wise equality of two char vectors.
pub fn vec_eq(a: &Vec<char>, b: &Vec<char>) -> (r: bool)
    ensures
        r == (a@ == b@),
{
    if a.len() != b.len() {
        return false;
    }
    let mut i: usize = 0;
    while i < a.len()
        invariant
            i <= a.len(),
            a.len() == b.len(),
            forall|j: int| 0 <= j < i ==> a@[j] == b@[j],
        decreases a.len() - i,
    {
        if a[i] != b[i] {
            return false;
        }
        i = i + 1;
    }
    assert(a@ =~= b@);
    true
}

pub fn str_eq(a: &str, b: &str) -> (r: bool)
    ensures
        r == (a@ == b@),
{
    let va = chars_of(a);
    let vb = chars_of(b);
    vec_eq(&va, &vb)
}

// ---------------------------------------------------------------------------
// ASCII case mapping
// ---------------------------------------------------------------------------

pub fn ascii_lower_vec(v: &Vec<char>) -> (r: Vec<char>)
    ensures
        r@ == ascii_lower(v@),
{
    let mut r: Vec<char> = Vec::new();
    let mut i: usize = 0;
    while i < v.len()
        invariant
            i <= v.len(),
            r@ == ascii_lower(v@.take(i as int)),
        decreases v.len() - i,
    {
        r.push(char_lower(v[i]));
        i = i + 1;
        assert(r@ =~= ascii_lower(v@.take(i as int)));
    }
    assert(v@.take(i as int) =~= v@);
    r
}

pub fn ascii_upper_vec(v: &Vec<char>) -> (r: Vec<char>)
    ensures
        r@ == ascii_upper(v@),
{
    let mut r: Vec<char> = Vec::new();
    let mut i: usize = 0;
    while i < v.len()
        invariant
            i <= v.len(),
            r@ == ascii_upper(v@.take(i as int)),
        decreases v.len() - i,
    {
        r.push(char_upper(v[i]));
        i = i + 1;
        assert(r@ =~= ascii_upper(v@.take(i as int)));
    }
    assert(v@.take(i as int) =~= v@);
    r
}

// ---------------------------------------------------------------------------
// Trimming
// ---------------------------------------------------------------------------

/// The sets of characters trimmed from the ends of a string (what std's
/// `trim`, `trim_matches` and `trim_end_matches` are called with).
#[derive(Clone, Copy, Debug, PartialEq, Eq)]
pub enum TrimSet {
    Whitespace,
    Dash,
    Dot,
    /// Dots, underscores and whitespace (slug edges).
    SlugEdge,
}

pub open spec fn in_set(t: TrimSet, c: char) -> bool {
    match t {
        TrimSet::Whitespace => is_ws(c),
        TrimSet::Dash => c == '-',
        TrimSet::Dot => c == '.',
        TrimSet::SlugEdge => c == '.' || c == '_' || is_ws(c),
    }
}

pub fn in_set_exec(t: TrimSet, c: char) -> (b: bool)
    ensures
        b == in_set(t, c),
{
    match t {
        TrimSet::Whitespace => char_is_whitespace(c),
        TrimSet::Dash => c == '-',
        TrimSet::Dot => c == '.',
        TrimSet::SlugEdge => c == '.' || c == '_' || char_is_whitespace(c),
    }
}

/// Drop the leading characters that belong to `t`.
pub open spec fn drop_lead(s: Seq<char>, t: TrimSet) -> Seq<char>
    decreases s.len(),
{
    if s.len() > 0 && in_set(t, s[0]) {
        drop_lead(s.drop_first(), t)
    } else {
        s
    }
}

/// Drop the trailing characters that belong to `t`.
pub open spec fn drop_trail(s: Seq<char>, t: TrimSet) -> Seq<char>
    decreases s.len(),
{
    if s.len() > 0 && in_set(t, s.last()) {
        drop_trail(s.drop_last(), t)
    } else {
        s
    }
}

/// Both ends trimmed (`trim`, `trim_matches`).
pub open spec fn trim_set(s: Seq<char>, t: TrimSet) -> Seq<char> {
    drop_trail(drop_lead(s, t), t)
}

/// `str::trim`.
pub open spec fn trim(s: Seq<char>) -> Seq<char> {
    trim_set(s, TrimSet::Whitespace)
}

/// `drop_lead` removes a prefix.
pub proof fn lemma_drop_lead_sub(s: Seq<char>, t: TrimSet) -> (k: int)
    ensures
        0 <= k <= s.len(),
        drop_lead(s, t) == s.subrange(k, s.len() as int),
        k < s.len() ==> !in_set(t, s[k]),
    decreases s.len(),
{
    if s.len() > 0 && in_set(t, s[0]) {
        let k = lemma_drop_lead_sub(s.drop_first(), t);
        assert(s.drop_first().subrange(k, s.drop_first().len() as int) =~= s.subrange(
            k + 1,
            s.len() as int,
        ));
        k + 1
    } else {
        assert(s.subrange(0, s.len() as int) =~= s);
        0
    }
}

/// `drop_trail` removes a suffix.
pub proof fn lemma_drop_trail_sub(s: Seq<char>, t: TrimSet) -> (k: int)
    ensures
        0 <= k <= s.len(),
        drop_trail(s, t) == s.subrange(0, k),
    decreases s.len(),
{
    if s.len() > 0 && in_set(t, s.last()) {
        let k = lemma_drop_trail_sub(s.drop_last(), t);
        assert(s.drop_last().subrange(0, k) =~= s.subrange(0, k));
        k
    } else {
        assert(s.subrange(0, s.len() as int) =~= s);
        s.len() as int
    }
}

/// A trimmed string is the slice `s[a..b]`, whose ends are outside the set.
pub proof fn lemma_trim_range(s: Seq<char>, t: TrimSet) -> (r: (int, int))
    ensures
        0 <= r.0 <= r.1 <= s.len(),
        trim_set(s, t) == s.subrange(r.0, r.1),
        r.0 < r.1 ==> !in_set(t, s[r.0]) && !in_set(t, s[r.1 - 1]),
{
    let a = lemma_drop_lead_sub(s, t);
    let d = drop_lead(s, t);
    let b = lemma_drop_trail_sub(d, t);
    assert(d.subrange(0, b) =~= s.subrange(a, a + b));
    if b > 0 {
        lemma_drop_trail_end(d, t);
        assert(trim_set(s, t).last() == s[a + b - 1]);
    }
    (a, a + b)
}

/// What `drop_trail` leaves does not end in the set.
pub proof fn lemma_drop_trail_end(s: Seq<char>, t: TrimSet)
    ensures
        drop_trail(s, t).len() > 0 ==> !in_set(t, drop_trail(s, t).last()),
    decreases s.len(),
{
    if s.len() > 0 && in_set(t, s.last()) {
        lemma_drop_trail_end(s.drop_last(), t);
    }
}

/// Bounds `(a, b)` such that `s[a..b]` is `s = v[lo..hi]` without its
/// leading (if `lead`) and trailing (if `trail`) characters of `t`.
pub fn trim_bounds(v: &Vec<char>, lo: usize, hi: usize, t: TrimSet, lead: bool, trail: bool) -> (r: (usize, usize))
    requires
        lo <= hi <= v.len(),
    ensures
        lo <= r.0 <= r.1 <= hi,
        v@.subrange(r.0 as int, r.1 as int) == ({
            let s = v@.subrange(lo as int, hi as int);
            let a = if lead {
                drop_lead(s, t)
            } else {
                s
            };
            if trail {
                drop_trail(a, t)
            } else {
                a
            }
        }),
{
    let ghost s = v@.subrange(lo as int, hi as int);
    let mut i: usize = lo;
    if lead {
        while i < hi && in_set_exec(t, v[i])
            invariant
                lo <= i <= hi <= v.len(),
                s == v@.subrange(lo as int, hi as int),
                drop_lead(s, t) == drop_lead(v@.subrange(i as int, hi as int), t),
            decreases hi - i,
        {
            assert(v@.subrange(i as int, hi as int).drop_first() =~= v@.subrange(
                i + 1,
                hi as int,
            ));
            i = i + 1;
        }
    }
    let ghost a = v@.subrange(i as int, hi as int);
    let mut j: usize = hi;
    if trail {
        while j > i && in_set_exec(t, v[j - 1])
            invariant
                lo <= i <= j <= hi <= v.len(),
                a == v@.subrange(i as int, hi as int),
                drop_trail(a, t) == drop_trail(v@.subrange(i as int, j as int), t),
            decreases j,
        {
            assert(v@.subrange(i as int, j as int).drop_last() =~= v@.subrange(
                i as int,
                j - 1,
            ));
            j = j - 1;
        }
    }
    (i, j)
}

/// `v` trimmed on both ends by `t`.
pub fn trim_vec(v: &Vec<char>, t: TrimSet) -> (r: Vec<char>)
    ensures
        r@ == trim_set(v@, t),
{
    let (lo, hi) = trim_bounds(v, 0, v.len(), t, true, true);
    assert(v@.subrange(0, v.len() as int) =~= v@);
    sub_vec(v, lo, hi)
}

/// `v` without its trailing characters of `t`.
pub fn trim_end_vec(v: &Vec<char>, t: TrimSet) -> (r: Vec<char>)
    ensures
        r@ == drop_trail(v@, t),
{
    let (lo, hi) = trim_bounds(v, 0, v.len(), t, false, true);
    assert(v@.subrange(0, v.len() as int) =~= v@);
    sub_vec(v, lo, hi)
}

/// `parts.join(sep)`.
pub open spec fn joined(parts: Seq<Seq<char>>, sep: Seq<char>) -> Seq<char>
    decreases parts.len(),
{
    if parts.len() == 0 {
        seq![]
    } else if parts.len() == 1 {
        parts[0]
    } else {
        joined(parts.drop_last(), sep) + sep + parts.last()
    }
}

// ---------------------------------------------------------------------------
// Searching
// ---------------------------------------------------------------------------

/// `needle` occurs in `hay` starting at `i`.
pub open spec fn occurs_at(hay: Seq<char>, needle: Seq<char>, i: int) -> bool {
    0 <= i && i + needle.len() <= hay.len() && hay.subrange(i, i + needle.len()) == needle
}

/// `str::contains` with a string pattern.
pub open spec fn contains_sub(hay: Seq<char>, needle: Seq<char>) -> bool {
    exists|i: int| occurs_at(hay, needle, i)
}

/// Whether `needle` occurs at position `i` of `hay`.
pub fn matches_at(hay: &Vec<char>, needle: &Vec<char>, i: usize) -> (b: bool)
    requires
        i + needle.len() <= hay.len(),
    ensures
        b == occurs_at(hay@, needle@, i as int),
{
    let mut k: usize = 0;
    while k < needle.len()
        invariant
            k <= needle.len(),
            i + needle.len() <= hay.len(),
            forall|j: int| 0 <= j < k ==> hay@[i + j] == needle@[j],
        decreases needle.len() - k,
    {
        if hay[i + k] != needle[k] {
            assert(hay@.subrange(i as int, i + needle.len())[k as int] != needle@[k as int]);
            return false;
        }
        k = k + 1;
    }
    assert(hay@.subrange(i as int, i + needle.len()) =~= needle@);
    true
}

pub fn vec_contains(hay: &Vec<char>, needle: &Vec<char>) -> (b: bool)
    ensures
        b == contains_sub(hay@, needle@),
{
    if needle.len() > hay.len() {
        return false;
    }
    let last = hay.len() - needle.len();
    let mut i: usize = 0;
    loop
        invariant
            i <= last,
            last + needle.len() == hay.len(),
            forall|j: int| 0 <= j < i ==> !occurs_at(hay@, needle@, j),
        ensures
            forall|j: int| 0 <= j <= last ==> !occurs_at(hay@, needle@, j),
        decreases last - i,
    {
        if matches_at(hay, needle, i) {
            return true;
        }
        if i == last {
            break;
        }
        i = i + 1;
    }
    false
}

/// `needle` occurs in `hay` at `i` as a whole word: no ASCII letter or
/// digit directly before or after it.
pub open spec fn word_at(hay: Seq<char>, needle: Seq<char>, i: int) -> bool {
    &&& occurs_at(hay, needle, i)
    &&& (i == 0 || !is_alnum(hay[i - 1]))
    &&& (i + needle.len() == hay.len() || !is_alnum(hay[i + needle.len()]))
}

/// `needle` is non-empty and occurs in `hay` as a whole word.
pub open spec fn contains_word_seq(hay: Seq<char>, needle: Seq<char>) -> bool {
    needle.len() > 0 && exists|i: int| word_at(hay, needle, i)
}

/// Whether `needle` is non-empty and occurs in `hay` as a whole word.
pub fn vec_contains_word(hay: &Vec<char>, needle: &Vec<char>) -> (b: bool)
    ensures
        b == contains_word_seq(hay@, needle@),
{
    if needle.len() == 0 || needle.len() > hay.len() {
        return false;
    }
    let last = hay.len() - needle.len();
    let mut i: usize = 0;
    loop
        invariant
            i <= last,
            needle.len() > 0,
            last + needle.len() == hay.len(),
            forall|j: int| 0 <= j < i ==> !word_at(hay@, needle@, j),
        ensures
            forall|j: int| 0 <= j <= last ==> !word_at(hay@, needle@, j),
        decreases last - i,
    {
        if matches_at(hay, needle, i) {
            let before_ok = i == 0 || !char_is_alnum(hay[i - 1]);
            let end = i + needle.len();
            let after_ok = end == hay.len() || !char_is_alnum(hay[end]);
            if before_ok && after_ok {
                assert(word_at(hay@, needle@, i as int));
                return true;
            }
        }
        if i == last {
            break;
        }
        i = i + 1;
    }
    false
}

/// `hay.contains(needle)` for a string-literal needle.
pub fn contains_str(hay: &Vec<char>, needle: &str) -> (b: bool)
    ensures
        b == contains_sub(hay@, needle@),
{
    let n = chars_of(needle);
    vec_contains(hay, &n)
}

/// Whether the char `c` occurs in `v`.
pub fn vec_has_char(v: &Vec<char>, c: char) -> (b: bool)
    ensures
        b == v@.contains(c),
{
    let mut i: usize = 0;
    while i < v.len()
        invariant
            i <= v.len(),
            forall|j: int| 0 <= j < i ==> v@[j] != c,
        decreases v.len() - i,
    {
        if v[i] == c {
            return true;
        }
        i = i + 1;
    }
    false
}

/// Position of the last `c` in `s`, if any.
pub open spec fn last_index_of(s: Seq<char>, c: char) -> Option<int>
    decreases s.len(),
{
    if s.len() == 0 {
        None
    } else if s.last() == c {
        Some(s.len() - 1)
    } else {
        last_index_of(s.drop_last(), c)
    }
}

pub proof fn lemma_last_index_of(s: Seq<char>, c: char)
    ensures
        last_index_of(s, c) matches Some(k) ==> 0 <= k < s.len() && s[k] == c && forall|j: int|
            k < j < s.len() ==> s[j] != c,
        last_index_of(s, c) is None ==> forall|j: int| 0 <= j < s.len() ==> s[j] != c,
    decreases s.len(),
{
    if s.len() > 0 && s.last() != c {
        let t = s.drop_last();
        lemma_last_index_of(t, c);
        assert forall|j: int| 0 <= j < t.len() implies t[j] == s[j] by {}
    }
}

pub fn rfind_char(v: &Vec<char>, c: char) -> (r: Option<usize>)
    ensures
        r matches Some(k) ==> last_index_of(v@, c) == Some(k as int) && k < v.len(),
        r is None ==> last_index_of(v@, c) is None,
{
    let mut j: usize = v.len();
    assert(v@.take(j as int) =~= v@);
    while j > 0
        invariant
            j <= v.len(),
            last_index_of(v@, c) == last_index_of(v@.take(j as int), c),
        decreases j,
    {
        if v[j - 1] == c {
            return Some(j - 1);
        }
        assert(v@.take(j as int).drop_last() =~= v@.take(j - 1));
        j = j - 1;
    }
    None
}

/// The index of the first `c` in `s`, if any (`str::find` with a char).
pub open spec fn first_index_of(s: Seq<char>, c: char) -> Option<int> {
    if exists|k: int| 0 <= k < s.len() && s[k] == c {
        Some(choose|k: int| 0 <= k < s.len() && s[k] == c && forall|j: int| 0 <= j < k ==> s[j] != c)
    } else {
        None
    }
}

pub fn find_char(v: &Vec<char>, c: char) -> (r: Option<usize>)
    ensures
        r matches Some(k) ==> k < v.len() && first_index_of(v@, c) == Some(k as int) && v@[k as int]
            == c,
        r is None ==> first_index_of(v@, c) is None,
{
    let mut i: usize = 0;
    while i < v.len()
        invariant
            i <= v.len(),
            forall|j: int| 0 <= j < i ==> v@[j] != c,
        decreases v.len() - i,
    {
        if v[i] == c {
            assert(v@[i as int] == c && forall|j: int| 0 <= j < i ==> v@[j] != c);
            let ghost k = choose|k: int|
                0 <= k < v@.len() && v@[k] == c && forall|j: int| 0 <= j < k ==> v@[j] != c;
            assert(k == i) by {
                if k < i {
                } else if k > i {
                    assert(v@[i as int] != c);
                }
            }
            return Some(i);
        }
        i = i + 1;
    }
    None
}

// ---------------------------------------------------------------------------
// Lines (`str::lines`)
// ---------------------------------------------------------------------------

/// A line without the `\r` of a `\r\n` ending.
pub open spec fn strip_cr(s: Seq<char>) -> Seq<char> {
    if s.len() > 0 && s.last() == '\r' {
        s.drop_last()
    } else {
        s
    }
}

/// The lines of `s` once `cur` (the part of the current line already read)
/// has been consumed: lines end at `\n` (with an optional `\r` before it),
/// and a final empty line is not produced.
pub open spec fn lines_from(s: Seq<char>, cur: Seq<char>) -> Seq<Seq<char>>
    decreases s.len(),
{
    if s.len() == 0 {
        if cur.len() == 0 {
            seq![]
        } else {
            seq![cur]
        }
    } else if s[0] == '\n' {
        seq![strip_cr(cur)] + lines_from(s.drop_first(), seq![])
    } else {
        lines_from(s.drop_first(), cur.push(s[0]))
    }
}

/// `str::lines`.
pub open spec fn lines_of(s: Seq<char>) -> Seq<Seq<char>> {
    lines_from(s, seq![])
}

/// The pieces of `s` that a list of index ranges picks out.
pub open spec fn ranges_view(s: Seq<char>, r: Seq<(usize, usize)>) -> Seq<Seq<char>> {
    r.map_values(|p: (usize, usize)| s.subrange(p.0 as int, p.1 as int))
}

/// Every range lies inside a text of length `n`.
pub open spec fn ranges_in(r: Seq<(usize, usize)>, n: int) -> bool {
    forall|k: int| 0 <= k < r.len() ==> #[trigger] r[k].0 <= r[k].1 && r[k].1 <= n
}

pub proof fn lemma_ranges_in_push(r: Seq<(usize, usize)>, p: (usize, usize), n: int)
    requires
        ranges_in(r, n),
        p.0 <= p.1 <= n,
    ensures
        ranges_in(r.push(p), n),
{
    assert forall|k: int| 0 <= k < r.push(p).len() implies #[trigger] r.push(p)[k].0 <= r.push(
        p,
    )[k].1 && r.push(p)[k].1 <= n by {
        if k < r.len() {
            assert(r.push(p)[k] == r[k]);
        }
    }
}

/// The char ranges of the lines of `v`.
pub fn line_ranges(v: &Vec<char>) -> (r: Vec<(usize, usize)>)
    ensures
        ranges_in(r@, v.len() as int),
        ranges_view(v@, r@) == lines_of(v@),
{
    let n = v.len();
    let mut r: Vec<(usize, usize)> = Vec::new();
    let mut start: usize = 0;
    let mut i: usize = 0;
    assert(v@.skip(0) =~= v@);
    assert(v@.subrange(0, 0) =~= Seq::<char>::empty());
    while i < n
        invariant
            start <= i <= n == v.len(),
            ranges_in(r@, v.len() as int),
            lines_of(v@) == ranges_view(v@, r@) + lines_from(
                v@.skip(i as int),
                v@.subrange(start as int, i as int),
            ),
        decreases n - i,
    {
        let ghost cur = v@.subrange(start as int, i as int);
        let ghost rest = v@.skip(i as int);
        assert(rest.drop_first() =~= v@.skip(i + 1));
        assert(rest[0] == v@[i as int]);
        if v[i] == '\n' {
            let hi = if i > start && v[i - 1] == '\r' {
                i - 1
            } else {
                i
            };
            assert(v@.subrange(start as int, hi as int) =~= strip_cr(cur));
            let ghost old_r = r@;
            r.push((start, hi));
            proof {
                lemma_ranges_in_push(old_r, (start, hi), n as int);
                assert(r@ == old_r.push((start, hi)));
            }
            assert(ranges_view(v@, r@) =~= ranges_view(v@, old_r).push(strip_cr(cur)));
            start = i + 1;
            assert(v@.subrange(start as int, start as int) =~= Seq::<char>::empty());
            assert(lines_from(rest, cur) == seq![strip_cr(cur)] + lines_from(
                v@.skip(i + 1),
                seq![],
            ));
            assert(ranges_view(v@, old_r) + (seq![strip_cr(cur)] + lines_from(
                v@.skip(i + 1),
                seq![],
            )) =~= ranges_view(v@, r@) + lines_from(v@.skip(i + 1), seq![]));
        } else {
            assert(cur.push(v@[i as int]) =~= v@.subrange(start as int, i + 1));
        }
        i = i + 1;
    }
    let ghost cur = v@.subrange(start as int, n as int);
    assert(v@.skip(n as int) =~= Seq::<char>::empty());
    if start < n {
        let ghost old_r = r@;
        r.push((start, n));
        proof {
            lemma_ranges_in_push(old_r, (start, n), n as int);
            assert(r@ == old_r.push((start, n)));
        }
        assert(ranges_view(v@, r@) =~= ranges_view(v@, old_r).push(cur));
        assert(ranges_view(v@, old_r) + seq![cur] =~= ranges_view(v@, r@));
        assert(ranges_in(r@, n as int));
    } else {
        assert(ranges_in(r@, n as int));
        assert(ranges_view(v@, r@) + seq![] =~= ranges_view(v@, r@));
    }
    r
}

/// Whether `byte_len(v[lo..hi]) <= limit`, without computing more than
/// `limit + 4` bytes.
pub fn byte_len_at_most(v: &Vec<char>, lo: usize, hi: usize, limit: usize) -> (b: bool)
    requires
        lo <= hi <= v.len(),
        limit <= 0x1000_0000,
    ensures
        b == (byte_len(v@.subrange(lo as int, hi as int)) <= limit),
{
    let mut n: usize = 0;
    let mut i: usize = lo;
    assert(v@.subrange(lo as int, lo as int) =~= Seq::<char>::empty());
    while i < hi
        invariant
            lo <= i <= hi <= v.len(),
            limit <= 0x1000_0000,
            n == byte_len(v@.subrange(lo as int, i as int)),
            n <= limit,
        decreases hi - i,
    {
        proof {
            lemma_byte_len_push(v@.subrange(lo as int, i as int), v@[i as int]);
            assert(v@.subrange(lo as int, i as int).push(v@[i as int]) =~= v@.subrange(
                lo as int,
                i + 1,
            ));
        }
        n = n + char_width_exec(v[i]);
        i = i + 1;
        if n > limit {
            proof {
                lemma_byte_len_prefix_le(v@.subrange(lo as int, hi as int), i - lo);
                assert(v@.subrange(lo as int, hi as int).take(i - lo) =~= v@.subrange(
                    lo as int,
                    i as int,
                ));
            }
            return false;
        }
    }
    true
}

} // verus!
