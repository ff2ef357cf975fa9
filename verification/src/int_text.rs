//! Decimal text of integers (what `Display` writes for `i64`).
use vstd::prelude::*;

verus! {

pub open spec fn digit_char(d: int) -> char {
    ((d + 48) as u32) as char
}

/// The decimal digits of a natural number, most significant first.
pub open spec fn nat_digits(n: nat) -> Seq<char>
    decreases n,
{
    if n < 10 {
        seq![digit_char(n as int)]
    } else {
        nat_digits(n / 10).push(digit_char((n % 10) as int))
    }
}

/// The decimal text of an integer: a `-` for negatives, no leading zeros.
pub open spec fn decimal(n: int) -> Seq<char> {
    if n < 0 {
        seq!['-'] + nat_digits((-n) as nat)
    } else {
        nat_digits(n as nat)
    }
}

fn digits_of(n: u64) -> (r: Vec<char>)
    ensures
        r@ == nat_digits(n as nat),
    decreases n,
{
    if n < 10 {
        let mut v: Vec<char> = Vec::new();
        v.push(((n as u8) + 48) as char);
        v
    } else {
        let mut v = digits_of(n / 10);
        v.push((((n % 10) as u8) + 48) as char);
        v
    }
}

/// `n.to_string()` for a `usize`.
pub fn usize_text(n: usize) -> (s: String)
    ensures
        s@ == decimal(n as int),
{
    let d = digits_of(n as u64);
    crate::text::string_of(&d)
}

/// `n.to_string()`.
pub fn i64_text(n: i64) -> (s: String)
    ensures
        s@ == decimal(n as int),
{
    if n < 0 {
        let m: u64 = if n == i64::MIN {
            9223372036854775808u64
        } else {
            (-n) as u64
        };
        let mut v: Vec<char> = Vec::new();
        v.push('-');
        let d = digits_of(m);
        crate::text::extend(&mut v, &d);
        assert(v@ =~= seq!['-'] + nat_digits((-n) as nat));
        crate::text::string_of(&v)
    } else {
        let d = digits_of(n as u64);
        crate::text::string_of(&d)
    }
}

} // verus!
