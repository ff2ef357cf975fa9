//! Calendar dates.  Parsing, day arithmetic and `%Y-%m-%d` formatting are
//! chrono's; the library only decides which parse to try and what a day
//! difference means.
use chrono::Datelike;
use crate::int_text::{digit_char, nat_digits};
use vstd::prelude::*;

verus! {

/// A proleptic-Gregorian calendar date.
#[derive(Debug, Clone, Copy, PartialEq, Eq, Structural)]
pub struct CalendarDate {
    pub year: i32,
    pub month: u32,
    pub day: u32,
}

pub open spec fn is_leap(y: int) -> bool {
    (y % 4 == 0 && y % 100 != 0) || y % 400 == 0
}

pub open spec fn days_in_month(y: int, m: int) -> int {
    if m == 2 {
        if is_leap(y) {
            29
        } else {
            28
        }
    } else if m == 4 || m == 6 || m == 9 || m == 11 {
        30
    } else {
        31
    }
}

/// A date that chrono's `NaiveDate` can represent.
pub open spec fn valid_date(d: CalendarDate) -> bool {
    &&& -262143 <= d.year <= 262142
    &&& 1 <= d.month <= 12
    &&& 1 <= d.day <= days_in_month(d.year as int, d.month as int)
}

pub fn is_valid_date(d: CalendarDate) -> (b: bool)
    ensures
        b == valid_date(d),
{
    if d.year < -262143 || d.year > 262142 || d.month < 1 || d.month > 12 || d.day < 1 {
        return false;
    }
    // Shift the year to a positive number with the same residues.
    let y: i64 = d.year as i64 + 400000;
    assert(y % 4 == (d.year as int) % 4);
    assert(y % 100 == (d.year as int) % 100);
    assert(y % 400 == (d.year as int) % 400);
    let leap = (y % 4 == 0 && y % 100 != 0) || y % 400 == 0;
    let dim: u32 = if d.month == 2 {
        if leap {
            29
        } else {
            28
        }
    } else if d.month == 4 || d.month == 6 || d.month == 9 || d.month == 11 {
        30
    } else {
        31
    };
    d.day <= dim
}

/// chrono's `NaiveDate::parse_from_str(s, "%Y-%m-%d")`, as (year, month, day).
pub uninterp spec fn ymd_parse(s: Seq<char>) -> Option<(i32, u32, u32)>;

/// chrono's `DateTime::parse_from_rfc3339(s)`, as the date in the
/// timestamp's own offset.
pub uninterp spec fn rfc3339_local_date(s: Seq<char>) -> Option<(i32, u32, u32)>;

/// chrono's `DateTime::parse_from_rfc2822(s)`, as the date in the
/// timestamp's own offset.
pub uninterp spec fn rfc2822_local_date(s: Seq<char>) -> Option<(i32, u32, u32)>;

/// Days in the months of year `y` before month `m`.
pub open spec fn days_before_month(y: int, m: int) -> int
    decreases m,
{
    if m <= 1 {
        0
    } else {
        days_before_month(y, m - 1) + days_in_month(y, m - 1)
    }
}

/// Days from January 1 of year 1 to January 1 of year `y` (negative for
/// years before 1).
pub open spec fn days_before_year(y: int) -> int {
    let p = y - 1;
    365 * p + p / 4 - p / 100 + p / 400
}

/// The day number of a date in the proleptic Gregorian calendar, with
/// January 1 of year 1 as day 1 (chrono's `num_days_from_ce`).
pub open spec fn days_from_ce(year: i32, month: u32, day: u32) -> int {
    days_before_year(year as int) + days_before_month(year as int, month as int) + day
}

/// The day number of the Unix epoch, 1970-01-01.
pub open spec fn epoch_day() -> int {
    719163
}

/// Two zero-padded decimal digits of `n` (for `0 <= n < 100`).
pub open spec fn two_digits(n: int) -> Seq<char> {
    seq![digit_char(n / 10), digit_char(n % 10)]
}

/// `s` with `'0'`s in front up to width `w`.
pub open spec fn zero_padded(s: Seq<char>, w: nat) -> Seq<char> {
    if s.len() < w {
        Seq::new((w - s.len()) as nat, |i: int| '0') + s
    } else {
        s
    }
}

/// chrono's `%Y`: years 0 to 9999 as four zero-padded digits, other years
/// with a sign and at least four digits.
pub open spec fn year_text(y: int) -> Seq<char> {
    if 0 <= y <= 9999 {
        zero_padded(nat_digits(y as nat), 4)
    } else if y > 9999 {
        seq!['+'] + nat_digits(y as nat)
    } else {
        seq!['-'] + zero_padded(nat_digits((-y) as nat), 4)
    }
}

/// chrono's `format("%Y-%m-%d")` of a date.
pub open spec fn ymd_text(year: i32, month: u32, day: u32) -> Seq<char> {
    year_text(year as int) + seq!['-'] + two_digits(month as int) + seq!['-'] + two_digits(
        day as int,
    )
}

/// The representable date with day number `n`, if there is one.
pub open spec fn date_of_day(n: int) -> Option<CalendarDate> {
    if exists|d: CalendarDate| valid_date(d) && #[trigger] days_from_ce(d.year, d.month, d.day) == n {
        Some(
            choose|d: CalendarDate|
                valid_date(d) && #[trigger] days_from_ce(d.year, d.month, d.day) == n,
        )
    } else {
        None
    }
}

/// `a` comes before `b` on the calendar.
pub open spec fn date_before(a: CalendarDate, b: CalendarDate) -> bool {
    ||| a.year < b.year
    ||| a.year == b.year && a.month < b.month
    ||| a.year == b.year && a.month == b.month && a.day < b.day
}

proof fn lemma_year_length(y: int)
    ensures
        days_before_year(y + 1) == days_before_year(y) + 365 + (if is_leap(y) {
            1int
        } else {
            0int
        }),
{
    let p = y - 1;
    assert(y / 4 - p / 4 == (if y % 4 == 0 {
        1int
    } else {
        0int
    }));
    assert(y / 100 - p / 100 == (if y % 100 == 0 {
        1int
    } else {
        0int
    }));
    assert(y / 400 - p / 400 == (if y % 400 == 0 {
        1int
    } else {
        0int
    }));
}

proof fn lemma_months_total(y: int)
    ensures
        days_before_month(y, 13) == 365 + (if is_leap(y) {
            1int
        } else {
            0int
        }),
{
    reveal_with_fuel(days_before_month, 13);
}

proof fn lemma_month_start_grows(y: int, m1: int, m2: int)
    requires
        1 <= m1 < m2,
    ensures
        days_before_month(y, m1) + days_in_month(y, m1) <= days_before_month(y, m2),
    decreases m2,
{
    if m2 > m1 + 1 {
        lemma_month_start_grows(y, m1, m2 - 1);
    }
}

proof fn lemma_year_start_grows(y1: int, y2: int)
    requires
        y1 < y2,
    ensures
        days_before_year(y1) + days_before_month(y1, 13) <= days_before_year(y2),
    decreases y2 - y1,
{
    lemma_year_length(y1);
    lemma_months_total(y1);
    if y2 > y1 + 1 {
        lemma_year_start_grows(y1 + 1, y2);
        lemma_months_total(y1 + 1);
    }
}

/// A later date has a larger day number.
pub proof fn lemma_days_from_ce_increasing(a: CalendarDate, b: CalendarDate)
    requires
        valid_date(a),
        valid_date(b),
        date_before(a, b),
    ensures
        days_from_ce(a.year, a.month, a.day) < days_from_ce(b.year, b.month, b.day),
{
    let ay = a.year as int;
    let by = b.year as int;
    if b.month > 1 {
        lemma_month_start_grows(by, 1, b.month as int);
    }
    if a.year < b.year {
        lemma_month_start_grows(ay, a.month as int, 13);
        lemma_year_start_grows(ay, by);
    } else if a.month < b.month {
        lemma_month_start_grows(ay, a.month as int, b.month as int);
    }
}

/// Different representable dates have different day numbers.
pub proof fn lemma_days_from_ce_injective(a: CalendarDate, b: CalendarDate)
    requires
        valid_date(a),
        valid_date(b),
        days_from_ce(a.year, a.month, a.day) == days_from_ce(b.year, b.month, b.day),
    ensures
        a == b,
{
    if date_before(a, b) {
        lemma_days_from_ce_increasing(a, b);
    } else if date_before(b, a) {
        lemma_days_from_ce_increasing(b, a);
    }
}

/// The date with a given day number is that date.
pub proof fn lemma_date_of_day(d: CalendarDate)
    requires
        valid_date(d),
    ensures
        date_of_day(days_from_ce(d.year, d.month, d.day)) == Some(d),
{
    let n = days_from_ce(d.year, d.month, d.day);
    assert(valid_date(d) && days_from_ce(d.year, d.month, d.day) == n);
    let c = choose|c: CalendarDate| valid_date(c) && #[trigger] days_from_ce(c.year, c.month, c.day) == n;
    lemma_days_from_ce_injective(c, d);
}

pub open spec fn as_date(t: (i32, u32, u32)) -> CalendarDate {
    CalendarDate { year: t.0, month: t.1, day: t.2 }
}

/// Calls `NaiveDate::parse_from_str(s, "%Y-%m-%d")`.  Trusted: the result
/// is `ymd_parse(s)`, and a parsed date is one chrono can represent.
#[verifier::external_body]
pub fn parse_ymd(s: &str) -> (r: Option<CalendarDate>)
    ensures
        r is Some <==> ymd_parse(s@) is Some,
        r matches Some(d) ==> d == as_date(ymd_parse(s@)->0) && valid_date(d),
{
    chrono::NaiveDate::parse_from_str(s, "%Y-%m-%d").ok().map(
        |d| CalendarDate { year: d.year(), month: d.month(), day: d.day() },
    )
}

/// Calls `DateTime::parse_from_rfc3339(s)` and takes its local date.
/// Trusted: the result is `rfc3339_local_date(s)`, a representable date.
#[verifier::external_body]
pub fn parse_rfc3339(s: &str) -> (r: Option<CalendarDate>)
    ensures
        r is Some <==> rfc3339_local_date(s@) is Some,
        r matches Some(d) ==> d == as_date(rfc3339_local_date(s@)->0) && valid_date(d),
{
    chrono::DateTime::parse_from_rfc3339(s).ok().map(
        |dt| {
            let d = dt.date_naive();
            CalendarDate { year: d.year(), month: d.month(), day: d.day() }
        },
    )
}

/// Calls `DateTime::parse_from_rfc2822(s)` and takes its local date.
/// Trusted: the result is `rfc2822_local_date(s)`, a representable date.
#[verifier::external_body]
pub fn parse_rfc2822(s: &str) -> (r: Option<CalendarDate>)
    ensures
        r is Some <==> rfc2822_local_date(s@) is Some,
        r matches Some(d) ==> d == as_date(rfc2822_local_date(s@)->0) && valid_date(d),
{
    chrono::DateTime::parse_from_rfc2822(s).ok().map(
        |dt| {
            let d = dt.date_naive();
            CalendarDate { year: d.year(), month: d.month(), day: d.day() }
        },
    )
}

/// Calls `DateTime::<Utc>::from_timestamp(secs, 0)` and takes its date.
/// Trusted: chrono counts `secs.div_euclid(86400)` days from the epoch's day
/// number and answers `None` exactly when no representable date has the
/// resulting number.
#[verifier::external_body]
pub fn utc_date_of_timestamp(secs: i64) -> (r: Option<CalendarDate>)
    ensures
        r matches Some(d) ==> valid_date(d) && days_from_ce(d.year, d.month, d.day) == epoch_day()
            + secs / 86400,
        r is None ==> forall|d: CalendarDate|
            valid_date(d) ==> #[trigger] days_from_ce(d.year, d.month, d.day) != epoch_day() + secs
                / 86400,
{
    chrono::DateTime::<chrono::Utc>::from_timestamp(secs, 0).map(
        |dt| {
            let d = dt.date_naive();
            CalendarDate { year: d.year(), month: d.month(), day: d.day() }
        },
    )
}

/// Calls `NaiveDate::from_ymd_opt(..).num_days_from_ce()`.  Trusted: the
/// result is the date's day number `days_from_ce(d)`.
#[verifier::external_body]
pub fn day_number(d: CalendarDate) -> (n: i32)
    requires
        valid_date(d),
    ensures
        n == days_from_ce(d.year, d.month, d.day),
{
    chrono::NaiveDate::from_ymd_opt(d.year, d.month, d.day).unwrap().num_days_from_ce()
}

/// Calls chrono's `format("%Y-%m-%d")` on the date.  Trusted: the result is
/// `ymd_text(d)`: the `%Y` year, then month and day as two digits each.
#[verifier::external_body]
pub fn format_ymd(d: CalendarDate) -> (s: String)
    requires
        valid_date(d),
    ensures
        s@ == ymd_text(d.year, d.month, d.day),
{
    chrono::NaiveDate::from_ymd_opt(d.year, d.month, d.day).unwrap().format("%Y-%m-%d").to_string()
}

} // verus!
