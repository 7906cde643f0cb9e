//! Calendar dates as plain values, and the calls into chrono that parse,
//! format and advance them.

use chrono::Datelike;
use vstd::prelude::*;

verus! {

/// Smallest year that chrono's `NaiveDate` represents.
pub const MIN_YEAR: i32 = -262143;

/// Largest year that chrono's `NaiveDate` represents.
pub const MAX_YEAR: i32 = 262142;

/// A proleptic Gregorian calendar date.
#[derive(Clone, Copy, Debug, PartialEq, Eq, Structural)]
pub struct Date {
    pub year: i32,
    pub month: u32,
    pub day: u32,
}

pub open spec fn is_leap_year(y: int) -> bool {
    (y % 4 == 0 && y % 100 != 0) || y % 400 == 0
}

pub open spec fn days_in_month(y: int, m: int) -> int {
    if m == 2 {
        if is_leap_year(y) { 29 } else { 28 }
    } else if m == 4 || m == 6 || m == 9 || m == 11 {
        30
    } else {
        31
    }
}

/// The date exists in the calendar and in chrono's range.
pub open spec fn valid_date(d: Date) -> bool {
    &&& MIN_YEAR <= d.year <= MAX_YEAR
    &&& 1 <= d.month <= 12
    &&& 1 <= d.day <= days_in_month(d.year as int, d.month as int)
}

/// The last date that chrono represents.
pub open spec fn is_last_date(d: Date) -> bool {
    d.year == MAX_YEAR && d.month == 12 && d.day == 31
}

/// A number that orders dates chronologically: years, then months, then days.
pub open spec fn date_rank(d: Date) -> int {
    d.year * 372 + d.month * 31 + d.day
}

/// The calendar day after `d`.
pub open spec fn next_date(d: Date) -> Date {
    if (d.day as int) < days_in_month(d.year as int, d.month as int) {
        Date { day: (d.day + 1) as u32, ..d }
    } else if d.month < 12 {
        Date { month: (d.month + 1) as u32, day: 1, ..d }
    } else {
        Date { year: (d.year + 1) as i32, month: 1, day: 1 }
    }
}

pub open spec fn digit_char(n: int) -> char {
    if n == 0 { '0' }
    else if n == 1 { '1' }
    else if n == 2 { '2' }
    else if n == 3 { '3' }
    else if n == 4 { '4' }
    else if n == 5 { '5' }
    else if n == 6 { '6' }
    else if n == 7 { '7' }
    else if n == 8 { '8' }
    else { '9' }
}

/// `n` in decimal, two digits, zero padded.
pub open spec fn two_digits(n: int) -> Seq<char> {
    seq![digit_char(n / 10), digit_char(n % 10)]
}

/// `n` in decimal, at least four digits, zero padded.
pub open spec fn min_four_digits(n: nat) -> Seq<char>
    decreases n,
{
    if n < 10000 {
        seq![
            digit_char((n / 1000) as int),
            digit_char((n / 100 % 10) as int),
            digit_char((n / 10 % 10) as int),
            digit_char((n % 10) as int),
        ]
    } else {
        min_four_digits(n / 10).push(digit_char((n % 10) as int))
    }
}

/// A year as chrono writes `%Y`: four digits within 0..=9999, else signed.
pub open spec fn year_text(y: int) -> Seq<char> {
    if 0 <= y <= 9999 {
        min_four_digits(y as nat)
    } else if y > 9999 {
        seq!['+'] + min_four_digits(y as nat)
    } else {
        seq!['-'] + min_four_digits((-y) as nat)
    }
}

/// The `DD.MM.YYYY` title of a date.
pub open spec fn date_title(d: Date) -> Seq<char> {
    two_digits(d.day as int) + seq!['.'] + two_digits(d.month as int) + seq!['.'] + year_text(
        d.year as int,
    )
}

/// What chrono's `NaiveDate::parse_from_str(s, "%d.%m.%Y")` gives for `s`,
/// as a plain date, or `None` where it fails.
pub uninterp spec fn parsed_date(s: Seq<char>) -> Option<Date>;

/// Relies on chrono's `NaiveDate::parse_from_str` with the format `%d.%m.%Y`:
/// the outcome depends on the text alone, and a parsed value is a date that
/// `NaiveDate` represents.
#[verifier::external_body]
pub(crate) fn parse_title_date(s: &str) -> (r: Option<Date>)
    ensures
        r == parsed_date(s@),
        r matches Some(d) ==> valid_date(d),
{
    match chrono::NaiveDate::parse_from_str(s, "%d.%m.%Y") {
        Ok(n) => Some(Date { year: n.year(), month: n.month(), day: n.day() }),
        Err(_) => None,
    }
}

/// Relies on chrono's `NaiveDate::format` with `%d.%m.%Y`: `%d` and `%m` write two
/// zero-padded digits, and `%Y` writes four zero-padded digits for years in
/// 0..=9999 and a sign followed by at least four digits otherwise.
#[verifier::external_body]
pub(crate) fn format_date(d: Date) -> (r: String)
    requires
        valid_date(d),
    ensures
        r@ == date_title(d),
{
    let n = chrono::NaiveDate::from_ymd_opt(d.year, d.month, d.day).unwrap();
    n.format("%d.%m.%Y").to_string()
}

/// Relies on chrono's `NaiveDate::succ_opt`: the following calendar day, which
/// exists for every date but the last one that `NaiveDate` represents.
#[verifier::external_body]
pub(crate) fn next_day(d: Date) -> (r: Date)
    requires
        valid_date(d),
        !is_last_date(d),
    ensures
        r == next_date(d),
{
    let n = chrono::NaiveDate::from_ymd_opt(d.year, d.month, d.day).unwrap();
    let s = n.succ_opt().unwrap();
    Date { year: s.year(), month: s.month(), day: s.day() }
}

/// Relies on chrono's `Local::now`: today's date on the local clock, which is a
/// date that `NaiveDate` represents.
#[verifier::external_body]
pub(crate) fn today() -> (r: Date)
    ensures
        valid_date(r),
{
    let n = chrono::Local::now().date_naive();
    Date { year: n.year(), month: n.month(), day: n.day() }
}

/// Chronological comparison of two dates.
pub fn date_le(a: Date, b: Date) -> (r: bool)
    ensures
        r == (date_rank(a) <= date_rank(b)),
{
    (a.year as i64) * 372 + (a.month as i64) * 31 + (a.day as i64) <= (b.year as i64) * 372 + (
    b.month as i64) * 31 + (b.day as i64)
}

/// The day after a date is a later date.
pub proof fn lemma_next_date(d: Date)
    requires
        valid_date(d),
        !is_last_date(d),
    ensures
        valid_date(next_date(d)),
        date_rank(d) < date_rank(next_date(d)),
{
}

} // verus!
