//! Calendar dates as plain values, with the proleptic Gregorian rules the ledger relies on.
//! Day arithmetic, weekdays, parsing and formatting are delegated to `chrono`.
use chrono::{Datelike, NaiveDate, TimeDelta};
use vstd::prelude::*;

verus! {

/// Earliest year `chrono::NaiveDate` represents.
pub const MIN_YEAR: i32 = -262143;

/// Latest year `chrono::NaiveDate` represents.
pub const MAX_YEAR: i32 = 262142;

/// A calendar date (year, month 1..=12, day 1..=31).
#[derive(Clone, Copy, Debug, PartialEq, Eq, Structural)]
pub struct Date {
    pub year: i32,
    pub month: u32,
    pub day: u32,
}

pub open spec fn is_leap_year_spec(year: int) -> bool {
    (year % 4 == 0 && year % 100 != 0) || year % 400 == 0
}

pub open spec fn days_in_month_spec(year: int, month: int) -> int {
    if month == 2 {
        if is_leap_year_spec(year) {
            29
        } else {
            28
        }
    } else if month == 4 || month == 6 || month == 9 || month == 11 {
        30
    } else {
        31
    }
}

/// Month and day name a real day of the year (any year).
pub open spec fn calendar_valid(d: Date) -> bool {
    &&& 1 <= d.month <= 12
    &&& 1 <= d.day <= days_in_month_spec(d.year as int, d.month as int)
}

/// A real day inside the range `chrono::NaiveDate` can hold.
pub open spec fn valid_date(d: Date) -> bool {
    &&& calendar_valid(d)
    &&& MIN_YEAR <= d.year <= MAX_YEAR
}

/// Chronological order: year, then month, then day.
pub open spec fn date_lt(a: Date, b: Date) -> bool {
    ||| a.year < b.year
    ||| (a.year == b.year && a.month < b.month)
    ||| (a.year == b.year && a.month == b.month && a.day < b.day)
}

pub open spec fn date_le(a: Date, b: Date) -> bool {
    date_lt(a, b) || a == b
}

/// The calendar day after `d`.
pub open spec fn next_day(d: Date) -> Date {
    if (d.day as int) < days_in_month_spec(d.year as int, d.month as int) {
        Date { year: d.year, month: d.month, day: (d.day + 1) as u32 }
    } else if d.month < 12 {
        Date { year: d.year, month: (d.month + 1) as u32, day: 1 }
    } else {
        Date { year: (d.year + 1) as i32, month: 1, day: 1 }
    }
}

/// The calendar day before `d`.
pub open spec fn previous_day(d: Date) -> Date {
    if d.day > 1 {
        Date { year: d.year, month: d.month, day: (d.day - 1) as u32 }
    } else if d.month > 1 {
        Date {
            year: d.year,
            month: (d.month - 1) as u32,
            day: days_in_month_spec(d.year as int, d.month - 1) as u32,
        }
    } else {
        Date { year: (d.year - 1) as i32, month: 12, day: 31 }
    }
}

/// The date `n` days after `d`.
pub open spec fn days_after(d: Date, n: nat) -> Date
    decreases n,
{
    if n == 0 {
        d
    } else {
        next_day(days_after(d, (n - 1) as nat))
    }
}

/// Number of a month counted from year 0 (January of year 0 is month 0).
pub open spec fn month_index(year: int, month: int) -> int {
    year * 12 + month - 1
}

/// The date `months` calendar months after `d`, with the day clamped to the length of the
/// target month (so January 31 plus one month is February 28 or 29).
pub open spec fn shift_months_spec(d: Date, months: int) -> Date {
    let total = month_index(d.year as int, d.month as int) + months;
    let year = total / 12;
    let month = total % 12 + 1;
    let dim = days_in_month_spec(year, month);
    Date {
        year: year as i32,
        month: month as u32,
        day: (if (d.day as int) <= dim { d.day as int } else { dim }) as u32,
    }
}

/// `add_months`: the shifted date when it lies in the representable range, the input otherwise.
pub open spec fn add_months_spec(d: Date, months: int) -> Date {
    let total = month_index(d.year as int, d.month as int) + months;
    if MIN_YEAR <= total / 12 <= MAX_YEAR {
        shift_months_spec(d, months)
    } else {
        d
    }
}

/// The weekday `chrono` reports for a date, counted from Monday = 0.
pub uninterp spec fn chrono_weekday(year: i32, month: u32, day: u32) -> u32;

/// Whether a year is a leap year in the proleptic Gregorian calendar.
pub fn is_leap_year(year: i32) -> (r: bool)
    ensures
        r == is_leap_year_spec(year as int),
{
    // Shift by a multiple of 400 so the remainders below are taken of a non-negative number.
    let y: i64 = year as i64 + 4_000_000_000;
    assert(y % 4 == (year as int) % 4 && y % 100 == (year as int) % 100 && y % 400 == (year
        as int) % 400) by {
        assert(4_000_000_000int == 4 * 1_000_000_000int);
        assert(4_000_000_000int == 100 * 40_000_000int);
        assert(4_000_000_000int == 400 * 10_000_000int);
    }
    (y % 4 == 0 && y % 100 != 0) || y % 400 == 0
}

/// Number of days in `month` of `year`.
pub fn days_in_month(year: i32, month: u32) -> (r: u32)
    requires
        1 <= month <= 12,
    ensures
        r == days_in_month_spec(year as int, month as int),
        28 <= r <= 31,
{
    if month == 2 {
        if is_leap_year(year) {
            29
        } else {
            28
        }
    } else if month == 4 || month == 6 || month == 9 || month == 11 {
        30
    } else {
        31
    }
}

/// `a` falls strictly before `b`.
pub fn date_before(a: &Date, b: &Date) -> (r: bool)
    ensures
        r == date_lt(*a, *b),
{
    a.year < b.year || (a.year == b.year && (a.month < b.month || (a.month == b.month && a.day
        < b.day)))
}

/// `a` falls on or before `b`.
pub fn date_on_or_before(a: &Date, b: &Date) -> (r: bool)
    ensures
        r == date_le(*a, *b),
{
    date_before(a, b) || (a.year == b.year && a.month == b.month && a.day == b.day)
}

/// Builds a date through `chrono::NaiveDate::from_ymd_opt`, which documents `None` exactly for
/// a day that does not exist or a year outside its range.
#[verifier::external_body]
pub(crate) fn date_from_ymd(year: i32, month: u32, day: u32) -> (r: Option<Date>)
    ensures
        r == (if valid_date(Date { year, month, day }) {
            Some(Date { year, month, day })
        } else {
            None::<Date>
        }),
{
    match NaiveDate::from_ymd_opt(year, month, day) {
        Some(d) => Some(Date { year: d.year(), month: d.month(), day: d.day() }),
        None => None,
    }
}

/// `chrono`'s `NaiveDate + TimeDelta::days(n)`: the date `n` calendar days later. It panics
/// when the result leaves the representable range, which `requires` rules out.
#[verifier::external_body]
pub(crate) fn add_days(d: Date, n: i64) -> (r: Date)
    requires
        valid_date(d),
        0 <= n <= 1_000_000_000,
        valid_date(days_after(d, n as nat)),
    ensures
        r == days_after(d, n as nat),
{
    let date = NaiveDate::from_ymd_opt(d.year, d.month, d.day).unwrap() + TimeDelta::days(n);
    Date { year: date.year(), month: date.month(), day: date.day() }
}

/// `chrono`'s `NaiveDate - TimeDelta::days(1)`: the previous calendar day, whose weekday is
/// the one before the weekday of `d`.
#[verifier::external_body]
pub(crate) fn day_before(d: Date) -> (r: Date)
    requires
        valid_date(d),
        valid_date(previous_day(d)),
    ensures
        r == previous_day(d),
        chrono_weekday(r.year, r.month, r.day) == (chrono_weekday(d.year, d.month, d.day) + 6)
            % 7,
{
    let date = NaiveDate::from_ymd_opt(d.year, d.month, d.day).unwrap() - TimeDelta::days(1);
    Date { year: date.year(), month: date.month(), day: date.day() }
}

/// `chrono`'s `weekday().num_days_from_monday()` (Monday = 0, ..., Sunday = 6).
#[verifier::external_body]
pub(crate) fn weekday(d: Date) -> (r: u32)
    requires
        valid_date(d),
    ensures
        r == chrono_weekday(d.year, d.month, d.day),
        r < 7,
{
    NaiveDate::from_ymd_opt(d.year, d.month, d.day).unwrap().weekday().num_days_from_monday()
}

/// The same day `months` months later (or earlier, for a negative count), clamping the day to
/// the length of the target month. Falls back to `d` itself when the target month lies
/// outside the representable years.
pub fn add_months(d: Date, months: i32) -> (r: Date)
    requires
        valid_date(d),
    ensures
        r == add_months_spec(d, months as int),
        valid_date(r),
{
    // Offset by a multiple of 12 so the quotient and remainder are of a non-negative number.
    let total: i64 = d.year as i64 * 12 + (d.month as i64 - 1) + months as i64;
    let shifted: u64 = (total + 12_000_000_000) as u64;
    let q: u64 = shifted / 12;
    let rem: u64 = shifted % 12;
    proof {
        let t = month_index(d.year as int, d.month as int) + months;
        assert(t == total);
        assert(shifted == t + 12 * 1_000_000_000);
        assert(t / 12 == q - 1_000_000_000 && t % 12 == rem) by {
            vstd::arithmetic::div_mod::lemma_fundamental_div_mod(shifted as int, 12);
            vstd::arithmetic::div_mod::lemma_fundamental_div_mod_converse(
                t,
                12,
                q - 1_000_000_000,
                rem as int,
            );
        }
    }
    let year_wide: i64 = q as i64 - 1_000_000_000;
    if year_wide < MIN_YEAR as i64 || year_wide > MAX_YEAR as i64 {
        return d;
    }
    let year: i32 = year_wide as i32;
    let month: u32 = (rem + 1) as u32;
    let dim = days_in_month(year, month);
    let day = if d.day <= dim {
        d.day
    } else {
        dim
    };
    Date { year, month, day }
}

/// The decimal digit `n` (0..=9) as a character.
pub open spec fn digit_char(n: int) -> char {
    if n == 0 {
        '0'
    } else if n == 1 {
        '1'
    } else if n == 2 {
        '2'
    } else if n == 3 {
        '3'
    } else if n == 4 {
        '4'
    } else if n == 5 {
        '5'
    } else if n == 6 {
        '6'
    } else if n == 7 {
        '7'
    } else if n == 8 {
        '8'
    } else {
        '9'
    }
}

/// `YYYY-MM-DD` with zero padding, for a year in 0..=9999.
pub open spec fn iso_text(d: Date) -> Seq<char> {
    seq![
        digit_char((d.year / 1000) as int),
        digit_char(((d.year / 100) % 10) as int),
        digit_char(((d.year / 10) % 10) as int),
        digit_char((d.year % 10) as int),
        '-',
        digit_char((d.month / 10) as int),
        digit_char((d.month % 10) as int),
        '-',
        digit_char((d.day / 10) as int),
        digit_char((d.day % 10) as int),
    ]
}

/// What `chrono::NaiveDate::parse_from_str` returns for a text and a format string.
pub uninterp spec fn chrono_parse_date(text: Seq<char>, format: Seq<char>) -> Option<Date>;

/// What `chrono` prints for a date under the format `%Y-%m-%d`.
pub uninterp spec fn chrono_iso_text(year: i32, month: u32, day: u32) -> Seq<char>;

/// `chrono::NaiveDate::parse_from_str(text, format)`, as plain date parts. Any date it
/// returns is a real `NaiveDate`, so it lies in the representable range.
#[verifier::external_body]
pub(crate) fn parse_date(text: &str, format: &str) -> (r: Option<Date>)
    ensures
        r == chrono_parse_date(text@, format@),
        r matches Some(d) ==> valid_date(d),
{
    match NaiveDate::parse_from_str(text, format) {
        Ok(d) => Some(Date { year: d.year(), month: d.month(), day: d.day() }),
        Err(_) => None,
    }
}

/// `chrono`'s `format("%Y-%m-%d").to_string()`. Its documentation gives `%Y` as the year
/// zero-padded to four digits and `%m`, `%d` as two zero-padded digits, which pins the text
/// for the years 0 through 9999.
#[verifier::external_body]
pub(crate) fn format_iso_date(d: Date) -> (r: String)
    requires
        valid_date(d),
    ensures
        r@ == chrono_iso_text(d.year, d.month, d.day),
        0 <= d.year <= 9999 ==> r@ == iso_text(d),
{
    NaiveDate::from_ymd_opt(d.year, d.month, d.day).unwrap().format("%Y-%m-%d").to_string()
}

/// The day after a real date is a real date, later in the calendar, at most a year on.
pub proof fn lemma_next_day(d: Date)
    requires
        calendar_valid(d),
        d.year < i32::MAX,
    ensures
        calendar_valid(next_day(d)),
        date_lt(d, next_day(d)),
        d.year <= next_day(d).year <= d.year + 1,
        date_key(d) < date_key(next_day(d)) <= date_key(d) + 4,
{
}

/// Moving further forward in days moves forward in the calendar, by at least one and at most
/// four key slots per day.
pub proof fn lemma_days_after_monotonic(d: Date, a: nat, b: nat)
    requires
        calendar_valid(d),
        a <= b,
        date_key(d) + 4 * b < 372 * (i32::MAX as int),
    ensures
        calendar_valid(days_after(d, b)),
        d.year <= days_after(d, b).year,
        date_key(d) + b <= date_key(days_after(d, b)) <= date_key(d) + 4 * b,
        a < b ==> date_lt(days_after(d, a), days_after(d, b)),
        a == b ==> days_after(d, a) == days_after(d, b),
    decreases b,
{
    if b > 0 {
        let p = (b - 1) as nat;
        let lower: nat = if a <= p {
            a
        } else {
            p
        };
        lemma_days_after_monotonic(d, lower, p);
        let q = days_after(d, p);
        assert(q.year * 372 <= date_key(q));
        lemma_next_day(q);
    }
}

/// Shifting by more months lands strictly later, whatever the day clamping does.
pub proof fn lemma_shift_months_monotonic(d: Date, m1: int, m2: int)
    requires
        calendar_valid(d),
        m1 < m2,
        MIN_YEAR <= (month_index(d.year as int, d.month as int) + m1) / 12,
        (month_index(d.year as int, d.month as int) + m2) / 12 <= MAX_YEAR,
    ensures
        date_lt(shift_months_spec(d, m1), shift_months_spec(d, m2)),
{
    let t1 = month_index(d.year as int, d.month as int) + m1;
    let t2 = month_index(d.year as int, d.month as int) + m2;
    vstd::arithmetic::div_mod::lemma_fundamental_div_mod(t1, 12);
    vstd::arithmetic::div_mod::lemma_fundamental_div_mod(t2, 12);
    assert(t1 / 12 <= t2 / 12) by {
        vstd::arithmetic::div_mod::lemma_div_is_ordered(t1, t2, 12);
    }
}

/// Position of a date on a line where every month takes 31 slots: order-preserving on real
/// dates, and one real day later is at least one slot later.
pub open spec fn date_key(d: Date) -> int {
    d.year * 372 + (d.month - 1) * 31 + (d.day - 1)
}

/// On real dates the calendar order is the order of their keys.
pub proof fn lemma_key_order(a: Date, b: Date)
    requires
        calendar_valid(a),
        calendar_valid(b),
    ensures
        date_lt(a, b) <==> date_key(a) < date_key(b),
        a == b <==> date_key(a) == date_key(b),
{
}

/// Days add up: `a + b` days after `d` is `b` days after `a` days after `d`.
pub proof fn lemma_days_after_add(d: Date, a: nat, b: nat)
    ensures
        days_after(d, a + b) == days_after(days_after(d, a), b),
    decreases b,
{
    if b > 0 {
        lemma_days_after_add(d, a, (b - 1) as nat);
        assert((a + b - 1) as nat == a + (b - 1) as nat);
    }
}

/// Shifting by zero months leaves a real date unchanged.
pub proof fn lemma_shift_zero(d: Date)
    requires
        valid_date(d),
    ensures
        shift_months_spec(d, 0) == d,
        add_months_spec(d, 0) == d,
{
    let t = month_index(d.year as int, d.month as int);
    vstd::arithmetic::div_mod::lemma_fundamental_div_mod_converse(t, 12, d.year as int, d.month - 1);
}

/// Shifting a real date by `k >= 1` months moves it at least `k` slots later, and the result is
/// a real date.
pub proof fn lemma_shift_months_key(d: Date, k: int)
    requires
        calendar_valid(d),
        k >= 0,
        MIN_YEAR <= (month_index(d.year as int, d.month as int) + k) / 12 <= MAX_YEAR,
    ensures
        date_key(shift_months_spec(d, k)) >= date_key(d) + 31 * k - 30,
        date_key(shift_months_spec(d, k)) <= date_key(d) + 31 * k + 30,
        calendar_valid(shift_months_spec(d, k)),
        month_index(shift_months_spec(d, k).year as int, shift_months_spec(d, k).month as int)
            == month_index(d.year as int, d.month as int) + k,
{
    let t = month_index(d.year as int, d.month as int) + k;
    vstd::arithmetic::div_mod::lemma_fundamental_div_mod(t, 12);
    let s = shift_months_spec(d, k);
    assert(date_key(s) == 31 * t + s.day - 1);
    assert(date_key(d) == 31 * (t - k) + d.day - 1);
}

/// The date a text names in the first of the accepted layouts that reads it: `%Y-%m-%d`,
/// `%Y/%m/%d`, `%d/%m/%Y`, then `%d-%m-%Y`.
pub open spec fn flexible_date(text: Seq<char>) -> Option<Date> {
    match chrono_parse_date(text, "%Y-%m-%d"@) {
        Some(d) => Some(d),
        None => match chrono_parse_date(text, "%Y/%m/%d"@) {
            Some(d) => Some(d),
            None => match chrono_parse_date(text, "%d/%m/%Y"@) {
                Some(d) => Some(d),
                None => chrono_parse_date(text, "%d-%m-%Y"@),
            },
        },
    }
}

/// Reads a date written in any of the accepted layouts (as spreadsheets often rewrite them).
pub fn parse_flexible_date(text: &str) -> (r: Option<Date>)
    ensures
        r == flexible_date(text@),
        r matches Some(d) ==> valid_date(d),
{
    if let Some(d) = parse_date(text, "%Y-%m-%d") {
        return Some(d);
    }
    if let Some(d) = parse_date(text, "%Y/%m/%d") {
        return Some(d);
    }
    if let Some(d) = parse_date(text, "%d/%m/%Y") {
        return Some(d);
    }
    parse_date(text, "%d-%m-%Y")
}

/// Reads an optional date: an empty text is none; any other text must be a date in one of the
/// accepted layouts.
pub fn parse_optional_date(text: &str) -> (r: Result<Option<Date>, ()>)
    ensures
        r == (if text@.len() == 0 {
            Ok(None)
        } else {
            match flexible_date(text@) {
                Some(d) => Ok(Some(d)),
                None => Err(()),
            }
        }),
        r matches Ok(Some(d)) ==> valid_date(d),
{
    if text.unicode_len() == 0 {
        return Ok(None);
    }
    match parse_flexible_date(text) {
        Some(d) => Ok(Some(d)),
        None => Err(()),
    }
}

} // verus!
