//! Typing a date digit by digit into a `YYYY-MM-DD` field: each key is checked against what the
//! field already holds, and the hyphens are inserted automatically.
use crate::calendar::{
    add_days, add_months, add_months_spec, chrono_iso_text, chrono_parse_date, day_before,
    days_after, format_iso_date, next_day, parse_date, previous_day, valid_date, Date,
};
use crate::model::DATE_FORMAT;
use crate::text::{chars_of, string_from_chars};
use vstd::prelude::*;

verus! {

pub open spec fn is_digit_char(c: char) -> bool {
    '0' <= c && c <= '9'
}

/// `char::to_digit(10)` with 0 for a character that is not a decimal digit.
pub open spec fn digit_value(c: char) -> int {
    if is_digit_char(c) {
        c as int - '0' as int
    } else {
        0
    }
}

pub open spec fn all_digits(s: Seq<char>) -> bool {
    forall|i: int| 0 <= i < s.len() ==> is_digit_char(#[trigger] s[i])
}

/// The number a string of decimal digits writes.
pub open spec fn digits_number(s: Seq<char>) -> int
    decreases s.len(),
{
    if s.len() == 0 {
        0
    } else {
        digits_number(s.drop_last()) * 10 + digit_value(s.last())
    }
}

/// What `str::parse` gives for an integer: an optional sign (a `-` only where the type is
/// signed) followed by one or more decimal digits, nothing else. The texts parsed here are
/// too short to overflow.
pub open spec fn parse_integer(s: Seq<char>, signed: bool) -> Option<int> {
    if s.len() > 0 && s[0] == '+' {
        let rest = s.subrange(1, s.len() as int);
        if rest.len() > 0 && all_digits(rest) {
            Some(digits_number(rest))
        } else {
            None
        }
    } else if s.len() > 0 && s[0] == '-' && signed {
        let rest = s.subrange(1, s.len() as int);
        if rest.len() > 0 && all_digits(rest) {
            Some(-digits_number(rest))
        } else {
            None
        }
    } else if s.len() > 0 && all_digits(s) {
        Some(digits_number(s))
    } else {
        None
    }
}

/// Days in a month as the date field counts them (any month other than February and the four
/// 30-day months has 31).
pub open spec fn field_month_days(year: int, month: int) -> int {
    if month == 2 {
        if (year % 4 == 0 && year % 100 != 0) || year % 400 == 0 {
            29
        } else {
            28
        }
    } else if month == 4 || month == 6 || month == 9 || month == 11 {
        30
    } else {
        31
    }
}

/// How many bytes UTF-8 takes for a character.
pub open spec fn char_width(c: char) -> nat {
    let n = c as u32;
    if n < 0x80 {
        1
    } else if n < 0x800 {
        2
    } else if n < 0x10000 {
        3
    } else {
        4
    }
}

/// The length in bytes (`str::len`) of a text.
pub open spec fn byte_len(s: Seq<char>) -> nat
    decreases s.len(),
{
    if s.len() == 0 {
        0
    } else {
        byte_len(s.drop_last()) + char_width(s.last())
    }
}

/// Byte offset `b` falls between two characters of `s`, so `s` can be sliced there.
pub open spec fn byte_boundary(s: Seq<char>, b: nat) -> bool {
    exists|k: int| 0 <= k <= s.len() && byte_len(#[trigger] s.take(k)) == b
}

pub open spec fn ascii_prefix(s: Seq<char>, n: int) -> bool {
    n <= s.len() && forall|i: int| 0 <= i < n ==> (s[i] as u32) < 128
}

/// The digit of the character at `i`, 0 when there is no such character or it is no digit.
pub open spec fn digit_at(s: Seq<char>, i: int) -> int {
    if 0 <= i < s.len() {
        digit_value(s[i])
    } else {
        0
    }
}

/// The year (bytes 0 to 4) and month (bytes 5 to 7) typed so far, as `str::parse` reads those
/// slices: only ASCII characters can make a number, and then bytes are characters.
pub open spec fn typed_year(field: Seq<char>) -> Option<int> {
    if ascii_prefix(field, 4) {
        parse_integer(field.take(4), true)
    } else {
        None
    }
}

pub open spec fn typed_month(field: Seq<char>) -> Option<int> {
    if ascii_prefix(field, 7) {
        parse_integer(field.subrange(5, 7), false)
    } else {
        None
    }
}

/// The second day digit `c` would make an impossible day for the year and month already typed.
pub open spec fn day_rejected(field: Seq<char>, c: char) -> bool {
    match (typed_year(field), typed_month(field)) {
        (Some(year), Some(month)) => {
            let day = digit_at(field, 8) * 10 + digit_value(c);
            day == 0 || day > field_month_days(year, month)
        },
        _ => false,
    }
}

/// The field after typing `c`, or `None` when the key is refused.
pub open spec fn date_char_result(field: Seq<char>, c: char) -> Option<Seq<char>> {
    let len = byte_len(field);
    let d = digit_value(c);
    if !is_digit_char(c) || len >= 10 {
        None
    } else if len == 5 && d > 1 {
        // A month that cannot have a second digit is completed at once.
        Some(field.push(c).push('-'))
    } else if len == 6 && (digit_at(field, 5) * 10 + d == 0 || digit_at(field, 5) * 10 + d > 12) {
        None
    } else if len == 8 && d > 3 {
        None
    } else if len == 9 && day_rejected(field, c) {
        None
    } else {
        let r = field.push(c);
        if len + 1 == 4 {
            match parse_integer(r, true) {
                Some(year) => if year < 1900 || year > 2100 {
                    None
                } else {
                    Some(r.push('-'))
                },
                None => Some(r.push('-')),
            }
        } else if len + 1 == 7 {
            Some(r.push('-'))
        } else {
            Some(r)
        }
    }
}

fn is_digit(c: char) -> (r: bool)
    ensures
        r == is_digit_char(c),
{
    '0' <= c && c <= '9'
}

fn digit_of(c: char) -> (r: u32)
    ensures
        r == digit_value(c),
        r <= 9,
{
    if is_digit(c) {
        (c as u32) - ('0' as u32)
    } else {
        0
    }
}

proof fn lemma_digits_bound(s: Seq<char>)
    ensures
        0 <= digits_number(s),
        s.len() <= 4 ==> digits_number(s) < 10000,
        s.len() <= 3 ==> digits_number(s) < 1000,
        s.len() <= 2 ==> digits_number(s) < 100,
        s.len() <= 1 ==> digits_number(s) < 10,
    decreases s.len(),
{
    if s.len() > 0 {
        lemma_digits_bound(s.drop_last());
    }
}

/// The number written by the digits `v[from..to]`, if they are all digits.
fn digits_in(v: &Vec<char>, from: usize, to: usize) -> (r: Option<i32>)
    requires
        from <= to <= v@.len(),
        to - from <= 4,
    ensures
        r == (if all_digits(v@.subrange(from as int, to as int)) {
            Some(digits_number(v@.subrange(from as int, to as int)) as i32)
        } else {
            None::<i32>
        }),
        r is Some ==> 0 <= r->0 < 10000,
        0 <= digits_number(v@.subrange(from as int, to as int)) < 10000,
{
    proof {
        lemma_digits_bound(v@.subrange(from as int, to as int));
    }
    let ghost s = v@.subrange(from as int, to as int);
    let mut value: i32 = 0;
    let mut k: usize = from;
    while k < to
        invariant
            from <= k <= to <= v@.len(),
            to - from <= 4,
            s == v@.subrange(from as int, to as int),
            0 <= digits_number(s) < 10000,
            all_digits(v@.subrange(from as int, k as int)),
            value == digits_number(v@.subrange(from as int, k as int)),
            0 <= value < 10000,
        decreases to - k,
    {
        let ghost prefix = v@.subrange(from as int, k as int);
        let ghost next = v@.subrange(from as int, k + 1);
        proof {
            assert(next.drop_last() =~= prefix);
            assert(next.last() == v@[k as int]);
        }
        if !is_digit(v[k]) {
            proof {
                assert(s[k - from] == v@[k as int]);
            }
            return None;
        }
        proof {
            lemma_digits_bound(next);
        }
        value = value * 10 + digit_of(v[k]) as i32;
        k = k + 1;
    }
    Some(value)
}

/// `str::parse` of the characters `v[from..to]` as an integer (signed or not).
fn parse_in(v: &Vec<char>, from: usize, to: usize, signed: bool) -> (r: Option<i32>)
    requires
        from <= to <= v@.len(),
        to - from <= 4,
    ensures
        r == (match parse_integer(v@.subrange(from as int, to as int), signed) {
            Some(n) => Some(n as i32),
            None => None::<i32>,
        }),
        r is Some ==> -10000 < r->0 < 10000,
        parse_integer(v@.subrange(from as int, to as int), signed) is Some ==> -10000
            < parse_integer(v@.subrange(from as int, to as int), signed)->0 < 10000,
{
    let ghost s = v@.subrange(from as int, to as int);
    proof {
        lemma_digits_bound(s);
        lemma_digits_bound(s.subrange(1, s.len() as int));
    }
    if from < to && v[from] == '+' {
        proof {
            assert(s.subrange(1, s.len() as int) =~= v@.subrange(from + 1, to as int));
        }
        if from + 1 < to {
            digits_in(v, from + 1, to)
        } else {
            None
        }
    } else if from < to && v[from] == '-' && signed {
        proof {
            assert(s.subrange(1, s.len() as int) =~= v@.subrange(from + 1, to as int));
        }
        if from + 1 < to {
            match digits_in(v, from + 1, to) {
                Some(n) => Some(-n),
                None => None,
            }
        } else {
            None
        }
    } else if from < to {
        digits_in(v, from, to)
    } else {
        None
    }
}

/// Days in a month as the date field counts them.
fn month_days(year: i32, month: i32) -> (r: i32)
    ensures
        r == field_month_days(year as int, month as int),
{
    if month == 2 {
        if (year % 4 == 0 && year % 100 != 0) || year % 400 == 0 {
            29
        } else {
            28
        }
    } else if month == 4 || month == 6 || month == 9 || month == 11 {
        30
    } else {
        31
    }
}

proof fn lemma_byte_len_take(s: Seq<char>, i: int)
    requires
        0 <= i < s.len(),
    ensures
        byte_len(s.take(i + 1)) == byte_len(s.take(i)) + char_width(s[i]),
{
    assert(s.take(i + 1).drop_last() =~= s.take(i));
}

proof fn lemma_byte_len_prefix(s: Seq<char>, i: int)
    requires
        0 <= i <= s.len(),
    ensures
        byte_len(s.take(i)) <= byte_len(s),
    decreases s.len() - i,
{
    if i < s.len() {
        lemma_byte_len_take(s, i);
        lemma_byte_len_prefix(s, i + 1);
    } else {
        assert(s.take(i) =~= s);
    }
}

/// Every character takes at least one byte.
proof fn lemma_len_le_byte_len(s: Seq<char>)
    ensures
        s.len() <= byte_len(s),
    decreases s.len(),
{
    if s.len() > 0 {
        lemma_len_le_byte_len(s.drop_last());
    }
}

/// An ASCII text has as many bytes as characters.
proof fn lemma_ascii_byte_len(s: Seq<char>)
    requires
        forall|i: int| 0 <= i < s.len() ==> (s[i] as u32) < 128,
    ensures
        byte_len(s) == s.len(),
    decreases s.len(),
{
    if s.len() > 0 {
        lemma_ascii_byte_len(s.drop_last());
    }
}

fn width_of(c: char) -> (r: usize)
    ensures
        r == char_width(c),
{
    let n = c as u32;
    if n < 0x80 {
        1
    } else if n < 0x800 {
        2
    } else if n < 0x10000 {
        3
    } else {
        4
    }
}

/// The byte length of the characters, or 10 when it is 10 or more.
fn byte_len_below_ten(v: &Vec<char>) -> (r: usize)
    ensures
        r == (if byte_len(v@) < 10 {
            byte_len(v@)
        } else {
            10
        }),
{
    let mut acc: usize = 0;
    let mut i: usize = 0;
    while i < v.len()
        invariant
            i <= v@.len(),
            acc == byte_len(v@.take(i as int)),
            acc < 10,
        decreases v@.len() - i,
    {
        proof {
            lemma_byte_len_take(v@, i as int);
        }
        acc = acc + width_of(v[i]);
        i = i + 1;
        if acc >= 10 {
            proof {
                lemma_byte_len_prefix(v@, i as int);
            }
            return 10;
        }
    }
    proof {
        assert(v@.take(i as int) =~= v@);
    }
    acc
}

fn ascii_prefix_exec(v: &Vec<char>, n: usize) -> (r: bool)
    ensures
        r == ascii_prefix(v@, n as int),
{
    if n > v.len() {
        return false;
    }
    let mut i: usize = 0;
    while i < n
        invariant
            i <= n <= v@.len(),
            forall|j: int| 0 <= j < i ==> (v@[j] as u32) < 128,
        decreases n - i,
    {
        if (v[i] as u32) >= 128 {
            return false;
        }
        i = i + 1;
    }
    true
}

/// Adds the typed character `c` to a date field that holds `field`, or refuses it. Only digits
/// are taken, while the field is under ten bytes long; a first month digit above 1 completes the
/// month, and a month outside 1 to 12, a first day digit above 3, an impossible day for the
/// month, or a year outside 1900 to 2100 is refused. The hyphens after the year and the month are
/// added automatically. Positions count bytes, as `str::len` does; a nine-byte field must be
/// sliceable at bytes 4, 5 and 7, where the year and month are read.
pub fn validate_and_insert_date_char(field: &str, c: char) -> (r: Option<String>)
    requires
        byte_len(field@) == 9 && is_digit_char(c) ==> byte_boundary(field@, 4) && byte_boundary(
            field@,
            5,
        ) && byte_boundary(field@, 7),
    ensures
        match r {
            Some(s) => date_char_result(field@, c) == Some(s@),
            None => date_char_result(field@, c) is None,
        },
{
    let ghost f = field@;
    if !is_digit(c) {
        return None;
    }
    let mut v = chars_of(field);
    let len = byte_len_below_ten(&v);
    if len >= 10 {
        return None;
    }
    let d = digit_of(c);
    if len == 5 {
        if d > 1 {
            v.push(c);
            v.push('-');
            return Some(string_from_chars(&v));
        }
    } else if len == 6 {
        let first = if v.len() > 5 {
            digit_of(v[5])
        } else {
            0
        };
        let month = first * 10 + d;
        if month == 0 || month > 12 {
            return None;
        }
    }
    if len == 8 {
        if d > 3 {
            return None;
        }
    } else if len == 9 {
        let year = if ascii_prefix_exec(&v, 4) {
            parse_in(&v, 0, 4, true)
        } else {
            None
        };
        let month = if ascii_prefix_exec(&v, 7) {
            parse_in(&v, 5, 7, false)
        } else {
            None
        };
        proof {
            if f.len() >= 4 {
                assert(v@.subrange(0, 4) =~= f.take(4));
            }
            if f.len() >= 7 {
                assert(v@.subrange(5, 7) == f.subrange(5, 7));
            }
        }
        match (year, month) {
            (Some(y), Some(m)) => {
                let first = if v.len() > 8 {
                    digit_of(v[8])
                } else {
                    0
                };
                let day = (first * 10 + d) as i32;
                if day == 0 || day > month_days(y, m) {
                    return None;
                }
            },
            _ => {},
        }
    }
    proof {
        lemma_len_le_byte_len(f);
    }
    v.push(c);
    if len + 1 == 4 {
        let n = v.len();
        match parse_in(&v, 0, n, true) {
            Some(year) => {
                proof {
                    assert(v@.subrange(0, n as int) =~= v@);
                }
                if year < 1900 || year > 2100 {
                    return None;
                }
            },
            None => {
                proof {
                    assert(v@.subrange(0, n as int) =~= v@);
                }
            },
        }
        v.push('-');
    } else if len + 1 == 7 {
        v.push('-');
    }
    Some(string_from_chars(&v))
}

/// Every character of `s` is a decimal digit or a hyphen.
pub open spec fn digits_and_hyphens(s: Seq<char>) -> bool {
    forall|i: int| 0 <= i < s.len() ==> is_digit_char(#[trigger] s[i]) || s[i] == '-'
}

/// Typing into a date field keeps it to digits and hyphens, at most ten characters long, and
/// every accepted key makes it longer.
pub proof fn lemma_date_field_stays_numeric(field: Seq<char>, c: char)
    requires
        digits_and_hyphens(field),
    ensures
        match date_char_result(field, c) {
            Some(r) => r.len() <= 10 && r.len() > field.len() && digits_and_hyphens(r),
            None => true,
        },
{
    assert forall|i: int| 0 <= i < field.len() implies (field[i] as u32) < 128 by {
        assert(is_digit_char(field[i]) || field[i] == '-');
    }
    lemma_ascii_byte_len(field);
    if let Some(r) = date_char_result(field, c) {
        assert forall|i: int| 0 <= i < r.len() implies is_digit_char(#[trigger] r[i]) || r[i]
            == '-' by {
            if i < field.len() {
                assert(r[i] == field[i]);
            }
        }
    }
}

/// Which way an arrow key moves the date in a date field.
#[derive(Debug, Clone, Copy, PartialEq, Eq, Structural)]
pub enum DateStep {
    NextDay,
    PreviousDay,
    NextMonth,
    PreviousMonth,
}

/// The date one step from `d`; month steps keep the day where the month allows, clamping it
/// otherwise.
pub open spec fn stepped(d: Date, step: DateStep) -> Date {
    match step {
        DateStep::NextDay => next_day(d),
        DateStep::PreviousDay => previous_day(d),
        DateStep::NextMonth => add_months_spec(d, 1),
        DateStep::PreviousMonth => add_months_spec(d, -1),
    }
}

/// A date field after an arrow key: a blank field jumps to today; a date moves one step; text
/// that is not a `YYYY-MM-DD` date stays as it is (`None`).
pub open spec fn date_field_step(field: Seq<char>, today: Date, step: DateStep) -> Option<Seq<char>> {
    if field.len() == 0 {
        Some(chrono_iso_text(today.year, today.month, today.day))
    } else {
        match chrono_parse_date(field, DATE_FORMAT@) {
            Some(d) => {
                let e = stepped(d, step);
                Some(chrono_iso_text(e.year, e.month, e.day))
            },
            None => None,
        }
    }
}

/// The step stays inside the dates `chrono` can hold (a day step from its first or last day
/// would leave them).
pub open spec fn step_in_range(field: Seq<char>, step: DateStep) -> bool {
    field.len() == 0 || match chrono_parse_date(field, DATE_FORMAT@) {
        Some(d) => valid_date(stepped(d, step)),
        None => true,
    }
}

fn step_date(d: Date, step: DateStep) -> (r: Date)
    requires
        valid_date(d),
        step == DateStep::NextDay || step == DateStep::PreviousDay ==> valid_date(stepped(d, step)),
    ensures
        r == stepped(d, step),
{
    match step {
        DateStep::NextDay => {
            assert(days_after(d, 1) == next_day(days_after(d, 0)));
            add_days(d, 1)
        },
        DateStep::PreviousDay => day_before(d),
        DateStep::NextMonth => add_months(d, 1),
        DateStep::PreviousMonth => add_months(d, -1),
    }
}

/// A date field after an arrow key, for a step that stays in range.
fn step_date_field(field: &str, today: Date, step: DateStep) -> (r: Option<String>)
    requires
        valid_date(today),
        step == DateStep::NextDay || step == DateStep::PreviousDay ==> step_in_range(field@, step),
    ensures
        match r {
            Some(s) => date_field_step(field@, today, step) == Some(s@),
            None => date_field_step(field@, today, step) is None,
        },
{
    if field.unicode_len() == 0 {
        return Some(format_iso_date(today));
    }
    match parse_date(field, DATE_FORMAT) {
        Some(d) => Some(format_iso_date(step_date(d, step))),
        None => None,
    }
}

/// The next day (a blank field jumps to `today`).
pub fn increment_date_field(field: &str, today: Date) -> (r: Option<String>)
    requires
        valid_date(today),
        step_in_range(field@, DateStep::NextDay),
    ensures
        match r {
            Some(s) => date_field_step(field@, today, DateStep::NextDay) == Some(s@),
            None => date_field_step(field@, today, DateStep::NextDay) is None,
        },
{
    step_date_field(field, today, DateStep::NextDay)
}

/// The previous day (a blank field jumps to `today`).
pub fn decrement_date_field(field: &str, today: Date) -> (r: Option<String>)
    requires
        valid_date(today),
        step_in_range(field@, DateStep::PreviousDay),
    ensures
        match r {
            Some(s) => date_field_step(field@, today, DateStep::PreviousDay) == Some(s@),
            None => date_field_step(field@, today, DateStep::PreviousDay) is None,
        },
{
    step_date_field(field, today, DateStep::PreviousDay)
}

/// The same day next month, clamped (a blank field jumps to `today`).
pub fn increment_month_field(field: &str, today: Date) -> (r: Option<String>)
    requires
        valid_date(today),
    ensures
        match r {
            Some(s) => date_field_step(field@, today, DateStep::NextMonth) == Some(s@),
            None => date_field_step(field@, today, DateStep::NextMonth) is None,
        },
{
    step_date_field(field, today, DateStep::NextMonth)
}

/// The same day last month, clamped (a blank field jumps to `today`).
pub fn decrement_month_field(field: &str, today: Date) -> (r: Option<String>)
    requires
        valid_date(today),
    ensures
        match r {
            Some(s) => date_field_step(field@, today, DateStep::PreviousMonth) == Some(s@),
            None => date_field_step(field@, today, DateStep::PreviousMonth) is None,
        },
{
    step_date_field(field, today, DateStep::PreviousMonth)
}

/// A date field after an arrow key, for any field: `None` also when a day step would leave the
/// dates `chrono` can hold.
pub fn adjust_date_field(field: &str, today: Date, step: DateStep) -> (r: Option<String>)
    requires
        valid_date(today),
    ensures
        !step_in_range(field@, step) ==> r is None,
        step_in_range(field@, step) ==> match r {
            Some(s) => date_field_step(field@, today, step) == Some(s@),
            None => date_field_step(field@, today, step) is None,
        },
{
    if field.unicode_len() > 0 {
        if let Some(d) = parse_date(field, DATE_FORMAT) {
            let in_range = match step {
                DateStep::NextDay => !(d.year == 262142 && d.month == 12 && d.day == 31),
                DateStep::PreviousDay => !(d.year == -262143 && d.month == 1 && d.day == 1),
                _ => true,
            };
            if !in_range {
                return None;
            }
        }
    }
    match step {
        DateStep::NextDay => increment_date_field(field, today),
        DateStep::PreviousDay => decrement_date_field(field, today),
        DateStep::NextMonth => increment_month_field(field, today),
        DateStep::PreviousMonth => decrement_month_field(field, today),
    }
}

} // verus!
