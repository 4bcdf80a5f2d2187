//! Occurrences of recurring transactions. A recurring source row is stored once; its later
//! occurrences up to a date are generated in memory from its rule.
use crate::calendar::{
    add_days, add_months, add_months_spec, chrono_weekday, date_before,
    date_from_ymd, date_key, date_le, date_lt, date_on_or_before, day_before, days_after,
    days_in_month, days_in_month_spec, lemma_days_after_add, lemma_days_after_monotonic,
    lemma_key_order, lemma_shift_months_key, lemma_shift_months_monotonic, lemma_shift_zero,
    month_index, previous_day, shift_months_spec, valid_date, weekday, Date, MAX_YEAR, MIN_YEAR,
};
use crate::model::{frequency_from_label_spec, RecurrenceFrequency, Transaction, DATE_FORMAT};
use crate::calendar::{chrono_parse_date, parse_date};
use crate::money::{amount_less, amount_wf, less_than};
use crate::text::{text_eq, to_lowercase, unicode_lowercase};
use vstd::prelude::*;

verus! {

/// Latest year a generation horizon may reach: the year before chrono's last, so that the step
/// past the horizon that the generation computes before it stops (at most a year) is a date.
pub const LATEST_HORIZON_YEAR: i32 = 262141;

/// The end date of a rule, if any, does not exclude `d`.
pub open spec fn end_allows(tx: Transaction, d: Date) -> bool {
    match tx.recurrence_end_date {
        Some(end) => date_le(d, end),
        None => true,
    }
}

/// An occurrence on `d` is generated: strictly after the source's own date, on or before the
/// horizon, and not past the rule's end date.
pub open spec fn occurs(tx: Transaction, start: Date, up_to: Date, d: Date) -> bool {
    date_lt(start, d) && date_le(d, up_to) && end_allows(tx, d)
}

/// The occurrence of `tx` on `d`: a copy dated `d`, flagged as generated, not persisted, and
/// linked back to its source row.
pub open spec fn generated_copy(tx: Transaction, d: Date) -> Transaction {
    Transaction {
        date: d,
        description: tx.description,
        amount: tx.amount,
        transaction_type: tx.transaction_type,
        category: tx.category,
        subcategory: tx.subcategory,
        is_recurring: tx.is_recurring,
        recurrence_frequency: tx.recurrence_frequency,
        recurrence_end_date: tx.recurrence_end_date,
        is_generated_from_recurring: true,
        id: None,
        parent_id: tx.id,
    }
}

/// Frequencies that step a fixed interval from the source date.
pub open spec fn is_interval(f: RecurrenceFrequency) -> bool {
    f != RecurrenceFrequency::SemiMonthly && f != RecurrenceFrequency::SemiMonthlyWorkday
}

pub open spec fn day_stride(f: RecurrenceFrequency) -> nat {
    match f {
        RecurrenceFrequency::Daily => 1,
        RecurrenceFrequency::Weekly => 7,
        RecurrenceFrequency::BiWeekly => 14,
        _ => 0,
    }
}

pub open spec fn month_stride(f: RecurrenceFrequency) -> nat {
    match f {
        RecurrenceFrequency::Monthly => 1,
        RecurrenceFrequency::Quarterly => 3,
        RecurrenceFrequency::Yearly => 12,
        _ => 0,
    }
}

/// Days or months (whichever the frequency steps) after `k` steps.
pub open spec fn stride_units(f: RecurrenceFrequency, k: nat) -> nat {
    if day_stride(f) > 0 {
        day_stride(f) * k
    } else {
        month_stride(f) * k
    }
}

/// The `k`-th scheduled date of an interval rule, counted from the source date (step 0). Month
/// steps are taken from the source date, so a day clamped in a short month is restored later.
pub open spec fn interval_step(anchor: Date, f: RecurrenceFrequency, k: nat) -> Date {
    if day_stride(f) > 0 {
        days_after(anchor, day_stride(f) * k)
    } else {
        add_months_spec(anchor, (month_stride(f) * k) as int)
    }
}

/// A number of steps past which no scheduled date can reach `up_to` (each step moves at least
/// one key slot).
pub open spec fn horizon(anchor: Date, up_to: Date) -> nat {
    if date_key(anchor) <= date_key(up_to) {
        (date_key(up_to) - date_key(anchor) + 2) as nat
    } else {
        1
    }
}

/// The occurrences among the first `n` scheduled dates, in schedule order.
pub open spec fn interval_prefix(
    tx: Transaction,
    f: RecurrenceFrequency,
    up_to: Date,
    n: nat,
) -> Seq<Transaction>
    decreases n,
{
    if n == 0 {
        Seq::empty()
    } else {
        let prev = interval_prefix(tx, f, up_to, (n - 1) as nat);
        let d = interval_step(tx.date, f, (n - 1) as nat);
        if occurs(tx, tx.date, up_to, d) {
            prev.push(generated_copy(tx, d))
        } else {
            prev
        }
    }
}

/// Every occurrence of an interval rule up to `up_to`, in date order.
pub open spec fn interval_occurrences(
    tx: Transaction,
    f: RecurrenceFrequency,
    up_to: Date,
) -> Seq<Transaction> {
    interval_prefix(tx, f, up_to, horizon(tx.date, up_to))
}

/// Helper function to create a generated transaction if it meets the criteria.
pub fn create_generated_transaction(
    recurring_tx: &Transaction,
    target_date: Date,
    start_date: Date,
    up_to_date: Date,
) -> (r: Option<Transaction>)
    ensures
        r == (if occurs(*recurring_tx, start_date, up_to_date, target_date) {
            Some(generated_copy(*recurring_tx, target_date))
        } else {
            None::<Transaction>
        }),
{
    if date_on_or_before(&target_date, &start_date) || date_before(&up_to_date, &target_date) {
        return None;
    }
    if let Some(end_date) = recurring_tx.recurrence_end_date {
        if date_before(&end_date, &target_date) {
            return None;
        }
    }
    let mut new_tx = recurring_tx.duplicate();
    new_tx.date = target_date;
    new_tx.is_generated_from_recurring = true;
    // Generated occurrences are not persisted; clear the DB id and link back to the source.
    new_tx.parent_id = recurring_tx.id;
    new_tx.id = None;
    Some(new_tx)
}

/// The `k`-th scheduled date of an interval rule.
fn interval_step_exec(anchor: Date, f: RecurrenceFrequency, k: i64) -> (r: Date)
    requires
        valid_date(anchor),
        is_interval(f),
        0 <= k,
        stride_units(f, k as nat) <= 200_000_000,
        day_stride(f) > 0 ==> valid_date(interval_step(anchor, f, k as nat)),
    ensures
        r == interval_step(anchor, f, k as nat),
{
    match f {
        RecurrenceFrequency::Daily => add_days(anchor, k),
        RecurrenceFrequency::Weekly => add_days(anchor, 7 * k),
        RecurrenceFrequency::BiWeekly => add_days(anchor, 14 * k),
        RecurrenceFrequency::Monthly => add_months(anchor, k as i32),
        RecurrenceFrequency::Quarterly => add_months(anchor, (3 * k) as i32),
        _ => add_months(anchor, (12 * k) as i32),
    }
}

/// Step 0 is the source date itself.
proof fn lemma_step_zero(anchor: Date, f: RecurrenceFrequency)
    requires
        valid_date(anchor),
    ensures
        interval_step(anchor, f, 0) == anchor,
{
    lemma_shift_zero(anchor);
    assert(day_stride(f) * 0 == 0);
    assert(month_stride(f) * 0 == 0);
}

/// From a scheduled date on or before the horizon, the next scheduled date is a real date, and
/// strictly later; the steps taken so far fit between the source date and the horizon.
proof fn lemma_step_advances(anchor: Date, f: RecurrenceFrequency, up_to: Date, j: nat)
    requires
        valid_date(anchor),
        valid_date(up_to),
        up_to.year <= LATEST_HORIZON_YEAR,
        is_interval(f),
        stride_units(f, j) <= horizon(anchor, up_to) + 14,
        j > 0 ==> date_lt(anchor, interval_step(anchor, f, j)),
        date_le(interval_step(anchor, f, j), up_to),
    ensures
        valid_date(interval_step(anchor, f, j + 1)),
        date_lt(interval_step(anchor, f, j), interval_step(anchor, f, j + 1)),
        date_lt(anchor, interval_step(anchor, f, j + 1)),
        stride_units(f, j) <= date_key(up_to) - date_key(anchor),
        j + 1 < horizon(anchor, up_to),
        stride_units(f, j + 1) <= horizon(anchor, up_to) + 14,
{
    let cur = interval_step(anchor, f, j);
    lemma_key_order(anchor, up_to);
    if day_stride(f) > 0 {
        let s = day_stride(f);
        assert(s * (j + 1) == s * j + s) by (nonlinear_arith);
        assert(s * j >= j) by (nonlinear_arith)
            requires
                s >= 1,
        ;
        lemma_days_after_monotonic(anchor, s * j, s * j);
        lemma_key_order(cur, up_to);
        lemma_days_after_monotonic(anchor, s * j, s * (j + 1));
        lemma_days_after_add(anchor, s * j, s);
        lemma_days_after_monotonic(cur, s, s);
        let nxt = interval_step(anchor, f, j + 1);
        assert(nxt.year * 372 <= date_key(nxt));
        assert(date_key(nxt) <= date_key(up_to) + 56);
        assert(up_to.year * 372 + 371 >= date_key(up_to));
        if j > 0 {
            lemma_days_after_monotonic(anchor, 0, s * (j + 1));
        } else {
            lemma_days_after_monotonic(anchor, 0, s);
        }
    } else {
        let m = month_stride(f);
        assert(m * (j + 1) == m * j + m) by (nonlinear_arith);
        assert(m * j >= j) by (nonlinear_arith)
            requires
                m >= 1,
        ;
        let idx = month_index(anchor.year as int, anchor.month as int);
        if j == 0 {
            lemma_shift_zero(anchor);
        }
        // The current step did not fall back to the source date, so it is the plain shift.
        assert(cur == shift_months_spec(anchor, (m * j) as int)) by {
            if j == 0 {
                assert(m * j == 0);
            } else if !(MIN_YEAR <= (idx + m * j) / 12 <= MAX_YEAR) {
                assert(cur == anchor);
            }
        }
        assert(MIN_YEAR <= (idx + m * j) / 12 <= MAX_YEAR) by {
            if j == 0 {
                assert(m * j == 0);
                assert(idx / 12 == anchor.year) by {
                    vstd::arithmetic::div_mod::lemma_fundamental_div_mod_converse(
                        idx,
                        12,
                        anchor.year as int,
                        anchor.month - 1,
                    );
                }
            } else if !(MIN_YEAR <= (idx + m * j) / 12 <= MAX_YEAR) {
                assert(cur == anchor);
            }
        }
        lemma_shift_months_key(anchor, (m * j) as int);
        let ci = month_index(cur.year as int, cur.month as int);
        assert(ci == idx + m * j);
        lemma_key_order(cur, up_to);
        assert(ci <= month_index(up_to.year as int, up_to.month as int));
        assert((idx + m * (j + 1)) / 12 <= MAX_YEAR) by {
            vstd::arithmetic::div_mod::lemma_div_is_ordered(
                idx + m * (j + 1),
                month_index(up_to.year as int, up_to.month as int) + 12,
                12,
            );
            vstd::arithmetic::div_mod::lemma_fundamental_div_mod_converse(
                month_index(up_to.year as int, up_to.month as int) + 12,
                12,
                up_to.year + 1,
                up_to.month - 1,
            );
        }
        assert(MIN_YEAR <= (idx + m * (j + 1)) / 12) by {
            vstd::arithmetic::div_mod::lemma_div_is_ordered(idx + m * j, idx + m * (j + 1), 12);
        }
        lemma_shift_months_monotonic(anchor, (m * j) as int, (m * (j + 1)) as int);
        lemma_shift_months_key(anchor, (m * (j + 1)) as int);
        if j == 0 {
            assert(m * j == 0);
        }
    }
}

/// Scheduled dates from step `j` on are no earlier than step `j`, unless a month step leaves
/// the representable range and falls back to the source date.
proof fn lemma_steps_after(anchor: Date, f: RecurrenceFrequency, up_to: Date, j: nat, m: nat)
    requires
        valid_date(anchor),
        is_interval(f),
        j <= m < horizon(anchor, up_to),
        j > 0 ==> date_lt(anchor, interval_step(anchor, f, j)),
        valid_date(up_to),
    ensures
        interval_step(anchor, f, m) == anchor || date_le(
            interval_step(anchor, f, j),
            interval_step(anchor, f, m),
        ),
{
    if j == 0 {
        lemma_step_zero(anchor, f);
    }
    lemma_key_order(anchor, up_to);
    if day_stride(f) > 0 {
        let s = day_stride(f);
        assert(s * j <= s * m) by (nonlinear_arith)
            requires
                j <= m,
        ;
        assert(s * m <= 14 * m) by (nonlinear_arith)
            requires
                s <= 14,
        ;
        assert(anchor.year * 372 <= date_key(anchor));
        lemma_days_after_monotonic(anchor, s * j, s * m);
    } else {
        let ms = month_stride(f);
        let idx = month_index(anchor.year as int, anchor.month as int);
        assert(ms * j <= ms * m) by (nonlinear_arith)
            requires
                j <= m,
        ;
        if j == m {
        } else if !(MIN_YEAR <= (idx + ms * m) / 12 <= MAX_YEAR) {
        } else if j == 0 {
            assert(ms * j == 0);
            lemma_shift_zero(anchor);
            assert(ms * m > 0) by (nonlinear_arith)
                requires
                    ms >= 1,
                    m > j,
                    j == 0,
            ;
            assert(idx / 12 == anchor.year) by {
                vstd::arithmetic::div_mod::lemma_fundamental_div_mod_converse(
                    idx,
                    12,
                    anchor.year as int,
                    anchor.month - 1,
                );
            }
            lemma_shift_months_monotonic(anchor, 0, (ms * m) as int);
        } else {
            assert(ms * j < ms * m) by (nonlinear_arith)
                requires
                    ms >= 1,
                    m > j,
            ;
            if !(MIN_YEAR <= (idx + ms * j) / 12 <= MAX_YEAR) {
                assert(interval_step(anchor, f, j) == anchor);
            } else {
                lemma_shift_months_monotonic(anchor, (ms * j) as int, (ms * m) as int);
            }
        }
    }
}

/// Later prefixes add nothing once no remaining step occurs.
proof fn lemma_prefix_settled(tx: Transaction, f: RecurrenceFrequency, up_to: Date, j: nat, n: nat)
    requires
        j <= n,
        forall|m: nat|
            j <= m < n ==> !occurs(tx, tx.date, up_to, #[trigger] interval_step(tx.date, f, m)),
    ensures
        interval_prefix(tx, f, up_to, n) == interval_prefix(tx, f, up_to, j),
    decreases n,
{
    if n > j {
        lemma_prefix_settled(tx, f, up_to, j, (n - 1) as nat);
        assert(!occurs(tx, tx.date, up_to, interval_step(tx.date, f, (n - 1) as nat)));
    }
}

/// Occurrences of an interval rule (daily, weekly, bi-weekly, monthly, quarterly, yearly).
fn interval_instances(recurring_tx: &Transaction, frequency: RecurrenceFrequency, up_to_date: Date) -> (r:
    Vec<Transaction>)
    requires
        valid_date(recurring_tx.date),
        valid_date(up_to_date),
        up_to_date.year <= LATEST_HORIZON_YEAR,
        is_interval(frequency),
    ensures
        r@ == interval_occurrences(*recurring_tx, frequency, up_to_date),
{
    let ghost tx = *recurring_tx;
    let ghost anchor = recurring_tx.date;
    let ghost hz = horizon(anchor, up_to_date);
    let mut generated: Vec<Transaction> = Vec::new();
    let mut occurrence: i64 = 0;
    let mut current_date = recurring_tx.date;
    proof {
        lemma_step_zero(anchor, frequency);
        assert(stride_units(frequency, 0) == 0) by {
            assert(day_stride(frequency) * 0 == 0);
            assert(month_stride(frequency) * 0 == 0);
        }
    }
    loop
        invariant_except_break
            0 <= occurrence <= hz,
            current_date == interval_step(anchor, frequency, occurrence as nat),
            occurrence > 0 ==> date_lt(anchor, current_date),
            stride_units(frequency, occurrence as nat) <= hz + 14,
            generated@ == interval_prefix(tx, frequency, up_to_date, occurrence as nat),
        invariant
            tx == *recurring_tx,
            anchor == tx.date,
            hz == horizon(anchor, up_to_date),
            valid_date(anchor),
            valid_date(up_to_date),
            up_to_date.year <= LATEST_HORIZON_YEAR,
            is_interval(frequency),
            valid_date(current_date),
        ensures
            generated@ == interval_occurrences(tx, frequency, up_to_date),
        decreases (if date_le(current_date, up_to_date) {
            date_key(up_to_date) - date_key(current_date) + 1
        } else {
            0
        }),
    {
        let ghost j = occurrence as nat;
        if !date_on_or_before(&current_date, &up_to_date) {
            proof {
                assert forall|m: nat|
                    j <= m < hz implies !occurs(
                        tx,
                        tx.date,
                        up_to_date,
                        #[trigger] interval_step(tx.date, frequency, m),
                    ) by {
                    lemma_steps_after(anchor, frequency, up_to_date, j, m);
                }
                lemma_prefix_settled(tx, frequency, up_to_date, j, hz);
            }
            break;
        }
        proof {
            lemma_step_advances(anchor, frequency, up_to_date, j);
        }
        // Skip the source transaction's own date (it is already in the list).
        if !(current_date == recurring_tx.date) {
            match create_generated_transaction(
                recurring_tx,
                current_date,
                recurring_tx.date,
                up_to_date,
            ) {
                Some(new_tx) => {
                    generated.push(new_tx);
                },
                None => {
                    let past_end = match recurring_tx.recurrence_end_date {
                        Some(end) => date_before(&end, &current_date),
                        None => false,
                    };
                    if past_end {
                        proof {
                            let end = recurring_tx.recurrence_end_date.unwrap();
                            assert forall|m: nat|
                                j <= m < hz implies !occurs(
                                    tx,
                                    tx.date,
                                    up_to_date,
                                    #[trigger] interval_step(tx.date, frequency, m),
                                ) by {
                                lemma_steps_after(anchor, frequency, up_to_date, j, m);
                            }
                            lemma_prefix_settled(tx, frequency, up_to_date, j, hz);
                        }
                        break;
                    }
                },
            }
        } else {
            assert(j == 0);
        }
        proof {
            assert(generated@ == interval_prefix(tx, frequency, up_to_date, j + 1));
        }
        occurrence = occurrence + 1;
        let next_date = interval_step_exec(recurring_tx.date, frequency, occurrence);
        // The schedule always moves forward within the supported range.
        if date_on_or_before(&next_date, &current_date) {
            proof {
                assert(false);
            }
            break;
        }
        proof {
            lemma_key_order(current_date, next_date);
        }
        current_date = next_date;
    }
    generated
}

/// A date moved back to the nearest weekday on or before it (Saturday and Sunday roll back to
/// Friday).
pub open spec fn weekday_adjusted(d: Date) -> Date {
    let w = chrono_weekday(d.year, d.month, d.day);
    if w == 5 {
        previous_day(d)
    } else if w == 6 {
        previous_day(previous_day(d))
    } else {
        d
    }
}

/// The first day of the `j`-th month from the month of `start`.
pub open spec fn month_start(start: Date, j: nat) -> Date {
    add_months_spec(Date { year: start.year, month: start.month, day: 1 }, j as int)
}

/// The `i`-th semi-monthly target date: the 15th (even `i`) and the last day (odd `i`) of the
/// `i / 2`-th month from the source's month, moved back to a weekday when `workdays_only`.
pub open spec fn semi_target(start: Date, workdays_only: bool, i: nat) -> Date {
    let first = month_start(start, i / 2);
    let raw = Date {
        year: first.year,
        month: first.month,
        day: (if i % 2 == 0 {
            15
        } else {
            days_in_month_spec(first.year as int, first.month as int)
        }) as u32,
    };
    if workdays_only {
        weekday_adjusted(raw)
    } else {
        raw
    }
}

/// Number of semi-monthly targets in the months from the source's month to the horizon's.
pub open spec fn semi_horizon(start: Date, up_to: Date) -> nat {
    let span = month_index(up_to.year as int, up_to.month as int) - month_index(
        start.year as int,
        start.month as int,
    );
    if span >= 0 {
        (2 * (span + 1)) as nat
    } else {
        0
    }
}

/// The occurrences among the first `n` semi-monthly targets, in date order.
pub open spec fn semi_prefix(tx: Transaction, up_to: Date, workdays_only: bool, n: nat) -> Seq<
    Transaction,
>
    decreases n,
{
    if n == 0 {
        Seq::empty()
    } else {
        let prev = semi_prefix(tx, up_to, workdays_only, (n - 1) as nat);
        let d = semi_target(tx.date, workdays_only, (n - 1) as nat);
        if occurs(tx, tx.date, up_to, d) {
            prev.push(generated_copy(tx, d))
        } else {
            prev
        }
    }
}

/// Every semi-monthly occurrence up to `up_to`, in date order.
pub open spec fn semi_occurrences(tx: Transaction, up_to: Date, workdays_only: bool) -> Seq<
    Transaction,
> {
    semi_prefix(tx, up_to, workdays_only, semi_horizon(tx.date, up_to))
}

/// Moves a date back to the nearest weekday on or before it (Saturday/Sunday roll to Friday).
pub fn previous_weekday_on_or_before(date: Date) -> (r: Date)
    requires
        valid_date(date),
        date.day >= 3,
    ensures
        r == weekday_adjusted(date),
{
    let mut d = date;
    let mut w = weekday(d);
    while w == 5 || w == 6
        invariant
            valid_date(d),
            d.year == date.year && d.month == date.month,
            d.day >= 1,
            w == chrono_weekday(d.year, d.month, d.day),
            weekday_adjusted(d) == weekday_adjusted(date),
            d.day + 2 >= date.day && (w == 6 ==> d == date),
            (w == 5 || w == 6) ==> d.day >= 2,
            date.day >= 3,
        decreases (if w == 6 {
            2int
        } else if w == 5 {
            1int
        } else {
            0int
        }),
    {
        d = day_before(d);
        w = weekday(d);
    }
    d
}

/// The `i`-th semi-monthly target of a month whose first day is `first`.
fn semi_target_exec(first: Date, workdays_only: bool, last_day: bool) -> (r: Date)
    requires
        valid_date(first),
        first.day == 1,
    ensures
        r == (if workdays_only {
            weekday_adjusted(
                Date {
                    year: first.year,
                    month: first.month,
                    day: (if last_day {
                        days_in_month_spec(first.year as int, first.month as int)
                    } else {
                        15
                    }) as u32,
                },
            )
        } else {
            Date {
                year: first.year,
                month: first.month,
                day: (if last_day {
                    days_in_month_spec(first.year as int, first.month as int)
                } else {
                    15
                }) as u32,
            }
        }),
{
    let day = if last_day {
        days_in_month(first.year, first.month)
    } else {
        15
    };
    let target = Date { year: first.year, month: first.month, day };
    if workdays_only {
        previous_weekday_on_or_before(target)
    } else {
        target
    }
}

/// Month starts within the horizon are real first days, `j` months on.
proof fn lemma_month_start(start: Date, up_to: Date, j: nat)
    requires
        valid_date(start),
        valid_date(up_to),
        month_index(start.year as int, start.month as int) + j <= month_index(
            up_to.year as int,
            up_to.month as int,
        ),
    ensures
        valid_date(month_start(start, j)),
        month_start(start, j).day == 1,
        month_index(month_start(start, j).year as int, month_start(start, j).month as int)
            == month_index(start.year as int, start.month as int) + j,
        month_start(start, j) == shift_months_spec(
            Date { year: start.year, month: start.month, day: 1 },
            j as int,
        ),
{
    let first = Date { year: start.year, month: start.month, day: 1 };
    let idx = month_index(start.year as int, start.month as int);
    vstd::arithmetic::div_mod::lemma_fundamental_div_mod_converse(
        idx,
        12,
        start.year as int,
        start.month - 1,
    );
    vstd::arithmetic::div_mod::lemma_div_is_ordered(idx, idx + j, 12);
    vstd::arithmetic::div_mod::lemma_fundamental_div_mod_converse(
        month_index(up_to.year as int, up_to.month as int),
        12,
        up_to.year as int,
        up_to.month - 1,
    );
    vstd::arithmetic::div_mod::lemma_div_is_ordered(
        idx + j,
        month_index(up_to.year as int, up_to.month as int),
        12,
    );
    lemma_shift_months_key(first, j as int);
}

/// Within the horizon, semi-monthly targets are real dates in strictly increasing order.
proof fn lemma_semi_targets_increase(start: Date, up_to: Date, workdays_only: bool, i: nat)
    requires
        valid_date(start),
        valid_date(up_to),
        i + 1 < semi_horizon(start, up_to),
    ensures
        valid_date(semi_target(start, workdays_only, i)),
        valid_date(semi_target(start, workdays_only, i + 1)),
        date_lt(semi_target(start, workdays_only, i), semi_target(start, workdays_only, i + 1)),
        semi_target(start, workdays_only, i).year == month_start(start, i / 2).year,
        semi_target(start, workdays_only, i).month == month_start(start, i / 2).month,
{
    lemma_month_start(start, up_to, i / 2);
    lemma_month_start(start, up_to, (i + 1) / 2);
}

/// Targets from index `i` on are no earlier than target `i`.
proof fn lemma_semi_targets_after(start: Date, up_to: Date, workdays_only: bool, i: nat, m: nat)
    requires
        valid_date(start),
        valid_date(up_to),
        i <= m < semi_horizon(start, up_to),
    ensures
        date_le(semi_target(start, workdays_only, i), semi_target(start, workdays_only, m)),
    decreases m - i,
{
    if i < m {
        lemma_semi_targets_after(start, up_to, workdays_only, i, (m - 1) as nat);
        lemma_semi_targets_increase(start, up_to, workdays_only, (m - 1) as nat);
    }
}

/// Later prefixes add nothing once no remaining target occurs.
proof fn lemma_semi_prefix_settled(tx: Transaction, up_to: Date, workdays_only: bool, j: nat, n: nat)
    requires
        j <= n,
        forall|m: nat|
            j <= m < n ==> !occurs(tx, tx.date, up_to, #[trigger] semi_target(tx.date, workdays_only, m)),
    ensures
        semi_prefix(tx, up_to, workdays_only, n) == semi_prefix(tx, up_to, workdays_only, j),
    decreases n,
{
    if n > j {
        lemma_semi_prefix_settled(tx, up_to, workdays_only, j, (n - 1) as nat);
        assert(!occurs(tx, tx.date, up_to, semi_target(tx.date, workdays_only, (n - 1) as nat)));
    }
}

/// Generates semi-monthly transaction instances on the 15th and last day of each month. When
/// `workdays_only` is set, a target landing on a weekend is moved back to the preceding weekday
/// (e.g. payroll paid on the last business day on or before the 15th / month end).
fn generate_semi_monthly_instances(
    recurring_tx: &Transaction,
    up_to_date: Date,
    workdays_only: bool,
) -> (r: Vec<Transaction>)
    requires
        valid_date(recurring_tx.date),
        valid_date(up_to_date),
        up_to_date.year <= LATEST_HORIZON_YEAR,
    ensures
        r@ == semi_occurrences(*recurring_tx, up_to_date, workdays_only),
{
    let ghost tx = *recurring_tx;
    let ghost start = recurring_tx.date;
    let ghost hz = semi_horizon(start, up_to_date);
    let ghost start_index = month_index(start.year as int, start.month as int);
    let ghost end_index = month_index(up_to_date.year as int, up_to_date.month as int);
    let mut generated: Vec<Transaction> = Vec::new();
    let start_date = recurring_tx.date;
    // Start from the month of the source transaction
    let mut current_date = match date_from_ymd(start_date.year, start_date.month, 1) {
        Some(d) => d,
        None => start_date,
    };
    let mut j: usize = 0;
    proof {
        lemma_shift_zero(Date { year: start.year, month: start.month, day: 1 });
    }
    loop
        invariant_except_break
            current_date == month_start(start, j as nat),
            valid_date(current_date),
            current_date.day == 1,
            month_index(current_date.year as int, current_date.month as int) == start_index + j,
            j > 0 ==> start_index + j <= end_index + 1,
            generated@ == semi_prefix(tx, up_to_date, workdays_only, (2 * j) as nat),
        invariant
            tx == *recurring_tx,
            start == tx.date,
            start_date == start,
            hz == semi_horizon(start, up_to_date),
            start_index == month_index(start.year as int, start.month as int),
            end_index == month_index(up_to_date.year as int, up_to_date.month as int),
            valid_date(start),
            valid_date(up_to_date),
            up_to_date.year <= LATEST_HORIZON_YEAR,
        ensures
            generated@ == semi_occurrences(tx, up_to_date, workdays_only),
        decreases end_index + 1 - start_index - j,
    {
        if !date_on_or_before(&current_date, &up_to_date) {
            proof {
                assert(start_index + j > end_index);
                assert((2 * j) as nat == hz);
            }
            break;
        }
        proof {
            lemma_month_start(start, up_to_date, j as nat);
            assert(2 * j + 1 < hz);
            assert(((2 * j) as nat) / 2 == j && ((2 * j) as nat) % 2 == 0);
            assert(((2 * j + 1) as nat) / 2 == j && ((2 * j + 1) as nat) % 2 == 1);
            lemma_semi_targets_increase(start, up_to_date, workdays_only, (2 * j) as nat);
        }
        // Try to generate transactions for 15th and last day of the month
        let mut k: usize = 0;
        while k < 2
            invariant_except_break
                generated@ == semi_prefix(tx, up_to_date, workdays_only, (2 * j + k) as nat),
            invariant
                k <= 2,
                tx == *recurring_tx,
                start == tx.date,
                start_date == start,
                hz == semi_horizon(start, up_to_date),
                2 * j + 1 < hz,
                current_date == month_start(start, j as nat),
                valid_date(current_date),
                current_date.day == 1,
                valid_date(start),
                valid_date(up_to_date),
                ((2 * j) as nat) / 2 == j && ((2 * j) as nat) % 2 == 0,
                ((2 * j + 1) as nat) / 2 == j && ((2 * j + 1) as nat) % 2 == 1,
            ensures
                k == 2 ==> generated@ == semi_prefix(tx, up_to_date, workdays_only, (2 * j + 2) as nat),
                k < 2 ==> generated@ == semi_occurrences(tx, up_to_date, workdays_only),
            decreases 2 - k,
        {
            let target_date = semi_target_exec(current_date, workdays_only, k == 1);
            let ghost idx = (2 * j + k) as nat;
            assert(target_date == semi_target(start, workdays_only, idx));
            match create_generated_transaction(recurring_tx, target_date, start_date, up_to_date) {
                Some(new_tx) => {
                    generated.push(new_tx);
                },
                None => {
                    let past_end = match recurring_tx.recurrence_end_date {
                        Some(end) => date_before(&end, &target_date),
                        None => false,
                    };
                    if past_end {
                        proof {
                            assert forall|m: nat|
                                idx <= m < hz implies !occurs(
                                    tx,
                                    tx.date,
                                    up_to_date,
                                    #[trigger] semi_target(tx.date, workdays_only, m),
                                ) by {
                                lemma_semi_targets_after(start, up_to_date, workdays_only, idx, m);
                            }
                            lemma_semi_prefix_settled(tx, up_to_date, workdays_only, idx, hz);
                        }
                        break;
                    }
                },
            }
            k = k + 1;
        }
        if k < 2 {
            return generated;
        }
        assert(generated@ == semi_prefix(tx, up_to_date, workdays_only, (2 * j + 2) as nat));
        current_date = add_months(current_date, 1);
        j = j + 1;
        proof {
            lemma_month_start(start, up_to_date, (j - 1) as nat);
            let first = Date { year: start.year, month: start.month, day: 1 };
            let prev = shift_months_spec(first, (j - 1) as int);
            lemma_shift_months_key(first, (j - 1) as int);
            assert(month_index(prev.year as int, prev.month as int) + 1 == start_index + j);
            if start_index + j <= end_index {
                lemma_month_start(start, up_to_date, j as nat);
            }
            assert((month_index(prev.year as int, prev.month as int) + 1) / 12 <= MAX_YEAR) by {
                vstd::arithmetic::div_mod::lemma_div_is_ordered(
                    start_index + j,
                    end_index + 1,
                    12,
                );
                vstd::arithmetic::div_mod::lemma_fundamental_div_mod_converse(
                    end_index + 12,
                    12,
                    up_to_date.year + 1,
                    up_to_date.month - 1,
                );
                vstd::arithmetic::div_mod::lemma_div_is_ordered(end_index + 1, end_index + 12, 12);
            }
            assert(MIN_YEAR <= (month_index(prev.year as int, prev.month as int) + 1) / 12) by {
                vstd::arithmetic::div_mod::lemma_fundamental_div_mod_converse(
                    start_index,
                    12,
                    start.year as int,
                    start.month - 1,
                );
                vstd::arithmetic::div_mod::lemma_div_is_ordered(start_index, start_index + j, 12);
            }
            lemma_shift_months_key(prev, 1);
            lemma_shift_months_key(first, j as int);
            assert(current_date == month_start(start, j as nat));
            assert((2 * j) as nat == (2 * (j - 1) + 2) as nat);
        }
    }
    generated
}

/// The occurrences that one source row yields up to `up_to`: none unless it is marked
/// recurring and names a frequency; semi-monthly rules follow the 15th / month-end pattern,
/// the others step a fixed interval.
pub open spec fn source_occurrences(tx: Transaction, up_to: Date) -> Seq<Transaction> {
    if !tx.is_recurring {
        Seq::empty()
    } else {
        match tx.recurrence_frequency {
            None => Seq::empty(),
            Some(f) => if is_interval(f) {
                interval_occurrences(tx, f, up_to)
            } else {
                semi_occurrences(tx, up_to, f == RecurrenceFrequency::SemiMonthlyWorkday)
            },
        }
    }
}

/// The occurrences of every source row in turn, each row's in date order.
pub open spec fn recurring_occurrences(txs: Seq<Transaction>, up_to: Date) -> Seq<Transaction>
    decreases txs.len(),
{
    if txs.len() == 0 {
        Seq::empty()
    } else {
        recurring_occurrences(txs.drop_last(), up_to) + source_occurrences(txs.last(), up_to)
    }
}

/// Generates recurring transaction instances from a list of recurring transactions up to a
/// specified date (inclusive). Every instance has `is_generated_from_recurring` set.
pub fn generate_recurring_transactions(
    recurring_transactions: &[Transaction],
    up_to_date: Date,
) -> (r: Vec<Transaction>)
    requires
        forall|i: int|
            0 <= i < recurring_transactions@.len() ==> valid_date(
                #[trigger] recurring_transactions@[i].date,
            ),
        valid_date(up_to_date),
        up_to_date.year <= LATEST_HORIZON_YEAR,
    ensures
        r@ == recurring_occurrences(recurring_transactions@, up_to_date),
{
    let ghost txs = recurring_transactions@;
    let mut generated: Vec<Transaction> = Vec::new();
    let mut i: usize = 0;
    while i < recurring_transactions.len()
        invariant
            txs == recurring_transactions@,
            0 <= i <= txs.len(),
            forall|k: int| 0 <= k < txs.len() ==> valid_date(#[trigger] txs[k].date),
            valid_date(up_to_date),
            up_to_date.year <= LATEST_HORIZON_YEAR,
            generated@ == recurring_occurrences(txs.take(i as int), up_to_date),
        decreases txs.len() - i,
    {
        let recurring_tx = &recurring_transactions[i];
        proof {
            assert(txs.take(i + 1).drop_last() =~= txs.take(i as int));
            assert(txs.take(i + 1).last() == txs[i as int]);
            assert(valid_date(txs[i as int].date));
        }
        if recurring_tx.is_recurring {
            match recurring_tx.recurrence_frequency {
                None => {},
                Some(frequency) => {
                    let mut more = match frequency {
                        RecurrenceFrequency::SemiMonthly => generate_semi_monthly_instances(
                            recurring_tx,
                            up_to_date,
                            false,
                        ),
                        RecurrenceFrequency::SemiMonthlyWorkday => generate_semi_monthly_instances(
                            recurring_tx,
                            up_to_date,
                            true,
                        ),
                        _ => interval_instances(recurring_tx, frequency, up_to_date),
                    };
                    generated.append(&mut more);
                },
            }
        }
        proof {
            assert(generated@ == recurring_occurrences(txs.take(i + 1), up_to_date));
        }
        i = i + 1;
    }
    proof {
        assert(txs.take(txs.len() as int) =~= txs);
    }
    generated
}

/// A row that stays when generated occurrences are cleared: one stored in the database.
pub open spec fn is_stored_row(tx: Transaction) -> bool {
    !tx.is_generated_from_recurring
}

/// Removes all generated recurring transactions from a transaction list, keeping the stored
/// rows in their order. Used to clean up before regenerating, to avoid duplicates.
pub fn remove_generated_recurring_transactions(transactions: &mut Vec<Transaction>)
    ensures
        final(transactions)@ == old(transactions)@.filter(|t: Transaction| is_stored_row(t)),
{
    let ghost before = transactions@;
    let ghost keep = |t: Transaction| is_stored_row(t);
    let mut kept: Vec<Transaction> = Vec::new();
    let mut i: usize = 0;
    while i < transactions.len()
        invariant
            before == transactions@,
            keep == (|t: Transaction| is_stored_row(t)),
            0 <= i <= before.len(),
            kept@ == before.take(i as int).filter(keep),
        decreases before.len() - i,
    {
        proof {
            assert(before.take(i + 1) =~= before.take(i as int).push(before[i as int]));
            before.take(i as int).lemma_filter_push(before[i as int], keep);
        }
        if !transactions[i].is_generated_from_recurring {
            kept.push(transactions[i].duplicate());
        }
        i = i + 1;
    }
    proof {
        assert(before.take(before.len() as int) =~= before);
    }
    *transactions = kept;
}

/// `t` is an occurrence of the source row `tx` up to `up_to`: a generated copy of it, dated
/// strictly after the source, not after the horizon, and not past the rule's end date.
pub open spec fn occurrence_of(tx: Transaction, up_to: Date, t: Transaction) -> bool {
    t == generated_copy(tx, t.date) && occurs(tx, tx.date, up_to, t.date)
}

proof fn lemma_interval_prefix_members(tx: Transaction, f: RecurrenceFrequency, up_to: Date, n: nat)
    ensures
        forall|k: int|
            0 <= k < interval_prefix(tx, f, up_to, n).len() ==> occurrence_of(
                tx,
                up_to,
                #[trigger] interval_prefix(tx, f, up_to, n)[k],
            ),
    decreases n,
{
    if n > 0 {
        let prev = interval_prefix(tx, f, up_to, (n - 1) as nat);
        let cur = interval_prefix(tx, f, up_to, n);
        let d = interval_step(tx.date, f, (n - 1) as nat);
        lemma_interval_prefix_members(tx, f, up_to, (n - 1) as nat);
        assert forall|k: int| 0 <= k < cur.len() implies occurrence_of(tx, up_to, #[trigger] cur[k]) by {
            if k < prev.len() {
                assert(cur[k] == prev[k]);
            } else {
                assert(cur[k] == generated_copy(tx, d));
            }
        }
    }
}

proof fn lemma_semi_prefix_members(tx: Transaction, up_to: Date, workdays_only: bool, n: nat)
    ensures
        forall|k: int|
            0 <= k < semi_prefix(tx, up_to, workdays_only, n).len() ==> occurrence_of(
                tx,
                up_to,
                #[trigger] semi_prefix(tx, up_to, workdays_only, n)[k],
            ),
    decreases n,
{
    if n > 0 {
        let prev = semi_prefix(tx, up_to, workdays_only, (n - 1) as nat);
        let cur = semi_prefix(tx, up_to, workdays_only, n);
        let d = semi_target(tx.date, workdays_only, (n - 1) as nat);
        lemma_semi_prefix_members(tx, up_to, workdays_only, (n - 1) as nat);
        assert forall|k: int| 0 <= k < cur.len() implies occurrence_of(tx, up_to, #[trigger] cur[k]) by {
            if k < prev.len() {
                assert(cur[k] == prev[k]);
            } else {
                assert(cur[k] == generated_copy(tx, d));
            }
        }
    }
}

proof fn lemma_source_members(tx: Transaction, up_to: Date)
    ensures
        forall|k: int|
            0 <= k < source_occurrences(tx, up_to).len() ==> occurrence_of(
                tx,
                up_to,
                #[trigger] source_occurrences(tx, up_to)[k],
            ),
{
    if tx.is_recurring {
        if let Some(f) = tx.recurrence_frequency {
            if is_interval(f) {
                lemma_interval_prefix_members(tx, f, up_to, horizon(tx.date, up_to));
            } else {
                lemma_semi_prefix_members(
                    tx,
                    up_to,
                    f == RecurrenceFrequency::SemiMonthlyWorkday,
                    semi_horizon(tx.date, up_to),
                );
            }
        }
    }
}

/// Every generated row is an occurrence of one of the source rows: a copy of it flagged as
/// generated, without a database id, linked to the source's id, dated strictly after the
/// source's date and on or before the horizon, and not past the source's end date.
pub proof fn lemma_generated_rows_are_occurrences(txs: Seq<Transaction>, up_to: Date)
    ensures
        forall|k: int|
            0 <= k < recurring_occurrences(txs, up_to).len() ==> exists|i: int|
                0 <= i < txs.len() && occurrence_of(
                    #[trigger] txs[i],
                    up_to,
                    #[trigger] recurring_occurrences(txs, up_to)[k],
                ),
    decreases txs.len(),
{
    if txs.len() > 0 {
        let prev = txs.drop_last();
        lemma_generated_rows_are_occurrences(prev, up_to);
        lemma_source_members(txs.last(), up_to);
        let all = recurring_occurrences(txs, up_to);
        let head = recurring_occurrences(prev, up_to);
        assert forall|k: int| 0 <= k < all.len() implies exists|i: int|
            0 <= i < txs.len() && occurrence_of(#[trigger] txs[i], up_to, #[trigger] all[k]) by {
            if k < head.len() {
                assert(all[k] == head[k]);
                let i = choose|i: int| 0 <= i < prev.len() && occurrence_of(#[trigger] prev[i], up_to, head[k]);
                assert(txs[i] == prev[i]);
            } else {
                let last = txs.last();
                assert(all[k] == source_occurrences(last, up_to)[k - head.len()]);
                assert(txs[txs.len() - 1] == last);
            }
        }
    }
}

/// A generated occurrence is its rule with a new date: it keeps the rule's description, amount,
/// transaction type, category, subcategory and recurrence settings; only the date (strictly
/// after the rule's, on or before the horizon, not past the rule's end date), the generated flag
/// (set) and the ids (no row id, the rule's id as parent) differ.
pub proof fn lemma_occurrences_keep_their_rule(txs: Seq<Transaction>, up_to: Date)
    ensures
        forall|k: int|
            #![trigger recurring_occurrences(txs, up_to)[k]]
            0 <= k < recurring_occurrences(txs, up_to).len() ==> exists|i: int|
                #![trigger txs[i]]
                0 <= i < txs.len() && {
                    let g = recurring_occurrences(txs, up_to)[k];
                    let rule = txs[i];
                    &&& g.description == rule.description
                    &&& g.amount == rule.amount
                    &&& g.transaction_type == rule.transaction_type
                    &&& g.category == rule.category
                    &&& g.subcategory == rule.subcategory
                    &&& g.is_recurring == rule.is_recurring
                    &&& g.recurrence_frequency == rule.recurrence_frequency
                    &&& g.recurrence_end_date == rule.recurrence_end_date
                    &&& g.is_generated_from_recurring
                    &&& g.id is None
                    &&& g.parent_id == rule.id
                    &&& date_lt(rule.date, g.date)
                    &&& date_le(g.date, up_to)
                    &&& (rule.recurrence_end_date matches Some(end) ==> date_le(g.date, end))
                },
{
    lemma_generated_rows_are_occurrences(txs, up_to);
    let all = recurring_occurrences(txs, up_to);
    assert forall|k: int| #![trigger all[k]] 0 <= k < all.len() implies exists|i: int|
        #![trigger txs[i]]
        0 <= i < txs.len() && {
            let g = all[k];
            let rule = txs[i];
            &&& g.description == rule.description
            &&& g.amount == rule.amount
            &&& g.transaction_type == rule.transaction_type
            &&& g.category == rule.category
            &&& g.subcategory == rule.subcategory
            &&& g.is_recurring == rule.is_recurring
            &&& g.recurrence_frequency == rule.recurrence_frequency
            &&& g.recurrence_end_date == rule.recurrence_end_date
            &&& g.is_generated_from_recurring
            &&& g.id is None
            &&& g.parent_id == rule.id
            &&& date_lt(rule.date, g.date)
            &&& date_le(g.date, up_to)
            &&& (rule.recurrence_end_date matches Some(end) ==> date_le(g.date, end))
        } by {
        let i = choose|i: int| 0 <= i < txs.len() && occurrence_of(#[trigger] txs[i], up_to, all[k]);
        assert(occurrence_of(txs[i], up_to, all[k]));
    }
}

/// The date `k` steps of an interval frequency after `anchor`, in the calendar's own terms:
/// 1, 7 or 14 days per step, or 1, 3 or 12 months per step taken from `anchor`.
pub open spec fn calendar_step(anchor: Date, f: RecurrenceFrequency, k: nat) -> Date {
    match f {
        RecurrenceFrequency::Daily => days_after(anchor, k),
        RecurrenceFrequency::Weekly => days_after(anchor, 7 * k),
        RecurrenceFrequency::BiWeekly => days_after(anchor, 14 * k),
        RecurrenceFrequency::Monthly => add_months_spec(anchor, k as int),
        RecurrenceFrequency::Quarterly => add_months_spec(anchor, (3 * k) as int),
        RecurrenceFrequency::Yearly => add_months_spec(anchor, (12 * k) as int),
        _ => anchor,
    }
}

/// `d` falls a whole number (at least one) of the frequency's steps after `anchor`.
pub open spec fn on_schedule(anchor: Date, f: RecurrenceFrequency, d: Date) -> bool {
    exists|k: nat| k >= 1 && d == #[trigger] calendar_step(anchor, f, k)
}

proof fn lemma_calendar_step(anchor: Date, f: RecurrenceFrequency, k: nat)
    requires
        is_interval(f),
    ensures
        calendar_step(anchor, f, k) == interval_step(anchor, f, k),
{
    assert(1 * k == k);
}

/// Every date an interval rule reaches within the schedule's horizon count.
proof fn lemma_prefix_dates(tx: Transaction, f: RecurrenceFrequency, up_to: Date, n: nat)
    requires
        valid_date(tx.date),
    ensures
        forall|j: int|
            0 <= j < interval_prefix(tx, f, up_to, n).len() ==> exists|k: nat|
                1 <= k < n && (#[trigger] interval_prefix(tx, f, up_to, n)[j]).date
                    == interval_step(tx.date, f, k),
    decreases n,
{
    if n > 0 {
        let prev = interval_prefix(tx, f, up_to, (n - 1) as nat);
        let cur = interval_prefix(tx, f, up_to, n);
        let k0 = (n - 1) as nat;
        let d = interval_step(tx.date, f, k0);
        lemma_prefix_dates(tx, f, up_to, k0);
        lemma_step_zero(tx.date, f);
        assert forall|j: int| 0 <= j < cur.len() implies exists|k: nat|
            1 <= k < n && (#[trigger] cur[j]).date == interval_step(tx.date, f, k) by {
            if j < prev.len() {
                assert(cur[j] == prev[j]);
                let k = choose|k: nat| 1 <= k < k0 && prev[j].date == interval_step(tx.date, f, k);
                assert(1 <= k < n);
            } else {
                assert(cur[j] == generated_copy(tx, d));
                assert(k0 != 0);
            }
        }
    }
}

/// A scheduled date among the first `n` steps that occurs is in the prefix.
proof fn lemma_prefix_contains(tx: Transaction, f: RecurrenceFrequency, up_to: Date, n: nat, k: nat)
    requires
        k < n,
        occurs(tx, tx.date, up_to, interval_step(tx.date, f, k)),
    ensures
        exists|j: int|
            0 <= j < interval_prefix(tx, f, up_to, n).len() && (#[trigger] interval_prefix(
                tx,
                f,
                up_to,
                n,
            )[j]).date == interval_step(tx.date, f, k),
    decreases n,
{
    let prev = interval_prefix(tx, f, up_to, (n - 1) as nat);
    let cur = interval_prefix(tx, f, up_to, n);
    if k == n - 1 {
        assert(cur[cur.len() - 1].date == interval_step(tx.date, f, k));
    } else {
        lemma_prefix_contains(tx, f, up_to, (n - 1) as nat, k);
        let j = choose|j: int| 0 <= j < prev.len() && (#[trigger] prev[j]).date == interval_step(
            tx.date,
            f,
            k,
        );
        assert(cur[j] == prev[j]);
    }
}

/// A step that occurs lies within the schedule's horizon count.
proof fn lemma_occurring_step_in_horizon(tx: Transaction, f: RecurrenceFrequency, up_to: Date, k: nat)
    requires
        valid_date(tx.date),
        valid_date(up_to),
        is_interval(f),
        k >= 1,
        date_key(tx.date) + 56 * k < 372 * (i32::MAX as int),
        occurs(tx, tx.date, up_to, interval_step(tx.date, f, k)),
    ensures
        k < horizon(tx.date, up_to),
{
    let anchor = tx.date;
    let d = interval_step(anchor, f, k);
    if day_stride(f) > 0 {
        let s = day_stride(f);
        assert(4 * (s * k) <= 56 * k) by (nonlinear_arith)
            requires
                s <= 14,
        ;
        assert(s * k >= k) by (nonlinear_arith)
            requires
                s >= 1,
        ;
        lemma_days_after_monotonic(anchor, s * k, s * k);
    } else {
        let ms = month_stride(f);
        let idx = month_index(anchor.year as int, anchor.month as int);
        if MIN_YEAR <= (idx + ms * k) / 12 <= MAX_YEAR {
            assert(ms * k >= k) by (nonlinear_arith)
                requires
                    ms >= 1,
            ;
            lemma_shift_months_key(anchor, (ms * k) as int);
        } else {
            assert(d == anchor);
        }
    }
    lemma_key_order(anchor, d);
    lemma_key_order(d, up_to);
}

/// The schedule of an interval rule (daily, weekly, bi-weekly, monthly, quarterly, yearly),
/// generated from the rule list holding just that rule: every generated occurrence falls on a whole number (at least one) of steps after the rule's date,
/// and every such step that falls after the rule's date, on or before the horizon and not past
/// the rule's end date is generated (for any step count whose dates stay within `i32` years).
pub proof fn lemma_interval_rule_schedule(
    rules: Seq<Transaction>,
    tx: Transaction,
    f: RecurrenceFrequency,
    up_to: Date,
)
    requires
        rules == seq![tx],
        valid_date(tx.date),
        valid_date(up_to),
        tx.is_recurring,
        tx.recurrence_frequency == Some(f),
        f != RecurrenceFrequency::SemiMonthly,
        f != RecurrenceFrequency::SemiMonthlyWorkday,
    ensures
        forall|j: int|
            0 <= j < recurring_occurrences(rules, up_to).len() ==> on_schedule(
                tx.date,
                f,
                (#[trigger] recurring_occurrences(rules, up_to)[j]).date,
            ),
        forall|k: nat|
            k >= 1 && date_key(tx.date) + 56 * k < 372 * (i32::MAX as int) && date_lt(
                tx.date,
                #[trigger] calendar_step(tx.date, f, k),
            ) && date_le(calendar_step(tx.date, f, k), up_to) && (tx.recurrence_end_date matches Some(
                end,
            ) ==> date_le(calendar_step(tx.date, f, k), end)) ==> exists|j: int|
                0 <= j < recurring_occurrences(rules, up_to).len() && recurring_occurrences(rules, up_to)[j].date == calendar_step(tx.date, f, k),
{
    let s1 = rules;
    assert(s1.drop_last() =~= Seq::<Transaction>::empty());
    assert(s1.last() == tx);
    let occ = recurring_occurrences(s1, up_to);
    assert(recurring_occurrences(s1.drop_last(), up_to) =~= Seq::<Transaction>::empty());
    assert(source_occurrences(tx, up_to) == interval_occurrences(tx, f, up_to));
    assert(occ =~= interval_occurrences(tx, f, up_to));
    assert(occ == recurring_occurrences(rules, up_to));
    let h = horizon(tx.date, up_to);
    lemma_prefix_dates(tx, f, up_to, h);
    assert forall|j: int|
        0 <= j < occ.len() implies on_schedule(tx.date, f, (#[trigger] occ[j]).date) by {
        assert(occ[j] == interval_prefix(tx, f, up_to, h)[j]);
        let k = choose|k: nat| 1 <= k < h && occ[j].date == interval_step(tx.date, f, k);
        lemma_calendar_step(tx.date, f, k);
        assert(occ[j].date == calendar_step(tx.date, f, k));
    }
    assert forall|k: nat|
        k >= 1 && date_key(tx.date) + 56 * k < 372 * (i32::MAX as int) && date_lt(
            tx.date,
            #[trigger] calendar_step(tx.date, f, k),
        ) && date_le(calendar_step(tx.date, f, k), up_to) && (tx.recurrence_end_date matches Some(
            end,
        ) ==> date_le(calendar_step(tx.date, f, k), end)) implies exists|j: int|
        0 <= j < occ.len() && occ[j].date == calendar_step(tx.date, f, k) by {
        lemma_calendar_step(tx.date, f, k);
        assert(occurs(tx, tx.date, up_to, interval_step(tx.date, f, k)));
        lemma_occurring_step_in_horizon(tx, f, up_to, k);
        lemma_prefix_contains(tx, f, up_to, h, k);
        let j = choose|j: int|
            0 <= j < interval_prefix(tx, f, up_to, h).len() && (#[trigger] interval_prefix(
                tx,
                f,
                up_to,
                h,
            )[j]).date == interval_step(tx.date, f, k);
        assert(occ[j] == interval_prefix(tx, f, up_to, h)[j]);
    }
}

proof fn lemma_semi_prefix_dates(tx: Transaction, up_to: Date, workdays_only: bool, n: nat)
    ensures
        forall|j: int|
            0 <= j < semi_prefix(tx, up_to, workdays_only, n).len() ==> exists|i: nat|
                (#[trigger] semi_prefix(tx, up_to, workdays_only, n)[j]).date == semi_target(
                    tx.date,
                    workdays_only,
                    i,
                ),
    decreases n,
{
    if n > 0 {
        let prev = semi_prefix(tx, up_to, workdays_only, (n - 1) as nat);
        let cur = semi_prefix(tx, up_to, workdays_only, n);
        let i0 = (n - 1) as nat;
        lemma_semi_prefix_dates(tx, up_to, workdays_only, i0);
        assert forall|j: int| 0 <= j < cur.len() implies exists|i: nat|
            (#[trigger] cur[j]).date == semi_target(tx.date, workdays_only, i) by {
            if j < prev.len() {
                assert(cur[j] == prev[j]);
                let i = choose|i: nat| prev[j].date == semi_target(tx.date, workdays_only, i);
                assert(cur[j].date == semi_target(tx.date, workdays_only, i));
            } else {
                assert(cur[j].date == semi_target(tx.date, workdays_only, i0));
            }
        }
    }
}

/// The days a semi-monthly rule falls on: the 15th and the last day of each month; the
/// weekday-adjusted rule moves a target that falls on a weekend back by at most two days
/// within its month, so it falls on the 13th to the 15th or in the last three days of a month.
pub proof fn lemma_semi_monthly_days(rules: Seq<Transaction>, tx: Transaction, up_to: Date)
    requires
        rules == seq![tx],
        tx.is_recurring,
        tx.recurrence_frequency == Some(RecurrenceFrequency::SemiMonthly)
            || tx.recurrence_frequency == Some(RecurrenceFrequency::SemiMonthlyWorkday),
    ensures
        forall|j: int|
            0 <= j < recurring_occurrences(rules, up_to).len() ==> {
                let d = (#[trigger] recurring_occurrences(rules, up_to)[j]).date;
                let last = days_in_month_spec(d.year as int, d.month as int);
                if tx.recurrence_frequency == Some(RecurrenceFrequency::SemiMonthly) {
                    d.day == 15 || d.day == last
                } else {
                    (13 <= d.day <= 15) || (last - 2 <= d.day <= last)
                }
            },
{
    let workdays = tx.recurrence_frequency == Some(RecurrenceFrequency::SemiMonthlyWorkday);
    assert(rules.drop_last() =~= Seq::<Transaction>::empty());
    assert(rules.last() == tx);
    let occ = recurring_occurrences(rules, up_to);
    assert(recurring_occurrences(rules.drop_last(), up_to) =~= Seq::<Transaction>::empty());
    let n = semi_horizon(tx.date, up_to);
    assert(occ =~= semi_prefix(tx, up_to, workdays, n));
    lemma_semi_prefix_dates(tx, up_to, workdays, n);
    assert forall|j: int| 0 <= j < occ.len() implies {
        let d = (#[trigger] occ[j]).date;
        let last = days_in_month_spec(d.year as int, d.month as int);
        if tx.recurrence_frequency == Some(RecurrenceFrequency::SemiMonthly) {
            d.day == 15 || d.day == last
        } else {
            (13 <= d.day <= 15) || (last - 2 <= d.day <= last)
        }
    } by {
        assert(occ[j] == semi_prefix(tx, up_to, workdays, n)[j]);
        let i = choose|i: nat| occ[j].date == semi_target(tx.date, workdays, i);
        let first = month_start(tx.date, i / 2);
        let dim = days_in_month_spec(first.year as int, first.month as int);
        assert(28 <= dim <= 31);
    }
}

/// Clearing generated rows after a regeneration gives back exactly the stored rows: every
/// generated occurrence is removed and every stored row is kept, in its order.
pub proof fn lemma_clear_after_generate(rows: Seq<Transaction>, sources: Seq<Transaction>, up_to: Date)
    ensures
        (rows + recurring_occurrences(sources, up_to)).filter(|t: Transaction| is_stored_row(t))
            == rows.filter(|t: Transaction| is_stored_row(t)),
{
    let keep = |t: Transaction| is_stored_row(t);
    let gen = recurring_occurrences(sources, up_to);
    lemma_generated_rows_are_occurrences(sources, up_to);
    assert forall|k: int| 0 <= k < gen.len() implies !keep(#[trigger] gen[k]) by {
        let i = choose|i: int| 0 <= i < sources.len() && occurrence_of(#[trigger] sources[i], up_to, gen[k]);
    }
    lemma_filter_append_none(rows, gen, keep);
}

/// Filtering a concatenation whose second part has no kept item keeps only from the first.
proof fn lemma_filter_append_none(a: Seq<Transaction>, b: Seq<Transaction>, keep: spec_fn(Transaction) -> bool)
    requires
        forall|k: int| 0 <= k < b.len() ==> !keep(#[trigger] b[k]),
    ensures
        (a + b).filter(keep) == a.filter(keep),
    decreases b.len(),
{
    if b.len() == 0 {
        assert(a + b =~= a);
    } else {
        let b0 = b.drop_last();
        lemma_filter_append_none(a, b0, keep);
        assert(a + b =~= (a + b0).push(b.last()));
        (a + b0).lemma_filter_push(b.last(), keep);
        assert(!keep(b[b.len() - 1]));
    }
}

/// A row that generates occurrences.
pub open spec fn is_recurring_source(tx: Transaction) -> bool {
    tx.is_recurring
}

/// Replaces the generated occurrences in `transactions` with those of its stored recurring
/// rows up to `up_to_date`: the stored rows stay first, in their order, followed by the new
/// occurrences.
pub fn regenerate_recurring_transactions(transactions: &mut Vec<Transaction>, up_to_date: Date)
    requires
        forall|i: int| 0 <= i < old(transactions)@.len() ==> valid_date(#[trigger] old(transactions)@[i].date),
        valid_date(up_to_date),
        up_to_date.year <= LATEST_HORIZON_YEAR,
    ensures
        final(transactions)@ == regenerated(old(transactions)@, up_to_date),
{
    let ghost before = transactions@;
    remove_generated_recurring_transactions(transactions);
    let ghost stored = transactions@;
    proof {
        assert forall|i: int| 0 <= i < stored.len() implies valid_date(#[trigger] stored[i].date) by {
            let f = before.filter(|t: Transaction| is_stored_row(t));
            assert(f.contains(stored[i]));
            before.lemma_filter_contains_rev(|t: Transaction| is_stored_row(t), stored[i]);
        }
    }
    let mut sources: Vec<Transaction> = Vec::new();
    let mut i: usize = 0;
    while i < transactions.len()
        invariant
            i <= transactions@.len(),
            transactions@ == stored,
            sources@ == stored.take(i as int).filter(|t: Transaction| is_recurring_source(t)),
        decreases transactions@.len() - i,
    {
        proof {
            assert(stored.take(i + 1) =~= stored.take(i as int).push(stored[i as int]));
            stored.take(i as int).lemma_filter_push(stored[i as int], |t: Transaction| is_recurring_source(t));
        }
        if transactions[i].is_recurring {
            sources.push(transactions[i].duplicate());
        }
        i = i + 1;
    }
    proof {
        assert(stored.take(stored.len() as int) =~= stored);
        let src = sources@;
        assert forall|k: int| 0 <= k < src.len() implies valid_date(#[trigger] src[k].date) by {
            assert(src.contains(src[k]));
            stored.lemma_filter_contains_rev(|t: Transaction| is_recurring_source(t), src[k]);
        }
    }
    let mut generated = generate_recurring_transactions(sources.as_slice(), up_to_date);
    transactions.append(&mut generated);
}

/// Decimal equality by value: "10" equals "10.00".
pub open spec fn amount_same(a: crate::money::Amount, b: crate::money::Amount) -> bool {
    !amount_less(a, b) && !amount_less(b, a)
}

/// `candidate` is the stored recurring row a generated occurrence came from: same rule and same
/// description, amount, type, category and subcategory.
pub open spec fn is_source_of(candidate: Transaction, generated: Transaction) -> bool {
    &&& candidate.is_recurring
    &&& !candidate.is_generated_from_recurring
    &&& candidate.description@ == generated.description@
    &&& amount_same(candidate.amount, generated.amount)
    &&& candidate.transaction_type == generated.transaction_type
    &&& candidate.category@ == generated.category@
    &&& candidate.subcategory@ == generated.subcategory@
    &&& candidate.recurrence_frequency == generated.recurrence_frequency
    &&& candidate.recurrence_end_date == generated.recurrence_end_date
}

/// The position of the first stored recurring row a generated occurrence came from; `None`
/// for a row that is not generated, or when no such row exists.
pub fn find_original_recurring_transaction(transactions: &[Transaction], generated_tx: &Transaction) -> (r:
    Option<usize>)
    requires
        forall|i: int| 0 <= i < transactions@.len() ==> amount_wf(#[trigger] transactions@[i].amount),
        amount_wf(generated_tx.amount),
    ensures
        !generated_tx.is_generated_from_recurring ==> r is None,
        generated_tx.is_generated_from_recurring ==> match r {
            Some(i) => i < transactions@.len() && is_source_of(transactions@[i as int], *generated_tx)
                && forall|j: int| 0 <= j < i ==> !is_source_of(#[trigger] transactions@[j], *generated_tx),
            None => forall|j: int|
                0 <= j < transactions@.len() ==> !is_source_of(#[trigger] transactions@[j], *generated_tx),
        },
{
    if !generated_tx.is_generated_from_recurring {
        return None;
    }
    let mut i: usize = 0;
    while i < transactions.len()
        invariant
            i <= transactions@.len(),
            forall|k: int| 0 <= k < transactions@.len() ==> amount_wf(#[trigger] transactions@[k].amount),
            amount_wf(generated_tx.amount),
            generated_tx.is_generated_from_recurring,
            forall|j: int| 0 <= j < i ==> !is_source_of(#[trigger] transactions@[j], *generated_tx),
        decreases transactions@.len() - i,
    {
        let tx = &transactions[i];
        proof {
            assert(amount_wf(transactions@[i as int].amount));
        }
        if tx.is_recurring && !tx.is_generated_from_recurring && text_eq(
            tx.description.as_str(),
            generated_tx.description.as_str(),
        ) && !less_than(tx.amount, generated_tx.amount) && !less_than(generated_tx.amount, tx.amount)
            && tx.transaction_type == generated_tx.transaction_type && text_eq(
            tx.category.as_str(),
            generated_tx.category.as_str(),
        ) && text_eq(tx.subcategory.as_str(), generated_tx.subcategory.as_str())
            && tx.recurrence_frequency == generated_tx.recurrence_frequency
            && tx.recurrence_end_date == generated_tx.recurrence_end_date {
            return Some(i);
        }
        i = i + 1;
    }
    None
}

/// The recurrence settings a form describes: recurring when the first field reads "yes" in any
/// case; the frequency named by the second field (Monthly for a label it does not know), only
/// when recurring; and an end date from the third, none when it is blank. `Err` when the end
/// date is not a `YYYY-MM-DD` date.
pub open spec fn recurring_settings_spec(
    enabled: Seq<char>,
    frequency: Seq<char>,
    end_date: Seq<char>,
) -> Result<(bool, Option<RecurrenceFrequency>, Option<Date>), ()> {
    let is_recurring = unicode_lowercase(enabled) == "yes"@;
    let freq = if is_recurring {
        Some(
            match frequency_from_label_spec(frequency) {
                Some(f) => f,
                None => RecurrenceFrequency::Monthly,
            },
        )
    } else {
        None
    };
    if end_date.len() == 0 {
        Ok((is_recurring, freq, None))
    } else {
        match chrono_parse_date(end_date, DATE_FORMAT@) {
            Some(d) => Ok((is_recurring, freq, Some(d))),
            None => Err(()),
        }
    }
}

/// Reads the recurring-settings form.
pub fn parse_recurring_settings(enabled: &str, frequency: &str, end_date: &str) -> (r: Result<
    (bool, Option<RecurrenceFrequency>, Option<Date>),
    (),
>)
    ensures
        r == recurring_settings_spec(enabled@, frequency@, end_date@),
        r matches Ok((_, _, Some(d))) ==> valid_date(d),
{
    let lower = to_lowercase(enabled);
    let is_recurring = text_eq(lower.as_str(), "yes");
    let freq = if is_recurring {
        Some(
            match RecurrenceFrequency::from_label(frequency) {
                Some(f) => f,
                None => RecurrenceFrequency::Monthly,
            },
        )
    } else {
        None
    };
    if end_date.unicode_len() == 0 {
        Ok((is_recurring, freq, None))
    } else {
        match parse_date(end_date, DATE_FORMAT) {
            Some(d) => Ok((is_recurring, freq, Some(d))),
            None => Err(()),
        }
    }
}

/// The rows after a regeneration up to `up_to`.
pub open spec fn regenerated(rows: Seq<Transaction>, up_to: Date) -> Seq<Transaction> {
    let stored = rows.filter(|t: Transaction| is_stored_row(t));
    stored + recurring_occurrences(stored.filter(|t: Transaction| is_recurring_source(t)), up_to)
}

proof fn lemma_filter_twice(s: Seq<Transaction>, keep: spec_fn(Transaction) -> bool)
    ensures
        s.filter(keep).filter(keep) == s.filter(keep),
    decreases s.len(),
{
    if s.len() > 0 {
        let init = s.drop_last();
        lemma_filter_twice(init, keep);
        assert(s =~= init.push(s.last()));
        init.lemma_filter_push(s.last(), keep);
        if keep(s.last()) {
            init.filter(keep).lemma_filter_push(s.last(), keep);
        }
    } else {
        reveal(Seq::filter);
    }
}

/// Regenerating is idempotent: a second regeneration, with nothing changed in between, leaves
/// the rows exactly as the first did (no occurrence is duplicated or lost).
pub proof fn lemma_regenerate_idempotent(rows: Seq<Transaction>, up_to: Date)
    ensures
        regenerated(regenerated(rows, up_to), up_to) == regenerated(rows, up_to),
{
    let keep = |t: Transaction| is_stored_row(t);
    let stored = rows.filter(keep);
    let sources = stored.filter(|t: Transaction| is_recurring_source(t));
    lemma_clear_after_generate(stored, sources, up_to);
    lemma_filter_twice(rows, keep);
    assert(regenerated(rows, up_to).filter(keep) == stored);
}

} // verus!
