use budget_tracker::model::{BudgetEditScope, BudgetMonth, BudgetPeriod, BudgetWrite};
use budget_tracker::money::Amount;
use budget_tracker::schedule::BudgetSchedule;
use rust_decimal::Decimal;

fn money(text: &str) -> Amount {
    let d: Decimal = text.parse().unwrap();
    Amount { mantissa: d.mantissa(), scale: d.scale() }
}

fn amount(text: &str) -> Option<Amount> {
    Some(money(text))
}

fn period(id: i64, category_id: Option<i64>, start: BudgetMonth, value: Option<&str>) -> BudgetPeriod {
    BudgetPeriod { id, category_id, start, amount: value.map(money) }
}

#[test]
fn edit_scopes_resolve_to_the_right_writes() {
    let jan = BudgetMonth::new(2026, 1);
    let mar = BudgetMonth::new(2026, 3);
    let dec = BudgetMonth::new(2026, 12);
    let schedule = BudgetSchedule::new(vec![
        period(1, None, jan, Some("2000")),
        period(2, None, mar, Some("2500")),
    ]);

    assert_eq!(
        schedule.plan_edit(None, mar, amount("3000"), BudgetEditScope::FromThisMonth),
        vec![BudgetWrite::Assign(mar, amount("3000"))]
    );

    // Only April must be restored to what it inherits today (2500), not to the new value.
    assert_eq!(
        schedule.plan_edit(None, mar, amount("3000"), BudgetEditScope::ThisMonthOnly),
        vec![
            BudgetWrite::Assign(mar, amount("3000")),
            BudgetWrite::Assign(BudgetMonth::new(2026, 4), amount("2500")),
        ]
    );

    // December rolls into January of the next year rather than month 13.
    assert_eq!(
        schedule.plan_edit(None, dec, amount("100"), BudgetEditScope::ThisMonthOnly),
        vec![
            BudgetWrite::Assign(dec, amount("100")),
            BudgetWrite::Assign(BudgetMonth::new(2027, 1), amount("2500")),
        ]
    );

    // Replacing wipes history first, so a later period cannot survive and override.
    assert_eq!(
        schedule.plan_edit(None, mar, amount("1800"), BudgetEditScope::ReplaceAllMonths),
        vec![
            BudgetWrite::RemoveAll,
            BudgetWrite::Assign(BudgetMonth::beginning(), amount("1800")),
        ]
    );

    assert_eq!(
        schedule.plan_edit(None, mar, None, BudgetEditScope::RemoveChange),
        vec![BudgetWrite::Remove(mar)]
    );

    // A scope with no periods of its own is unaffected by the target's.
    assert_eq!(
        schedule.plan_edit(Some(7), mar, amount("600"), BudgetEditScope::ThisMonthOnly),
        vec![
            BudgetWrite::Assign(mar, amount("600")),
            BudgetWrite::Assign(BudgetMonth::new(2026, 4), None),
        ]
    );
}

#[test]
fn a_month_reads_the_latest_period_started_on_or_before_it() {
    let schedule = BudgetSchedule::new(vec![
        period(2, None, BudgetMonth::new(2026, 3), Some("2500")),
        period(1, None, BudgetMonth::new(2026, 1), Some("2000")),
        period(3, Some(7), BudgetMonth::new(2026, 2), Some("600")),
        period(4, Some(7), BudgetMonth::new(2026, 5), None),
    ]);
    assert_eq!(schedule.monthly_budget(BudgetMonth::new(2025, 12)), None);
    assert_eq!(schedule.monthly_budget(BudgetMonth::new(2026, 1)), amount("2000"));
    assert_eq!(schedule.monthly_budget(BudgetMonth::new(2026, 2)), amount("2000"));
    assert_eq!(schedule.monthly_budget(BudgetMonth::new(2026, 3)), amount("2500"));
    assert_eq!(schedule.monthly_budget(BudgetMonth::new(2030, 7)), amount("2500"));
    assert_eq!(schedule.category_budget(7, BudgetMonth::new(2026, 1)), None);
    assert_eq!(schedule.category_budget(7, BudgetMonth::new(2026, 4)), amount("600"));
    // A period without an amount clears the budget from its month on.
    assert_eq!(schedule.category_budget(7, BudgetMonth::new(2026, 6)), None);
    assert_eq!(schedule.category_budget(8, BudgetMonth::new(2026, 6)), None);
}

#[test]
fn schedule_queries_count_years_and_starts() {
    let schedule = BudgetSchedule::new(vec![
        period(1, None, BudgetMonth::beginning(), Some("100")),
        period(2, None, BudgetMonth::new(2027, 3), Some("2500")),
        period(3, Some(7), BudgetMonth::new(2025, 2), Some("600")),
        period(4, Some(7), BudgetMonth::new(2027, 5), Some("650")),
        period(5, Some(3), BudgetMonth::new(2026, 1), Some("90")),
    ]);
    assert_eq!(schedule.years(), vec![2025, 2026, 2027]);
    assert_eq!(schedule.period_count(None), 2);
    assert_eq!(schedule.period_count(Some(7)), 2);
    assert_eq!(schedule.period_count(Some(9)), 0);
    assert!(schedule.starts_at(Some(7), BudgetMonth::new(2027, 5)));
    assert!(!schedule.starts_at(Some(7), BudgetMonth::new(2027, 6)));
    assert!(!schedule.starts_at(None, BudgetMonth::new(2027, 5)));
    assert_eq!(
        schedule.budgeted_categories(BudgetMonth::new(2026, 6)),
        vec![(3, money("90")), (7, money("600"))]
    );
    assert_eq!(
        schedule.budgeted_categories(BudgetMonth::new(2028, 1)),
        vec![(3, money("90")), (7, money("650"))]
    );
    assert_eq!(schedule.budgeted_categories(BudgetMonth::new(2024, 1)), vec![]);
}

#[test]
fn months_step_and_compare() {
    assert_eq!(BudgetMonth::new(2026, 12).next(), BudgetMonth::new(2027, 1));
    assert_eq!(BudgetMonth::new(2026, 4).next(), BudgetMonth::new(2026, 5));
    assert!(BudgetMonth::beginning().is_before(BudgetMonth::new(1, 1)));
    assert!(BudgetMonth::new(2026, 4).is_before(BudgetMonth::new(2026, 5)));
    assert!(!BudgetMonth::new(2026, 5).is_before(BudgetMonth::new(2026, 5)));
    assert!(BudgetSchedule::empty().budgeted_categories(BudgetMonth::new(2026, 1)).is_empty());
}

/// Carries out writes the way the budget store does: an assignment replaces the period of the
/// budget starting in its month, a removal deletes it, removing all deletes every period of
/// the budget.
fn apply(store: &mut Vec<BudgetPeriod>, category_id: Option<i64>, writes: &[BudgetWrite], next_id: &mut i64) {
    for write in writes {
        match write {
            BudgetWrite::Assign(start, value) => {
                store.retain(|p| !(p.category_id == category_id && p.start == *start));
                *next_id += 1;
                store.push(BudgetPeriod { id: *next_id, category_id, start: *start, amount: *value });
            }
            BudgetWrite::Remove(start) => {
                store.retain(|p| !(p.category_id == category_id && p.start == *start));
            }
            BudgetWrite::RemoveAll => store.retain(|p| p.category_id != category_id),
        }
    }
}

fn month(m: u32) -> BudgetMonth {
    BudgetMonth::new(2026, m)
}

fn sample_store() -> Vec<BudgetPeriod> {
    vec![
        period(1, None, month(1), Some("2000")),
        period(2, None, month(3), Some("2500")),
        period(3, Some(7), month(2), Some("300")),
    ]
}

fn edited(scope: BudgetEditScope, start: BudgetMonth, value: Option<Amount>) -> BudgetSchedule {
    let mut store = sample_store();
    let writes = BudgetSchedule::new(store.clone()).plan_edit(None, start, value, scope);
    let mut next_id = 100;
    apply(&mut store, None, &writes, &mut next_id);
    BudgetSchedule::new(store)
}

#[test]
fn this_month_only_changes_just_that_month() {
    let after = edited(BudgetEditScope::ThisMonthOnly, month(2), amount("900"));
    assert_eq!(after.amount_for(None, month(1)), amount("2000"));
    assert_eq!(after.amount_for(None, month(2)), amount("900"));
    assert_eq!(after.amount_for(None, month(3)), amount("2500"));
    assert_eq!(after.amount_for(None, month(11)), amount("2500"));
    assert_eq!(after.amount_for(Some(7), month(2)), amount("300"));
}

#[test]
fn this_month_only_in_december_keeps_january() {
    let after = edited(BudgetEditScope::ThisMonthOnly, month(12), amount("100"));
    assert_eq!(after.amount_for(None, month(11)), amount("2500"));
    assert_eq!(after.amount_for(None, month(12)), amount("100"));
    assert_eq!(after.amount_for(None, BudgetMonth::new(2027, 1)), amount("2500"));
}

#[test]
fn from_this_month_reaches_the_next_change() {
    let after = edited(BudgetEditScope::FromThisMonth, month(2), amount("2200"));
    assert_eq!(after.amount_for(None, month(1)), amount("2000"));
    assert_eq!(after.amount_for(None, month(2)), amount("2200"));
    assert_eq!(after.amount_for(None, month(3)), amount("2500"));
    assert_eq!(after.amount_for(None, month(6)), amount("2500"));
}

#[test]
fn replace_all_months_sets_every_month() {
    let after = edited(BudgetEditScope::ReplaceAllMonths, month(5), amount("1800"));
    assert_eq!(after.amount_for(None, BudgetMonth::new(1999, 7)), amount("1800"));
    assert_eq!(after.amount_for(None, month(1)), amount("1800"));
    assert_eq!(after.amount_for(None, month(3)), amount("1800"));
    assert_eq!(after.amount_for(Some(7), month(4)), amount("300"));
}

#[test]
fn remove_change_falls_back_to_the_earlier_period() {
    let after = edited(BudgetEditScope::RemoveChange, month(3), None);
    assert_eq!(after.amount_for(None, month(3)), amount("2000"));
    assert_eq!(after.amount_for(None, month(9)), amount("2000"));
}

#[test]
fn removing_a_fresh_change_restores_every_month() {
    let before = BudgetSchedule::new(sample_store());
    let mut store = sample_store();
    let mut next_id = 100;
    let set = before.plan_edit(None, month(5), amount("4000"), BudgetEditScope::FromThisMonth);
    apply(&mut store, None, &set, &mut next_id);
    assert_eq!(BudgetSchedule::new(store.clone()).amount_for(None, month(6)), amount("4000"));
    let remove = BudgetSchedule::new(store.clone()).plan_edit(None, month(5), None, BudgetEditScope::RemoveChange);
    apply(&mut store, None, &remove, &mut next_id);
    let after = BudgetSchedule::new(store);
    for m in 1..=12 {
        assert_eq!(after.amount_for(None, month(m)), before.amount_for(None, month(m)));
        assert_eq!(after.amount_for(Some(7), month(m)), before.amount_for(Some(7), month(m)));
    }
}
