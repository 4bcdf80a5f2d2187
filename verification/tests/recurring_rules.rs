use budget_tracker::calendar::Date;
use budget_tracker::model::{RecurrenceFrequency, Transaction, TransactionType};
use budget_tracker::money::Amount;
use budget_tracker::recurring::{
    create_generated_transaction, find_original_recurring_transaction,
    generate_recurring_transactions, parse_recurring_settings, previous_weekday_on_or_before,
    regenerate_recurring_transactions, remove_generated_recurring_transactions,
};

fn d(year: i32, month: u32, day: u32) -> Date {
    Date { year, month, day }
}

fn rule(date: Date, frequency: Option<RecurrenceFrequency>, end: Option<Date>) -> Transaction {
    Transaction {
        date,
        description: "Rent".to_string(),
        amount: Amount { mantissa: 120000, scale: 2 },
        transaction_type: TransactionType::Expense,
        category: "Housing".to_string(),
        subcategory: "Rent".to_string(),
        is_recurring: true,
        recurrence_frequency: frequency,
        recurrence_end_date: end,
        is_generated_from_recurring: false,
        id: Some(42),
        parent_id: None,
    }
}

fn dates(rows: &[Transaction]) -> Vec<Date> {
    rows.iter().map(|t| t.date).collect()
}

#[test]
fn monthly_rule_clamps_and_restores_the_anchor_day() {
    let source = rule(d(2024, 1, 31), Some(RecurrenceFrequency::Monthly), None);
    let generated = generate_recurring_transactions(&[source], d(2024, 5, 31));
    assert_eq!(
        dates(&generated),
        vec![d(2024, 2, 29), d(2024, 3, 31), d(2024, 4, 30), d(2024, 5, 31)]
    );
    for row in &generated {
        assert!(row.is_generated_from_recurring);
        assert_eq!(row.id, None);
        assert_eq!(row.parent_id, Some(42));
        assert_eq!(row.description, "Rent");
    }
}

#[test]
fn weekly_and_biweekly_rules_step_from_the_source_date() {
    let weekly = rule(d(2024, 1, 1), Some(RecurrenceFrequency::Weekly), None);
    assert_eq!(
        dates(&generate_recurring_transactions(&[weekly], d(2024, 1, 22))),
        vec![d(2024, 1, 8), d(2024, 1, 15), d(2024, 1, 22)]
    );
    let biweekly = rule(d(2024, 12, 20), Some(RecurrenceFrequency::BiWeekly), None);
    assert_eq!(
        dates(&generate_recurring_transactions(&[biweekly], d(2025, 1, 20))),
        vec![d(2025, 1, 3), d(2025, 1, 17)]
    );
    let daily = rule(d(2024, 2, 27), Some(RecurrenceFrequency::Daily), Some(d(2024, 3, 1)));
    assert_eq!(
        dates(&generate_recurring_transactions(&[daily], d(2024, 3, 10))),
        vec![d(2024, 2, 28), d(2024, 2, 29), d(2024, 3, 1)]
    );
}

#[test]
fn quarterly_and_yearly_rules_keep_leap_days() {
    let quarterly = rule(d(2023, 11, 30), Some(RecurrenceFrequency::Quarterly), None);
    assert_eq!(
        dates(&generate_recurring_transactions(&[quarterly], d(2024, 9, 1))),
        vec![d(2024, 2, 29), d(2024, 5, 30), d(2024, 8, 30)]
    );
    let yearly = rule(d(2020, 2, 29), Some(RecurrenceFrequency::Yearly), None);
    assert_eq!(
        dates(&generate_recurring_transactions(&[yearly], d(2024, 12, 31))),
        vec![d(2021, 2, 28), d(2022, 2, 28), d(2023, 2, 28), d(2024, 2, 29)]
    );
}

#[test]
fn semi_monthly_rules_use_the_fifteenth_and_the_month_end() {
    let semi = rule(d(2024, 1, 10), Some(RecurrenceFrequency::SemiMonthly), None);
    assert_eq!(
        dates(&generate_recurring_transactions(&[semi], d(2024, 3, 1))),
        vec![d(2024, 1, 15), d(2024, 1, 31), d(2024, 2, 15), d(2024, 2, 29)]
    );
    // June 15 and June 30 2024 fall on a Saturday and a Sunday.
    let workday = rule(d(2024, 6, 1), Some(RecurrenceFrequency::SemiMonthlyWorkday), None);
    assert_eq!(
        dates(&generate_recurring_transactions(&[workday], d(2024, 7, 1))),
        vec![d(2024, 6, 14), d(2024, 6, 28)]
    );
}

#[test]
fn rules_without_a_frequency_or_not_recurring_generate_nothing() {
    let mut plain = rule(d(2024, 1, 1), Some(RecurrenceFrequency::Daily), None);
    plain.is_recurring = false;
    let missing = rule(d(2024, 1, 1), None, None);
    assert!(generate_recurring_transactions(&[plain, missing], d(2024, 2, 1)).is_empty());
    let ended = rule(d(2024, 1, 1), Some(RecurrenceFrequency::Monthly), Some(d(2023, 12, 1)));
    assert!(generate_recurring_transactions(&[ended], d(2024, 6, 1)).is_empty());
}

#[test]
fn a_generated_copy_needs_a_date_in_the_window() {
    let source = rule(d(2024, 1, 1), Some(RecurrenceFrequency::Monthly), Some(d(2024, 6, 1)));
    assert!(create_generated_transaction(&source, d(2024, 1, 1), d(2024, 1, 1), d(2024, 12, 1)).is_none());
    assert!(create_generated_transaction(&source, d(2024, 7, 1), d(2024, 1, 1), d(2024, 12, 1)).is_none());
    assert!(create_generated_transaction(&source, d(2024, 3, 1), d(2024, 1, 1), d(2024, 2, 1)).is_none());
    let copy = create_generated_transaction(&source, d(2024, 3, 1), d(2024, 1, 1), d(2024, 12, 1)).unwrap();
    assert_eq!(copy.date, d(2024, 3, 1));
    assert!(copy.is_generated_from_recurring);
}

#[test]
fn weekends_roll_back_to_friday() {
    assert_eq!(previous_weekday_on_or_before(d(2024, 6, 15)), d(2024, 6, 14));
    assert_eq!(previous_weekday_on_or_before(d(2024, 6, 16)), d(2024, 6, 14));
    assert_eq!(previous_weekday_on_or_before(d(2024, 6, 17)), d(2024, 6, 17));
}

#[test]
fn regenerating_twice_changes_nothing_and_keeps_stored_rows() {
    let source = rule(d(2024, 1, 5), Some(RecurrenceFrequency::Monthly), None);
    let mut other = rule(d(2024, 2, 10), None, None);
    other.is_recurring = false;
    other.description = "Coffee".to_string();
    let mut rows = vec![source.clone(), other.clone()];
    regenerate_recurring_transactions(&mut rows, d(2024, 4, 30));
    assert_eq!(rows.len(), 5);
    assert_eq!(rows[0].description, "Rent");
    assert_eq!(rows[1].description, "Coffee");
    assert_eq!(dates(&rows[2..]), vec![d(2024, 2, 5), d(2024, 3, 5), d(2024, 4, 5)]);
    let once = dates(&rows);
    regenerate_recurring_transactions(&mut rows, d(2024, 4, 30));
    assert_eq!(dates(&rows), once);
    remove_generated_recurring_transactions(&mut rows);
    assert_eq!(dates(&rows), vec![d(2024, 1, 5), d(2024, 2, 10)]);
}

#[test]
fn a_generated_row_leads_back_to_its_source() {
    let source = rule(d(2024, 1, 5), Some(RecurrenceFrequency::Monthly), None);
    let mut other = rule(d(2024, 1, 5), Some(RecurrenceFrequency::Weekly), None);
    other.description = "Gym".to_string();
    let generated = generate_recurring_transactions(&[source.clone()], d(2024, 2, 5));
    let mut rows = vec![other, source];
    rows.extend(generated.clone());
    assert_eq!(find_original_recurring_transaction(&rows, &generated[0]), Some(1));
    assert_eq!(find_original_recurring_transaction(&rows, &rows[0].clone()), None);
    // "1200" equals "1200.00" by value.
    let mut same_value = generated[0].clone();
    same_value.amount = Amount { mantissa: 1200, scale: 0 };
    assert_eq!(find_original_recurring_transaction(&rows, &same_value), Some(1));
}

#[test]
fn recurring_settings_read_the_form() {
    assert_eq!(
        parse_recurring_settings("Yes", "Bi-Weekly", "2025-03-01"),
        Ok((true, Some(RecurrenceFrequency::BiWeekly), Some(d(2025, 3, 1))))
    );
    assert_eq!(
        parse_recurring_settings("yes", "Fortnightly", ""),
        Ok((true, Some(RecurrenceFrequency::Monthly), None))
    );
    assert_eq!(parse_recurring_settings("No", "Weekly", ""), Ok((false, None, None)));
    assert_eq!(parse_recurring_settings("Yes", "Weekly", "2025-13-01"), Err(()));
}
