use budget_tracker::calendar::{add_months, days_in_month, is_leap_year, Date};
use budget_tracker::date_input::{
    adjust_date_field, decrement_date_field, decrement_month_field, increment_date_field,
    increment_month_field, validate_and_insert_date_char, DateStep,
};
use budget_tracker::fields::{
    AddEditField, AdvancedFilterField, CategoryEditField, FieldKey, FieldKind, FieldSet,
    RecurringField, SelectingField,
};

fn d(year: i32, month: u32, day: u32) -> Date {
    Date { year, month, day }
}

fn type_into(field: &str, keys: &str) -> Option<String> {
    let mut current = field.to_string();
    for c in keys.chars() {
        current = validate_and_insert_date_char(&current, c)?;
    }
    Some(current)
}

#[test]
fn typing_a_date_inserts_the_hyphens() {
    assert_eq!(type_into("", "20240315"), Some("2024-03-15".to_string()));
    assert_eq!(type_into("", "2024"), Some("2024-".to_string()));
    // A first month digit above 1 completes the month at once.
    assert_eq!(type_into("", "20243"), Some("2024-3-".to_string()));
    assert_eq!(validate_and_insert_date_char("2024-03-15", '1'), None);
    assert_eq!(validate_and_insert_date_char("", 'a'), None);
}

#[test]
fn impossible_dates_are_refused_while_typing() {
    assert_eq!(validate_and_insert_date_char("189", '9'), None);
    assert_eq!(validate_and_insert_date_char("210", '1'), None);
    assert_eq!(validate_and_insert_date_char("2024-1", '3'), None);
    assert_eq!(validate_and_insert_date_char("2024-0", '0'), None);
    assert_eq!(validate_and_insert_date_char("2024-02-", '4'), None);
    assert_eq!(validate_and_insert_date_char("2023-02-2", '9'), None);
    assert_eq!(validate_and_insert_date_char("2024-02-2", '9'), Some("2024-02-29".to_string()));
    assert_eq!(validate_and_insert_date_char("2024-04-3", '1'), None);
    assert_eq!(validate_and_insert_date_char("2024-04-3", '0'), Some("2024-04-30".to_string()));
    assert_eq!(validate_and_insert_date_char("2024-02-0", '0'), None);
}

#[test]
fn month_arithmetic_clamps_the_day() {
    assert_eq!(add_months(d(2024, 1, 31), 1), d(2024, 2, 29));
    assert_eq!(add_months(d(2023, 1, 31), 1), d(2023, 2, 28));
    assert_eq!(add_months(d(2024, 3, 31), -1), d(2024, 2, 29));
    assert_eq!(add_months(d(2024, 12, 15), 1), d(2025, 1, 15));
    assert_eq!(add_months(d(2024, 1, 15), -13), d(2022, 12, 15));
    assert_eq!(add_months(d(262142, 12, 1), 1), d(262142, 12, 1));
    assert!(is_leap_year(2000));
    assert!(!is_leap_year(1900));
    assert_eq!(days_in_month(2024, 2), 29);
    assert_eq!(days_in_month(2023, 4), 30);
}

#[test]
fn arrow_keys_move_a_date_field() {
    let today = d(2025, 6, 1);
    assert_eq!(increment_date_field("2024-02-28", today), Some("2024-02-29".to_string()));
    assert_eq!(decrement_date_field("2024-03-01", today), Some("2024-02-29".to_string()));
    assert_eq!(increment_month_field("2024-01-31", today), Some("2024-02-29".to_string()));
    assert_eq!(decrement_month_field("2024-01-15", today), Some("2023-12-15".to_string()));
    assert_eq!(increment_date_field("", today), Some("2025-06-01".to_string()));
    assert_eq!(increment_date_field("2024-1", today), None);
    assert_eq!(adjust_date_field("2024-12-31", today, DateStep::NextDay), Some("2025-01-01".to_string()));
    assert_eq!(adjust_date_field("262142-12-31", today, DateStep::NextDay), None);
}

#[test]
fn field_sets_move_focus_and_hold_text() {
    let mut fields: FieldSet<AddEditField> = FieldSet::blank();
    assert!(fields.all_empty());
    assert_eq!(fields.focused(), AddEditField::Date);
    fields.focus_previous();
    assert_eq!(fields.focused(), AddEditField::Subcategory);
    fields.focus_next();
    assert_eq!(fields.focused(), AddEditField::Date);
    fields.focus(AddEditField::Amount);
    assert_eq!(fields.focused(), AddEditField::Amount);
    fields.set_value(AddEditField::Amount, "12.50".to_string());
    assert_eq!(fields.focused_value(), "12.50");
    assert_eq!(fields.value(AddEditField::Amount), "12.50");
    assert!(!fields.all_empty());
    let entries = fields.iter();
    assert_eq!(entries.len(), 6);
    assert_eq!(entries[2].0, AddEditField::Amount);
    assert_eq!(entries[2].1, "12.50");
    fields.reset();
    assert!(fields.all_empty());
    assert_eq!(fields.focused(), AddEditField::Date);
}

#[test]
fn form_declarations_give_kinds_labels_and_hints() {
    assert_eq!(AddEditField::all().len(), 6);
    assert_eq!(AdvancedFilterField::all().len(), 9);
    assert_eq!(CategoryEditField::all().len(), 5);
    assert_eq!(RecurringField::all().len(), 3);
    assert_eq!(AddEditField::Date.kind(), FieldKind::Date);
    assert_eq!(AddEditField::Category.label(), "Category");
    assert_eq!(AddEditField::Description.hint(), "");
    assert_eq!(RecurringField::EndDate.index(), 2);
    assert_eq!(CategoryEditField::Tag.hint(), "(Optional)");
    assert!(FieldKind::Amount.is_editable());
    assert!(!FieldKind::Toggle.is_editable());
    assert!(!FieldKind::Selection.is_editable());
    let from_form = SelectingField::AddEdit(AddEditField::Category);
    assert_eq!(from_form.add_edit(), Some(AddEditField::Category));
    assert_eq!(from_form.advanced_filter(), None);
    let from_filter = SelectingField::AdvancedFilter(AdvancedFilterField::Subcategory);
    assert_eq!(from_filter.advanced_filter(), Some(AdvancedFilterField::Subcategory));
    assert_eq!(from_filter.add_edit(), None);
}

#[test]
fn new_field_set_keeps_given_texts() {
    let fields: FieldSet<RecurringField> =
        FieldSet::new(vec!["Yes".to_string(), "Monthly".to_string(), String::new()]);
    assert_eq!(fields.value(RecurringField::Frequency), "Monthly");
    assert_eq!(fields.focused(), RecurringField::IsRecurring);
}

#[test]
fn date_field_positions_count_bytes() {
    assert_eq!(validate_and_insert_date_char("20é", '1'), Some("20é1".to_string()));
    assert_eq!(validate_and_insert_date_char("é2", '0'), Some("é20-".to_string()));
    assert_eq!(validate_and_insert_date_char("2024-é", '5'), Some("2024-é5".to_string()));
    assert_eq!(validate_and_insert_date_char("2024-ab-", '2'), Some("2024-ab-2".to_string()));
    assert_eq!(validate_and_insert_date_char("2024-ab-", '7'), None);
}
