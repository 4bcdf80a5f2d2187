use budget_tracker::calendar::Date;
use budget_tracker::entry_form::{
    edited_transaction, form_error_message, form_for, new_form, transaction_from_form, type_from_text,
    validate_amount_text, validate_category, FormError,
};
use budget_tracker::fields::{AddEditField, FieldSet};
use budget_tracker::model::{CategoryInfo, RecurrenceFrequency, TransactionType};
use budget_tracker::money::Amount;
use rust_decimal::Decimal;

fn money(text: &str) -> Amount {
    let d: Decimal = text.parse().unwrap();
    Amount { mantissa: d.mantissa(), scale: d.scale() }
}

fn form(texts: [&str; 6]) -> FieldSet<AddEditField> {
    FieldSet::new(texts.iter().map(|t| t.to_string()).collect())
}

fn categories() -> Vec<CategoryInfo> {
    vec![
        CategoryInfo {
            transaction_type: TransactionType::Expense,
            category: "Food".to_string(),
            subcategory: "Groceries".to_string(),
        },
        CategoryInfo {
            transaction_type: TransactionType::Income,
            category: "Salary".to_string(),
            subcategory: String::new(),
        },
    ]
}

#[test]
fn a_valid_form_makes_a_transaction() {
    let f = form(["2026-03-04", "  Weekly shop ", " 42.50 ", "expense", " food", "GROCERIES "]);
    let tx = transaction_from_form(&f, &categories()).unwrap();
    assert_eq!(tx.date, Date { year: 2026, month: 3, day: 4 });
    assert_eq!(tx.description, "Weekly shop");
    assert_eq!(tx.amount, money("42.50"));
    assert_eq!(tx.transaction_type, TransactionType::Expense);
    assert_eq!(tx.category, "food");
    assert_eq!(tx.subcategory, "GROCERIES");
    assert!(!tx.is_recurring);
    assert_eq!(tx.id, None);
}

#[test]
fn checks_run_in_order() {
    let cats = categories();
    let bad_everything = form(["2026-02-30", "", "abc", "Expense", "Nope", ""]);
    assert_eq!(transaction_from_form(&bad_everything, &cats).unwrap_err(), FormError::InvalidAmount);
    let bad_sign = form(["2026-02-30", "", "-3", "Expense", "Nope", ""]);
    assert_eq!(transaction_from_form(&bad_sign, &cats).unwrap_err(), FormError::NonPositiveAmount);
    let zero = form(["2026-02-01", "x", "0", "Expense", "", ""]);
    assert_eq!(transaction_from_form(&zero, &cats).unwrap_err(), FormError::NonPositiveAmount);
    let bad_date = form(["2026-02-30", "", "3", "Expense", "Nope", ""]);
    assert_eq!(transaction_from_form(&bad_date, &cats).unwrap_err(), FormError::InvalidDate);
    let no_description = form(["2026-02-28", "   ", "3", "Expense", "Nope", ""]);
    assert_eq!(transaction_from_form(&no_description, &cats).unwrap_err(), FormError::EmptyDescription);
    let unknown = form(["2026-02-28", "Gift", "3", "Expense", "Nope", "x"]);
    assert_eq!(transaction_from_form(&unknown, &cats).unwrap_err(), FormError::InvalidCategory);
    assert_eq!(
        form_error_message(FormError::InvalidCategory, &unknown),
        "Invalid Category/Subcategory: 'Nope' / 'x' for Expense"
    );
    assert_eq!(form_error_message(FormError::InvalidDate, &unknown), "Invalid Date Format (Expected %Y-%m-%d)");
}

#[test]
fn categories_are_checked_by_type_ignoring_case() {
    let cats = categories();
    assert!(validate_category(&cats, TransactionType::Expense, "", "anything"));
    assert!(validate_category(&cats, TransactionType::Income, "uncategorized", ""));
    assert!(validate_category(&cats, TransactionType::Income, "SALARY", "bonus"));
    assert!(!validate_category(&cats, TransactionType::Income, "Food", "Groceries"));
    assert!(!validate_category(&cats, TransactionType::Expense, "Food", "Dining"));
}

#[test]
fn type_and_amount_texts() {
    assert_eq!(type_from_text("  income"), TransactionType::Income);
    assert_eq!(type_from_text("I"), TransactionType::Income);
    assert_eq!(type_from_text("Expense"), TransactionType::Expense);
    assert_eq!(type_from_text(""), TransactionType::Expense);
    assert_eq!(validate_amount_text("12.5"), Ok(money("12.5")));
    assert_eq!(validate_amount_text("x"), Err(FormError::InvalidAmount));
}

#[test]
fn forms_open_with_the_right_texts() {
    let f = new_form(Date { year: 2026, month: 1, day: 9 });
    assert_eq!(f.value(AddEditField::Date), "2026-01-09");
    assert_eq!(f.value(AddEditField::TransactionType), "Expense");
    assert_eq!(f.focused(), AddEditField::Date);
    let tx = transaction_from_form(&form(["2026-03-04", "Pay", "1000", "Income", "Salary", ""]), &categories()).unwrap();
    let g = form_for(&tx);
    assert_eq!(g.value(AddEditField::Amount), "1000.00");
    assert_eq!(g.value(AddEditField::TransactionType), "Income");
}

#[test]
fn editing_keeps_the_recurrence() {
    let mut existing = transaction_from_form(&form(["2026-03-04", "Rent", "900", "Expense", "", ""]), &categories()).unwrap();
    existing.is_recurring = true;
    existing.recurrence_frequency = Some(RecurrenceFrequency::Monthly);
    existing.id = Some(12);
    let edited = edited_transaction(&existing, &form(["2026-03-05", "Rent", "950", "Expense", "", ""]), &categories()).unwrap();
    assert_eq!(edited.amount, money("950"));
    assert_eq!(edited.date.day, 5);
    assert!(edited.is_recurring);
    assert_eq!(edited.recurrence_frequency, Some(RecurrenceFrequency::Monthly));
    assert_eq!(edited.id, Some(12));
}
