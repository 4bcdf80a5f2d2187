use budget_tracker::category_view::{visible_category_items, CategorySummaryItem};
use budget_tracker::model::MonthlySummary;
use budget_tracker::money::Amount;
use budget_tracker::summary::CategoryTotals;
use rust_decimal::Decimal;

fn money(text: &str) -> Amount {
    let d: Decimal = text.parse().unwrap();
    Amount { mantissa: d.mantissa(), scale: d.scale() }
}

fn totals(income: &str, expense: &str) -> MonthlySummary {
    MonthlySummary { income: money(income), expense: money(expense) }
}

fn entry(year: i32, month: u32, category: &str, subcategory: &str, income: &str, expense: &str) -> CategoryTotals {
    CategoryTotals {
        year,
        month,
        category: category.to_string(),
        subcategory: subcategory.to_string(),
        summary: totals(income, expense),
    }
}

fn sample() -> Vec<CategoryTotals> {
    vec![
        entry(2026, 3, "Food", "Groceries", "0", "120"),
        entry(2026, 1, "Salary", "", "3000", "0"),
        entry(2026, 3, "Bills", "Power", "0", "80"),
        entry(2026, 3, "Food", "Dining", "0", "40"),
        entry(2025, 12, "Food", "Dining", "0", "10"),
        entry(2026, 3, "Salary", "", "3000", "0"),
    ]
}

fn describe(items: &[CategorySummaryItem]) -> Vec<String> {
    items
        .iter()
        .map(|item| match item {
            CategorySummaryItem::Month(m, s) => format!("{} {} {}", m, s.income.mantissa, s.expense.mantissa),
            CategorySummaryItem::Subcategory(m, c, s, t) => format!("{} {}/{} {}", m, c, s, t.expense.mantissa),
        })
        .collect()
}

#[test]
fn months_come_in_order_with_their_totals() {
    let items = visible_category_items(&sample(), Some(2026), &[]).unwrap();
    assert_eq!(describe(&items), vec!["1 3000 0", "3 3000 240"]);
}

#[test]
fn an_opened_month_lists_its_subcategories_by_name() {
    let items = visible_category_items(&sample(), Some(2026), &[3]).unwrap();
    assert_eq!(
        describe(&items),
        vec!["1 3000 0", "3 3000 240", "3 Bills/Power 80", "3 Food/Dining 40", "3 Food/Groceries 120"]
    );
    // A month without subcategory rows opens to nothing more.
    let opened_january = visible_category_items(&sample(), Some(2026), &[1]).unwrap();
    assert_eq!(describe(&opened_january), vec!["1 3000 0", "3 3000 240"]);
}

#[test]
fn other_years_and_no_year() {
    let items = visible_category_items(&sample(), Some(2025), &[12]).unwrap();
    assert_eq!(describe(&items), vec!["12 0 10", "12 Food/Dining 10"]);
    assert!(visible_category_items(&sample(), None, &[3]).unwrap().is_empty());
    assert!(visible_category_items(&sample(), Some(2030), &[]).unwrap().is_empty());
}

#[test]
fn an_overflowing_month_gives_none() {
    let max = Decimal::MAX.to_string();
    let rows = vec![entry(2026, 5, "A", "x", &max, "0"), entry(2026, 5, "B", "y", &max, "0")];
    assert!(visible_category_items(&rows, Some(2026), &[]).is_none());
}
