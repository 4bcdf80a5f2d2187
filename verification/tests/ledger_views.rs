use budget_tracker::budget_view::{
    budget_category_comparisons, budget_category_monthly_expenses, budget_edit_message,
    budget_edit_scope, budget_edit_scopes, budget_month_expense, budget_month_label,
    cycle_budget_edit_scope, month_to_short_str, next_budget_month, previous_budget_month,
    record_label, total_allocated_budget,
};
use budget_tracker::calendar::Date;
use budget_tracker::filter::{
    advanced_filter_indices, filter_indices, sort_transactions_impl, AdvancedFilter,
};
use budget_tracker::model::{
    BudgetEditScope, BudgetMonth, CategoryRecord, SortColumn, SortOrder, Transaction,
    TransactionType,
};
use budget_tracker::money::Amount;
use budget_tracker::summary::{
    calculate_totals, category_summaries, monthly_summaries, normalize_budget_key, summary_years,
};
use rust_decimal::Decimal;

fn money(text: &str) -> Amount {
    let d: Decimal = text.parse().unwrap();
    Amount { mantissa: d.mantissa(), scale: d.scale() }
}

fn tx(date: (i32, u32, u32), description: &str, amount: &str, t: TransactionType, category: &str, sub: &str) -> Transaction {
    Transaction {
        date: Date { year: date.0, month: date.1, day: date.2 },
        description: description.to_string(),
        amount: money(amount),
        transaction_type: t,
        category: category.to_string(),
        subcategory: sub.to_string(),
        is_recurring: false,
        recurrence_frequency: None,
        recurrence_end_date: None,
        is_generated_from_recurring: false,
        id: None,
        parent_id: None,
    }
}

fn sample() -> Vec<Transaction> {
    vec![
        tx((2024, 1, 5), "Groceries", "50.25", TransactionType::Expense, "Food", "Groceries"),
        tx((2024, 1, 20), "Salary", "3000", TransactionType::Income, "Work", ""),
        tx((2024, 2, 2), "Cafe latte", "4.5", TransactionType::Expense, " Food ", "Coffee"),
        tx((2023, 12, 31), "Gift", "20", TransactionType::Expense, "  ", ""),
        tx((2024, 1, 7), "More groceries", "10.00", TransactionType::Expense, "Food", "Groceries"),
    ]
}

#[test]
fn monthly_totals_add_up_each_month() {
    let rows = sample();
    let all: Vec<usize> = (0..rows.len()).collect();
    let months = monthly_summaries(&rows, &all).unwrap();
    assert_eq!(months.len(), 3);
    assert_eq!((months[0].year, months[0].month), (2024, 1));
    assert_eq!(months[0].summary.income, money("3000"));
    assert_eq!(Decimal::from_i128_with_scale(months[0].summary.expense.mantissa, months[0].summary.expense.scale), "60.25".parse::<Decimal>().unwrap());
    assert_eq!((months[1].year, months[1].month), (2024, 2));
    assert_eq!((months[2].year, months[2].month), (2023, 12));
    // Positions past the end are skipped.
    let some = monthly_summaries(&rows, &[1, 9]).unwrap();
    assert_eq!(some.len(), 1);
    assert_eq!(summary_years(&rows, &all), vec![2023, 2024]);
}

#[test]
fn category_totals_trim_and_name_the_blank_category() {
    let rows = sample();
    let all: Vec<usize> = (0..rows.len()).collect();
    let cats = category_summaries(&rows, &all).unwrap();
    assert_eq!(cats.len(), 4);
    assert_eq!(cats[0].category, "Food");
    assert_eq!(cats[0].subcategory, "Groceries");
    assert_eq!(Decimal::from_i128_with_scale(cats[0].summary.expense.mantissa, cats[0].summary.expense.scale), "60.25".parse::<Decimal>().unwrap());
    assert_eq!(cats[2].category, "Food");
    assert_eq!(cats[2].subcategory, "Coffee");
    assert_eq!(cats[3].category, "Uncategorized");
    assert_eq!(normalize_budget_key("  ", " x "), ("Uncategorized".to_string(), "x".to_string()));
}

#[test]
fn totals_follow_the_year_filter() {
    let rows = sample();
    let all: Vec<usize> = (0..rows.len()).collect();
    let (income, expense) = calculate_totals(&rows, &all, Some(2024)).unwrap();
    assert_eq!(income, money("3000"));
    assert_eq!(Decimal::from_i128_with_scale(expense.mantissa, expense.scale), "64.75".parse::<Decimal>().unwrap());
    let (_, all_expense) = calculate_totals(&rows, &all, None).unwrap();
    assert_eq!(Decimal::from_i128_with_scale(all_expense.mantissa, all_expense.scale), "84.75".parse::<Decimal>().unwrap());
    let huge = Amount { mantissa: 79228162514264337593543950335, scale: 0 };
    let mut big = sample();
    big[1].amount = huge;
    big.push(tx((2024, 3, 1), "Bonus", "1", TransactionType::Income, "Work", ""));
    let idx: Vec<usize> = (0..big.len()).collect();
    assert_eq!(calculate_totals(&big, &idx, None), None);
    assert!(monthly_summaries(&big, &idx).is_some());
}

#[test]
fn sorting_is_stable_and_follows_the_column() {
    let mut rows = sample();
    sort_transactions_impl(&mut rows, SortColumn::Amount, SortOrder::Descending);
    let order: Vec<&str> = rows.iter().map(|t| t.description.as_str()).collect();
    assert_eq!(order, vec!["Salary", "Groceries", "Gift", "More groceries", "Cafe latte"]);
    sort_transactions_impl(&mut rows, SortColumn::Date, SortOrder::Ascending);
    let order: Vec<&str> = rows.iter().map(|t| t.description.as_str()).collect();
    assert_eq!(order, vec!["Gift", "Groceries", "More groceries", "Salary", "Cafe latte"]);
    sort_transactions_impl(&mut rows, SortColumn::Category, SortOrder::Ascending);
    let order: Vec<&str> = rows.iter().map(|t| t.description.as_str()).collect();
    assert_eq!(order, vec!["Gift", "Cafe latte", "Groceries", "More groceries", "Salary"]);
    sort_transactions_impl(&mut rows, SortColumn::Type, SortOrder::Ascending);
    assert_eq!(rows[0].description, "Salary");
}

#[test]
fn simple_and_advanced_filters_pick_rows() {
    let rows = sample();
    assert_eq!(filter_indices(&rows, "GROC"), vec![0, 4]);
    assert_eq!(filter_indices(&rows, ""), vec![0, 1, 2, 3, 4]);
    let fields: Vec<String> = vec![
        "2024-01-01", "2024-01-31", "", "food", "", "expense", "20", "",
    ]
    .into_iter()
    .map(String::from)
    .collect();
    let f = AdvancedFilter::from_fields(&fields);
    assert_eq!(advanced_filter_indices(&rows, &f), vec![0]);
    let fields: Vec<String> = vec!["", "", "", "", "", "Income", "", "not a number"]
        .into_iter()
        .map(String::from)
        .collect();
    let f = AdvancedFilter::from_fields(&fields);
    assert_eq!(advanced_filter_indices(&rows, &f), vec![1]);
}

#[test]
fn budget_table_rows_compare_budget_with_spending() {
    let rows = sample();
    let all: Vec<usize> = (0..rows.len()).collect();
    let cats = category_summaries(&rows, &all).unwrap();
    let months = monthly_summaries(&rows, &all).unwrap();
    let records = vec![
        CategoryRecord { id: 3, transaction_type: TransactionType::Expense, category: "Food".to_string(), subcategory: "Groceries".to_string(), tag: None },
        CategoryRecord { id: 1, transaction_type: TransactionType::Expense, category: "Books".to_string(), subcategory: String::new(), tag: None },
        CategoryRecord { id: 2, transaction_type: TransactionType::Income, category: "Work".to_string(), subcategory: String::new(), tag: None },
    ];
    let budgeted = vec![(1, money("30")), (2, money("10")), (3, money("200")), (4, money("5"))];
    let table = budget_category_comparisons(&budgeted, &records, &cats, 2024, 1);
    assert_eq!(table.len(), 2);
    assert_eq!(table[0].category, "Books");
    assert_eq!(table[0].actual_expense, Amount { mantissa: 0, scale: 0 });
    assert_eq!(table[1].id, 3);
    assert_eq!(Decimal::from_i128_with_scale(table[1].actual_expense.mantissa, table[1].actual_expense.scale), "60.25".parse::<Decimal>().unwrap());
    assert_eq!(total_allocated_budget(&table), Some(money("230")));
    assert_eq!(budget_month_expense(&months, 2024, 2), money("4.5"));
    assert_eq!(budget_month_expense(&months, 2024, 5), Amount { mantissa: 0, scale: 0 });
    let per_month = budget_category_monthly_expenses(2024, &table[1], &months, &cats);
    assert_eq!(per_month.len(), 2);
    assert_eq!(per_month[1], (2, Amount { mantissa: 0, scale: 0 }));
}

#[test]
fn budget_editor_scopes_and_messages() {
    assert_eq!(budget_edit_scopes(false).len(), 3);
    assert_eq!(budget_edit_scopes(true)[3], BudgetEditScope::RemoveChange);
    assert_eq!(budget_edit_scope(BudgetEditScope::RemoveChange, false), BudgetEditScope::FromThisMonth);
    assert_eq!(cycle_budget_edit_scope(BudgetEditScope::ReplaceAllMonths, false, true), BudgetEditScope::FromThisMonth);
    assert_eq!(cycle_budget_edit_scope(BudgetEditScope::FromThisMonth, true, false), BudgetEditScope::RemoveChange);
    assert_eq!(budget_month_label(BudgetMonth::new(2026, 3)), "Mar 2026");
    assert_eq!(month_to_short_str(13), "?");
    assert_eq!(
        budget_edit_message(BudgetEditScope::ReplaceAllMonths, "Food", "Mar 2026", Some(money("12.5")), 3),
        "Food set to 12.50 for every month, replacing 3 earlier change(s)."
    );
    assert_eq!(
        budget_edit_message(BudgetEditScope::ThisMonthOnly, "Food", "Mar 2026", None, 0),
        "Food cleared for Mar 2026 only."
    );
    assert_eq!(
        budget_edit_message(BudgetEditScope::FromThisMonth, "Food", "Mar 2026", Some(money("7")), 0),
        "Food set to 7.00 from Mar 2026 on."
    );
    assert_eq!(
        budget_edit_message(BudgetEditScope::RemoveChange, "Food", "Mar 2026", None, 1),
        "Food change in Mar 2026 removed."
    );
    let record = CategoryRecord { id: 1, transaction_type: TransactionType::Expense, category: "Food".to_string(), subcategory: "Snacks".to_string(), tag: None };
    assert_eq!(record_label(&record), "Food / Snacks");
    assert_eq!(next_budget_month(Some(12)), Some(1));
    assert_eq!(next_budget_month(None), Some(1));
    assert_eq!(previous_budget_month(Some(1)), Some(12));
    assert_eq!(previous_budget_month(Some(13)), Some(13));
}
