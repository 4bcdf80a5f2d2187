use budget_tracker::model::{CategoryInfo, TransactionType};
use budget_tracker::picker::{fuzzy_options, split_fuzzy_label};

fn info(t: TransactionType, category: &str, subcategory: &str) -> CategoryInfo {
    CategoryInfo { transaction_type: t, category: category.to_string(), subcategory: subcategory.to_string() }
}

fn catalog() -> Vec<CategoryInfo> {
    vec![
        info(TransactionType::Expense, "Food", "Groceries"),
        info(TransactionType::Expense, "Bills", ""),
        info(TransactionType::Expense, "Food", "Dining"),
        info(TransactionType::Income, "Salary", ""),
        info(TransactionType::Expense, "Food", "Groceries"),
    ]
}

#[test]
fn the_finder_lists_matching_labels_in_order() {
    assert_eq!(
        fuzzy_options(&catalog(), TransactionType::Expense, ""),
        vec!["Bills", "Food > Dining", "Food > Groceries"]
    );
    assert_eq!(fuzzy_options(&catalog(), TransactionType::Expense, "GRO"), vec!["Food > Groceries"]);
    assert_eq!(fuzzy_options(&catalog(), TransactionType::Expense, "d >"), vec!["Food > Dining", "Food > Groceries"]);
    assert_eq!(fuzzy_options(&catalog(), TransactionType::Income, "a"), vec!["Salary"]);
    assert!(fuzzy_options(&catalog(), TransactionType::Income, "food").is_empty());
}

#[test]
fn a_label_splits_into_category_and_subcategory() {
    assert_eq!(split_fuzzy_label("Food > Dining"), ("Food".to_string(), "Dining".to_string()));
    assert_eq!(split_fuzzy_label("Bills"), ("Bills".to_string(), String::new()));
    assert_eq!(split_fuzzy_label("A > B > C"), ("A".to_string(), "B".to_string()));
    assert_eq!(split_fuzzy_label("A >B"), ("A >B".to_string(), String::new()));
}
