use budget_tracker::catalog::{
    build_category_draft, category_editor_fields, category_filter_indices,
    delete_category_prompt, is_duplicate_category, toggled_type_text, CategoryDraftError,
};
use budget_tracker::fields::{CategoryEditField, FieldSet};
use budget_tracker::help::{get_help_for_mode, KeyBindingInfo};
use budget_tracker::ledger::{
    choose_active_ledger, ledger_delete_prompt, ledger_saved_message, parse_i64,
    unique_copy_name, validate_name, LedgerNameError, LedgerRecord, LedgerSave,
};
use budget_tracker::model::{
    default_category, next_sort_order, CategoryDraft, CategoryInfo, CategoryRecord,
    RecurrenceFrequency, SortOrder, TransactionType,
};
use budget_tracker::modes::AppMode;
use budget_tracker::money::Amount;
use budget_tracker::picker::{
    category_options, filter_category_options, filter_subcategory_options, subcategory_options,
};
use budget_tracker::select::{JumpToOriginalAction, TypeToSelect};
use budget_tracker::selection::{
    clamp_selection, jump_to_last, mode_list_len, next_item, next_selection, page_down, page_up,
    previous_item, previous_selection, PAGE_SIZE,
};
use budget_tracker::settings::{SettingType, SettingsState};
use budget_tracker::storage::{
    import_order, migration_plan, MigrationError, SqliteDatabase, SqliteTransactionStore,
    SCHEMA_VERSION,
};
use budget_tracker::version::newer_release;
use budget_tracker::calendar::Date;
use budget_tracker::model::Transaction;

fn ledger(id: i64, name: &str) -> LedgerRecord {
    LedgerRecord { id, name: name.to_string(), position: id }
}

#[test]
fn ledger_names_are_trimmed_and_required() {
    assert_eq!(validate_name("  Travel "), Ok("Travel".to_string()));
    assert_eq!(validate_name("   "), Err(LedgerNameError::Empty));
    assert_eq!(LedgerNameError::Empty.message(), "Ledger name cannot be empty.");
}

#[test]
fn the_active_ledger_falls_back_to_the_first() {
    let ledgers = vec![ledger(4, "Main"), ledger(9, "Trip")];
    assert_eq!(choose_active_ledger(&ledgers, Some(" 9 ")), (9, false));
    assert_eq!(choose_active_ledger(&ledgers, Some("7")), (4, true));
    assert_eq!(choose_active_ledger(&ledgers, Some("nine")), (4, true));
    assert_eq!(choose_active_ledger(&ledgers, None), (4, true));
    assert_eq!(parse_i64("-9223372036854775808"), Some(i64::MIN));
    assert_eq!(parse_i64("9223372036854775808"), None);
    assert_eq!(parse_i64("+12"), Some(12));
    assert_eq!(parse_i64("-"), None);
    assert_eq!(parse_i64(""), None);
}

#[test]
fn copy_names_skip_the_taken_ones() {
    let ledgers = vec![ledger(1, "Main"), ledger(2, "main (COPY)"), ledger(3, "Main (copy 2)")];
    assert_eq!(unique_copy_name(&ledgers, "Main"), "Main (copy 3)");
    assert_eq!(unique_copy_name(&ledgers, "Trip"), "Trip (copy)");
}

#[test]
fn ledger_messages() {
    assert_eq!(ledger_delete_prompt("Trip", 1), "Delete 'Trip' and its 1 transaction? (y/n)");
    assert_eq!(ledger_delete_prompt("Trip", 12), "Delete 'Trip' and its 12 transactions? (y/n)");
    assert_eq!(ledger_saved_message(LedgerSave::Renamed, "Trip"), "Ledger renamed to 'Trip'.");
    assert_eq!(
        ledger_saved_message(LedgerSave::Created, "Trip"),
        "Ledger 'Trip' created. Press Enter to switch to it."
    );
}

#[test]
fn migrations_run_the_missing_steps_or_refuse_a_newer_schema() {
    assert_eq!(migration_plan(0), Ok(vec![1, 2, 3, 4]));
    assert_eq!(migration_plan(2), Ok(vec![3, 4]));
    assert_eq!(migration_plan(SCHEMA_VERSION), Ok(vec![]));
    assert_eq!(migration_plan(-3), Ok(vec![1, 2, 3, 4]));
    assert_eq!(migration_plan(5), Err(MigrationError::NewerVersion(5)));
    let store = SqliteTransactionStore::new(SqliteDatabase::new("/tmp/budget.db".to_string()), 3);
    assert_eq!(store.ledger_id, 3);
    assert_eq!(store.database.path, "/tmp/budget.db");
}

#[test]
fn imports_insert_oldest_first() {
    let row = |y: i32, m: u32, desc: &str| Transaction {
        date: Date { year: y, month: m, day: 1 },
        description: desc.to_string(),
        amount: Amount { mantissa: 1, scale: 0 },
        transaction_type: TransactionType::Expense,
        category: String::new(),
        subcategory: String::new(),
        is_recurring: false,
        recurrence_frequency: None,
        recurrence_end_date: None,
        is_generated_from_recurring: false,
        id: None,
        parent_id: None,
    };
    let ordered = import_order(vec![row(2024, 5, "a"), row(2023, 1, "b"), row(2024, 5, "c")]);
    let names: Vec<&str> = ordered.iter().map(|t| t.description.as_str()).collect();
    assert_eq!(names, vec!["b", "a", "c"]);
}

#[test]
fn releases_are_offered_only_when_newer() {
    assert_eq!(newer_release("1.4.2", "v1.5.0"), Some("v1.5.0".to_string()));
    assert_eq!(newer_release("1.4.2", "1.4.2"), None);
    assert_eq!(newer_release("1.4.2", "v1.4.2-rc.1"), None);
    assert_eq!(newer_release("1.4.2", "latest"), None);
}

fn records() -> Vec<CategoryRecord> {
    vec![
        CategoryRecord { id: 1, transaction_type: TransactionType::Expense, category: "Food".to_string(), subcategory: "Groceries".to_string(), tag: Some("Weekly".to_string()) },
        CategoryRecord { id: 2, transaction_type: TransactionType::Income, category: "Work".to_string(), subcategory: String::new(), tag: None },
    ]
}

#[test]
fn catalog_filter_and_editor() {
    let rs = records();
    assert_eq!(category_filter_indices(&rs, "week"), vec![0]);
    assert_eq!(category_filter_indices(&rs, "INCOME"), vec![1]);
    assert_eq!(category_filter_indices(&rs, ""), vec![0, 1]);
    let fields: FieldSet<CategoryEditField> = FieldSet::new(vec![
        "expense".to_string(),
        " Food ".to_string(),
        "Snacks".to_string(),
        " ".to_string(),
        "Not set".to_string(),
    ]);
    let draft = build_category_draft(&fields).unwrap();
    assert_eq!(draft.transaction_type, TransactionType::Expense);
    assert_eq!(draft.category, "Food");
    assert_eq!(draft.tag, None);
    let bad: FieldSet<CategoryEditField> = FieldSet::new(vec![
        "other".to_string(), "Food".to_string(), String::new(), String::new(), String::new(),
    ]);
    assert_eq!(build_category_draft(&bad).err(), Some(CategoryDraftError::InvalidType));
    let empty: FieldSet<CategoryEditField> = FieldSet::new(vec![
        "Income".to_string(), "  ".to_string(), String::new(), String::new(), String::new(),
    ]);
    assert_eq!(build_category_draft(&empty).err(), Some(CategoryDraftError::EmptyCategory));
    let dup = CategoryDraft { transaction_type: TransactionType::Expense, category: "FOOD".to_string(), subcategory: "groceries".to_string(), tag: None };
    assert!(is_duplicate_category(&rs, None, &dup));
    assert!(!is_duplicate_category(&rs, Some(1), &dup));
    assert_eq!(delete_category_prompt(&rs[1]), "Delete Work / (No subcategory)? Press y to confirm.");
    assert_eq!(toggled_type_text("INCOME"), "Expense");
    assert_eq!(toggled_type_text("Expense"), "Income");
    let editor = category_editor_fields(TransactionType::Income, "Work".to_string(), String::new(), None, Some(Amount { mantissa: 5, scale: 0 }));
    assert_eq!(editor.value(CategoryEditField::TargetBudget), "5.00");
    assert_eq!(editor.value(CategoryEditField::TransactionType), "Income");
}

#[test]
fn pickers_list_distinct_sorted_names() {
    let infos = vec![
        CategoryInfo { transaction_type: TransactionType::Expense, category: "Food".to_string(), subcategory: "Groceries".to_string() },
        CategoryInfo { transaction_type: TransactionType::Expense, category: "Food".to_string(), subcategory: "Coffee".to_string() },
        CategoryInfo { transaction_type: TransactionType::Expense, category: "Auto".to_string(), subcategory: String::new() },
        CategoryInfo { transaction_type: TransactionType::Income, category: "Work".to_string(), subcategory: "Bonus".to_string() },
    ];
    assert_eq!(category_options(&infos, TransactionType::Expense), vec!["Auto", "Food"]);
    assert_eq!(subcategory_options(&infos, TransactionType::Expense, " food "), vec!["(None)", "Coffee", "Groceries"]);
    assert_eq!(subcategory_options(&infos, TransactionType::Expense, "uncategorized"), vec!["(None)"]);
    assert_eq!(filter_category_options(&infos), vec!["Auto", "Food", "Work"]);
    assert_eq!(filter_subcategory_options(&infos, ""), vec!["(None)", "Bonus", "Coffee", "Groceries"]);
}

#[test]
fn help_lists_every_screens_keys() {
    let normal = get_help_for_mode(AppMode::Normal);
    assert_eq!(normal.len(), 19);
    assert_eq!(normal[0], KeyBindingInfo::new("↑/↓", "Navigate transactions", "Navigation", None));
    assert_eq!(normal.last().unwrap().key, "Ctrl+H");
    assert_eq!(get_help_for_mode(AppMode::Editing).len(), 12);
    assert_eq!(get_help_for_mode(AppMode::SelectingRecurrenceFrequency).len(), 4);
    let fallback = get_help_for_mode(AppMode::Budget);
    assert_eq!(fallback.len(), 2);
    assert_eq!(fallback[0].description, "Close Help");
}

#[test]
fn settings_lookup_and_type_to_select() {
    let mut settings = SettingsState::new();
    settings.add_setting("target_budget", "Target Budget", "100".to_string(), SettingType::Number, "help");
    settings.add_setting("target_budget", "Again", "200".to_string(), SettingType::Number, "help");
    assert_eq!(settings.get_value("target_budget").map(|s| s.as_str()), Some("100"));
    assert_eq!(settings.get_value("missing"), None);
    assert_eq!(settings.items[1].label, "Again");

    let labels: Vec<String> = vec!["Groceries".to_string(), "Gas".to_string(), "Gym".to_string()];
    let mut picker = TypeToSelect::new();
    assert_eq!(picker.handle_char('g', 1_000, &labels), Some(0));
    assert_eq!(picker.handle_char('Y', 1_500, &labels), Some(2));
    // After a pause longer than a second the typed prefix starts over.
    assert_eq!(picker.handle_char('a', 3_000, &labels), None);
    picker.clear();
    assert_eq!(picker.handle_char('G', 3_100, &labels), Some(0));
    assert_eq!(
        JumpToOriginalAction::Delete.message(),
        "Jumped to original recurring transaction for deletion."
    );
}

#[test]
fn selection_moves_wrap_and_clamp() {
    assert_eq!(next_item(None, 3), Some(1));
    assert_eq!(next_item(Some(2), 3), Some(0));
    assert_eq!(next_item(Some(1), 0), Some(1));
    assert_eq!(previous_item(Some(0), 3), Some(2));
    assert_eq!(next_selection(None, 3), Some(0));
    assert_eq!(previous_selection(None, 3), Some(2));
    assert_eq!(page_up(Some(5), 30, PAGE_SIZE), Some(0));
    assert_eq!(page_down(Some(5), 30, PAGE_SIZE), Some(25));
    assert_eq!(page_down(Some(15), 30, PAGE_SIZE), Some(29));
    assert_eq!(jump_to_last(None, 4), Some(3));
    assert_eq!(clamp_selection(Some(9), 4), Some(3));
    assert_eq!(clamp_selection(Some(1), 0), None);
    assert_eq!(mode_list_len(AppMode::Summary, 40, 7), 12);
    assert_eq!(mode_list_len(AppMode::CategorySummary, 40, 7), 7);
    assert_eq!(mode_list_len(AppMode::KeybindingsInfo, 40, 7), 0);
}

#[test]
fn model_basics() {
    assert_eq!(default_category(), "Uncategorized");
    assert_eq!(TransactionType::Income.as_str(), "Income");
    assert_eq!(TransactionType::try_from_str("exp"), Ok(TransactionType::Expense));
    assert_eq!(TransactionType::try_from_str("x"), Err(()));
    assert_eq!(RecurrenceFrequency::from_label("Bi-Weekly"), Some(RecurrenceFrequency::BiWeekly));
    assert_eq!(RecurrenceFrequency::SemiMonthlyWorkday.to_string(), "Semi-Monthly (Weekday Adjusted)");
    assert_eq!(RecurrenceFrequency::all().len(), 8);
    assert_eq!(next_sort_order(true, SortOrder::Ascending), SortOrder::Descending);
    assert_eq!(next_sort_order(false, SortOrder::Descending), SortOrder::Ascending);
    let record = records().remove(0);
    let info = record.to_category_info();
    assert_eq!(info.subcategory, "Groceries");
    assert_eq!(record.to_draft().tag, Some("Weekly".to_string()));
}
