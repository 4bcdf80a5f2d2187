use budget_tracker::entry_form::FormError;
use budget_tracker::money::Amount;
use budget_tracker::settings::{SettingType, SettingsState};
use budget_tracker::settings_screen::{
    activate_selected_setting, open_settings, settings_error_message, settings_values, toggle_is_on,
    toggle_text, SettingsAction, SettingsError, EXPORT_TRANSACTIONS_KEY, HOURLY_RATE_KEY,
    MANAGE_CATEGORIES_KEY, SHOW_HOURS_KEY, TARGET_BUDGET_KEY,
};
use rust_decimal::Decimal;

fn money(text: &str) -> Amount {
    let d: Decimal = text.parse().unwrap();
    Amount { mantissa: d.mantissa(), scale: d.scale() }
}

fn labels(s: &SettingsState) -> Vec<String> {
    s.items.iter().map(|i| i.label.clone()).collect()
}

fn screen(rate: &str) -> SettingsState {
    open_settings("/tmp/budget.db".to_string(), "2500".to_string(), rate.to_string(), true, false, true)
}

fn select(s: &mut SettingsState, key: &str) {
    s.selected_index = s.items.iter().position(|i| i.key == key).unwrap();
    s.edit_cursor = s.items[s.selected_index].value.chars().count();
}

#[test]
fn the_screen_opens_with_its_rows() {
    let s = screen("");
    assert_eq!(
        labels(&s),
        vec![
            "Data Management",
            "Database Path",
            "Manage Categories",
            "Import Transactions (CSV)",
            "Export Transactions (CSV)",
            "Monthly Summary View",
            "Target Budget",
            "Transaction View",
            "Hourly Rate ($)",
            "Input Preferences",
            "Fuzzy Search Categories",
            "General Preferences",
            "Hide Help Bar (NOT RECOMMENDED)",
        ]
    );
    assert_eq!(s.selected_index, 1);
    assert_eq!(s.edit_cursor, "/tmp/budget.db".len());
    assert_eq!(s.items[12].value, "◀ Yes ");
    assert_eq!(s.items[10].value, " No ▶");
    assert_eq!(s.items[2].setting_type, SettingType::Action);
    let with_rate = screen("40");
    assert_eq!(with_rate.items[9].label, "Show Costs in Hours");
    assert_eq!(with_rate.items[9].value, "◀ Yes ");
}

#[test]
fn moving_skips_headers_and_wraps() {
    let mut s = screen("");
    s.next_settings_field();
    assert_eq!(s.items[s.selected_index].key, MANAGE_CATEGORIES_KEY);
    s.next_settings_field();
    s.next_settings_field();
    assert_eq!(s.items[s.selected_index].key, EXPORT_TRANSACTIONS_KEY);
    s.next_settings_field();
    assert_eq!(s.items[s.selected_index].key, TARGET_BUDGET_KEY);
    assert_eq!(s.edit_cursor, 4);
    s.previous_settings_field();
    assert_eq!(s.selected_index, 4);
    s.selected_index = 1;
    s.previous_settings_field();
    assert_eq!(s.selected_index, 12);
    s.next_settings_field();
    assert_eq!(s.selected_index, 1);
}

#[test]
fn typing_follows_the_row_type() {
    let mut s = screen("");
    select(&mut s, TARGET_BUDGET_KEY);
    s.insert_char_settings('5');
    s.insert_char_settings('x');
    s.insert_char_settings('.');
    s.insert_char_settings('.');
    s.insert_char_settings('7');
    assert_eq!(s.items[s.selected_index].value, "25005.7");
    s.delete_char_settings();
    assert_eq!(s.items[s.selected_index].value, "25005.");
    s.selected_index = 1;
    s.edit_cursor = 0;
    s.insert_char_settings('~');
    assert_eq!(s.items[1].value, "~/tmp/budget.db");
    assert_eq!(s.edit_cursor, 1);
    s.delete_char_settings();
    assert_eq!(s.items[1].value, "/tmp/budget.db");
    s.selected_index = 10;
    s.move_cursor_right_settings();
    assert_eq!(s.items[10].value, "◀ Yes ");
    s.move_cursor_left_settings();
    assert_eq!(s.items[10].value, " No ▶");
    s.insert_char_settings('y');
    assert_eq!(s.items[10].value, " No ▶");
    s.selected_index = 3;
    s.insert_char_settings('y');
    assert_eq!(s.items[3].value, "Choose a file to import");
}

#[test]
fn the_hours_toggle_follows_the_hourly_rate() {
    let mut s = screen("");
    select(&mut s, HOURLY_RATE_KEY);
    let rate_row = s.selected_index;
    s.insert_char_settings('3');
    assert_eq!(s.items[rate_row + 1].key, SHOW_HOURS_KEY);
    assert_eq!(s.items[rate_row + 1].value, " No ▶");
    assert_eq!(s.selected_index, rate_row);
    s.selected_index = 12;
    s.update_settings_visibility();
    assert_eq!(s.selected_index, 12);
    s.selected_index = rate_row;
    s.clear_settings_field();
    assert!(s.items.iter().all(|i| i.key != SHOW_HOURS_KEY));
    assert_eq!(s.items[rate_row].value, "");
    assert_eq!(s.items[rate_row].setting_type, SettingType::Number);
}

#[test]
fn saving_reads_and_checks_the_values() {
    let s = screen("12.5");
    let v = settings_values(&s).unwrap();
    assert_eq!(v.database_path, "/tmp/budget.db");
    assert_eq!(v.target_budget, Some(money("2500")));
    assert_eq!(v.hourly_rate, Some(money("12.5")));
    assert_eq!(v.show_hours, Some(true));
    assert_eq!(v.fuzzy_search, Some(false));
    assert_eq!(v.hide_help_bar, Some(true));
    let no_rate = settings_values(&screen("  ")).unwrap();
    assert_eq!(no_rate.hourly_rate, None);
    let mut bad = screen("abc");
    assert_eq!(settings_values(&bad).unwrap_err(), SettingsError::HourlyRate(FormError::InvalidAmount));
    select(&mut bad, TARGET_BUDGET_KEY);
    bad.clear_settings_field();
    bad.insert_char_settings('0');
    assert_eq!(settings_values(&bad).unwrap_err(), SettingsError::TargetBudget(FormError::NonPositiveAmount));
    assert_eq!(
        settings_error_message(SettingsError::TargetBudget(FormError::NonPositiveAmount)),
        "Target budget - Amount must be positive"
    );
    let mut no_path = screen("");
    no_path.selected_index = 1;
    no_path.clear_settings_field();
    assert_eq!(settings_values(&no_path).unwrap_err(), SettingsError::EmptyDatabasePath);
}

#[test]
fn toggle_texts_read_back() {
    assert!(toggle_is_on(toggle_text(true)));
    assert!(!toggle_is_on(toggle_text(false)));
    assert!(toggle_is_on("YES"));
}

#[test]
fn enter_opens_the_action_rows_and_saves_elsewhere() {
    let mut s = screen("");
    assert_eq!(activate_selected_setting(&s), SettingsAction::Save);
    s.selected_index = 2;
    assert_eq!(activate_selected_setting(&s), SettingsAction::ManageCategories);
    s.selected_index = 3;
    assert_eq!(activate_selected_setting(&s), SettingsAction::ImportTransactions);
    s.selected_index = 4;
    assert_eq!(activate_selected_setting(&s), SettingsAction::ExportTransactions);
    s.selected_index = 6;
    assert_eq!(activate_selected_setting(&s), SettingsAction::Save);
}

#[test]
fn paths_lose_surrounding_quotes() {
    let s = open_settings("  '/tmp/my budget.db' ".to_string(), String::new(), String::new(), false, false, false);
    assert_eq!(s.items[1].value, "/tmp/my budget.db");
    assert_eq!(s.edit_cursor, "/tmp/my budget.db".len());
    assert_eq!(settings_values(&s).unwrap().database_path, "/tmp/my budget.db");

    let mut typed = screen("");
    typed.selected_index = 1;
    typed.edit_cursor = 0;
    typed.clear_settings_field();
    for c in "\"/a/b.db".chars() {
        typed.insert_char_settings(c);
    }
    assert_eq!(typed.items[1].value, "\"/a/b.db");
    assert_eq!(typed.edit_cursor, 8);
    typed.insert_char_settings('"');
    assert_eq!(typed.items[1].value, "/a/b.db");
    assert_eq!(typed.edit_cursor, 7);

    let mut leaving = screen("");
    leaving.items[1].value = "\"/x.db\"".to_string();
    leaving.next_settings_field();
    assert_eq!(leaving.items[1].value, "/x.db");

    let mut only_quotes = screen("");
    only_quotes.selected_index = 1;
    only_quotes.items[1].value = "\"\"".to_string();
    assert_eq!(settings_values(&only_quotes).unwrap_err(), SettingsError::EmptyDatabasePath);
}

#[test]
fn pasting_a_dropped_path_strips_it_once() {
    let mut s = screen("");
    s.selected_index = 1;
    s.clear_settings_field();
    s.paste_settings("'/Users/me/My Docs/budget.db' ");
    assert_eq!(s.items[1].value, "/Users/me/My Docs/budget.db");
    assert_eq!(s.edit_cursor, "/Users/me/My Docs/budget.db".len());
    let mut toggle = screen("");
    toggle.selected_index = 10;
    toggle.paste_settings("yes");
    assert_eq!(toggle.items[10].value, " No ▶");
}
