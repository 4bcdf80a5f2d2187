use budget_tracker::fields::{AddEditField, AdvancedFilterField, RecurringField};
use budget_tracker::keymap::{
    accepts_key, clears_status, handle_add_edit_mode, handle_advanced_filtering, handle_category_manager_mode,
    handle_confirm_delete, handle_help_mode, handle_ledger_manager_mode, handle_normal_mode,
    handle_recurring_mode, handle_settings_mode, handle_simple_filtering, move_help_selection, toggle_help,
    update, Command, FocusState, Key, KeyPress, LedgerScreen, Modifiers,
};
use budget_tracker::model::SortColumn;
use budget_tracker::modes::AppMode;

fn plain(key: Key) -> KeyPress {
    KeyPress { key, modifiers: Modifiers::Plain }
}

fn shift(key: Key) -> KeyPress {
    KeyPress { key, modifiers: Modifiers::Shift }
}

fn ctrl(key: Key) -> KeyPress {
    KeyPress { key, modifiers: Modifiers::Control }
}

fn focus() -> FocusState {
    FocusState {
        form: AddEditField::Date,
        advanced: AdvancedFilterField::DateFrom,
        recurring: RecurringField::IsRecurring,
        category_field: 0,
        editing_budget: false,
    }
}

const ALL_MODES: [AppMode; 24] = [
    AppMode::Normal,
    AppMode::Adding,
    AppMode::Editing,
    AppMode::ConfirmDelete,
    AppMode::Filtering,
    AppMode::AdvancedFiltering,
    AppMode::SelectingFilterCategory,
    AppMode::SelectingFilterSubcategory,
    AppMode::Summary,
    AppMode::SelectingCategory,
    AppMode::SelectingSubcategory,
    AppMode::CategorySummary,
    AppMode::Budget,
    AppMode::Settings,
    AppMode::RecurringSettings,
    AppMode::SelectingRecurrenceFrequency,
    AppMode::KeybindingsInfo,
    AppMode::KeybindingDetail,
    AppMode::FuzzyFinding,
    AppMode::CategoryCatalog,
    AppMode::CategoryEditor,
    AppMode::ConfirmCategoryDelete,
    AppMode::ImportTransactions,
    AppMode::ExportTransactions,
];

#[test]
fn main_list_keys() {
    assert_eq!(handle_normal_mode(plain(Key::Char('q'))), Some(Command::Quit));
    assert_eq!(handle_normal_mode(plain(Key::Esc)), Some(Command::Quit));
    assert_eq!(handle_normal_mode(plain(Key::Char('a'))), Some(Command::StartAdding));
    assert_eq!(handle_normal_mode(plain(Key::Char('3'))), Some(Command::SortBy(SortColumn::Category)));
    assert_eq!(handle_normal_mode(plain(Key::F(6))), Some(Command::SortBy(SortColumn::Amount)));
    assert_eq!(handle_normal_mode(ctrl(Key::Up)), Some(Command::JumpToFirst));
    assert_eq!(handle_normal_mode(plain(Key::Up)), Some(Command::PreviousItem));
    assert_eq!(handle_normal_mode(shift(Key::Up)), None);
    assert_eq!(handle_normal_mode(plain(Key::Char('z'))), None);
}

#[test]
fn form_keys_follow_the_focused_field() {
    assert_eq!(handle_add_edit_mode(AddEditField::Date, plain(Key::Char('5'))), Some(Command::Insert('5')));
    assert_eq!(handle_add_edit_mode(AddEditField::Date, plain(Key::Char('x'))), None);
    assert_eq!(handle_add_edit_mode(AddEditField::Date, plain(Key::Char('='))), Some(Command::IncrementDate));
    assert_eq!(handle_add_edit_mode(AddEditField::Date, shift(Key::Left)), Some(Command::DecrementMonth));
    assert_eq!(handle_add_edit_mode(AddEditField::Amount, shift(Key::Left)), None);
    assert_eq!(handle_add_edit_mode(AddEditField::Description, shift(Key::Char('B'))), Some(Command::Insert('B')));
    assert_eq!(handle_add_edit_mode(AddEditField::Amount, shift(Key::Char('B'))), None);
    assert_eq!(handle_add_edit_mode(AddEditField::TransactionType, plain(Key::Enter)), Some(Command::ToggleValue));
    assert_eq!(handle_add_edit_mode(AddEditField::Category, plain(Key::Enter)), Some(Command::StartCategorySelection));
    assert_eq!(handle_add_edit_mode(AddEditField::Amount, plain(Key::Enter)), Some(Command::Confirm));
    assert_eq!(handle_add_edit_mode(AddEditField::Category, plain(Key::Backspace)), None);
    assert_eq!(handle_add_edit_mode(AddEditField::Category, plain(Key::Left)), Some(Command::CursorLeft));
}

#[test]
fn filter_keys() {
    assert_eq!(handle_simple_filtering(ctrl(Key::Char('f'))), Some(Command::StartAdvancedFiltering));
    assert_eq!(handle_simple_filtering(plain(Key::Esc)), Some(Command::ResetFilters));
    assert_eq!(handle_simple_filtering(shift(Key::Char('X'))), Some(Command::Insert('X')));
    assert_eq!(handle_advanced_filtering(AdvancedFilterField::Recurring, plain(Key::Left)), Some(Command::ToggleRecurringFilter));
    assert_eq!(handle_advanced_filtering(AdvancedFilterField::DateTo, plain(Key::Char('-'))), Some(Command::DecrementDate));
    assert_eq!(handle_advanced_filtering(AdvancedFilterField::DateTo, plain(Key::Char('7'))), Some(Command::Insert('7')));
    assert_eq!(handle_advanced_filtering(AdvancedFilterField::Subcategory, plain(Key::Enter)), Some(Command::StartSubcategorySelection));
}

#[test]
fn questions_and_other_screens() {
    assert_eq!(handle_confirm_delete(plain(Key::Char('Y'))), Some(Command::Confirm));
    assert_eq!(handle_confirm_delete(plain(Key::Char('x'))), None);
    assert_eq!(handle_ledger_manager_mode(LedgerScreen::ConfirmDelete, plain(Key::Char('x'))), Some(Command::Cancel));
    assert_eq!(handle_ledger_manager_mode(LedgerScreen::List, ctrl(Key::Char('c'))), Some(Command::StartCopying));
    assert_eq!(handle_settings_mode(ctrl(Key::Char('d'))), Some(Command::ResetToDefault));
    assert_eq!(handle_settings_mode(plain(Key::Delete)), Some(Command::ClearField));
    assert_eq!(handle_recurring_mode(RecurringField::EndDate, plain(Key::Char('4'))), Some(Command::Insert('4')));
    assert_eq!(handle_recurring_mode(RecurringField::Frequency, plain(Key::Left)), None);
    assert_eq!(handle_category_manager_mode(AppMode::CategoryEditor, 4, plain(Key::Char('.'))), Some(Command::Insert('.')));
    assert_eq!(handle_category_manager_mode(AppMode::CategoryEditor, 4, plain(Key::Char('a'))), None);
    assert_eq!(handle_category_manager_mode(AppMode::CategoryEditor, 0, plain(Key::Enter)), Some(Command::ToggleValue));
    assert_eq!(handle_help_mode(AppMode::KeybindingDetail, plain(Key::Char('j'))), None);
    assert_eq!(handle_help_mode(AppMode::KeybindingsInfo, plain(Key::Char('j'))), Some(Command::NextItem));
}

#[test]
fn escape_is_answered_on_every_screen() {
    for mode in ALL_MODES {
        assert!(accepts_key(mode, plain(Key::Esc)));
        assert!(update(mode, false, focus(), plain(Key::Esc)).is_some());
    }
}

#[test]
fn ctrl_h_toggles_help_from_every_screen() {
    for mode in ALL_MODES {
        assert!(accepts_key(mode, ctrl(Key::Char('h'))));
        assert_eq!(update(mode, false, focus(), ctrl(Key::Char('h'))), Some(Command::ToggleHelp));
    }
    assert_eq!(update(AppMode::Normal, true, focus(), ctrl(Key::Char('h'))), Some(Command::DismissUpdate(false)));
    assert_eq!(update(AppMode::Normal, true, focus(), plain(Key::Char('o'))), Some(Command::DismissUpdate(true)));
}

#[test]
fn help_toggle_round_trip() {
    for mode in ALL_MODES {
        if mode == AppMode::KeybindingsInfo || mode == AppMode::KeybindingDetail {
            continue;
        }
        let (opened, remembered) = toggle_help(mode, None);
        assert_eq!((opened, remembered), (AppMode::KeybindingsInfo, Some(mode)));
        assert_eq!(toggle_help(opened, remembered), (mode, None));
    }
    assert_eq!(toggle_help(AppMode::KeybindingDetail, None), (AppMode::Normal, None));
}

#[test]
fn modified_keys_pass_only_where_used() {
    assert!(accepts_key(AppMode::Adding, shift(Key::Char('A'))));
    assert!(!accepts_key(AppMode::Normal, shift(Key::Char('A'))));
    assert!(accepts_key(AppMode::Normal, ctrl(Key::Down)));
    assert!(!accepts_key(AppMode::Summary, ctrl(Key::Down)));
    assert!(accepts_key(AppMode::Settings, ctrl(Key::Char('v'))));
    assert!(!accepts_key(AppMode::Settings, KeyPress { key: Key::Char('v'), modifiers: Modifiers::Other }));
    assert!(clears_status(AppMode::Normal));
    assert!(!clears_status(AppMode::ConfirmDelete));
}

#[test]
fn help_selection_stays_in_the_list() {
    assert_eq!(move_help_selection(Command::NextItem, Some(3), 5), Some(4));
    assert_eq!(move_help_selection(Command::NextItem, Some(4), 5), Some(4));
    assert_eq!(move_help_selection(Command::PageDown, None, 5), Some(4));
    assert_eq!(move_help_selection(Command::PageDown, Some(2), 30), Some(12));
    assert_eq!(move_help_selection(Command::PageUp, Some(7), 30), Some(0));
    assert_eq!(move_help_selection(Command::PreviousItem, Some(7), 30), Some(6));
    assert_eq!(move_help_selection(Command::NextItem, Some(2), 0), Some(2));
    assert_eq!(move_help_selection(Command::PreviousItem, None, 0), Some(0));
}
