//! What each key does on each screen. The terminal's key events are reduced to a `KeyPress`
//! (the key and which modifier was held), and each screen maps a press to the `Command` the
//! application carries out, or to nothing when the screen ignores the key.
use crate::fields::{AddEditField, AdvancedFilterField, RecurringField};
use crate::model::SortColumn;
use crate::modes::AppMode;
use vstd::prelude::*;

verus! {

/// A key of the keyboard, as far as the screens tell keys apart.
#[derive(Debug, Clone, Copy, PartialEq, Eq, Structural)]
pub enum Key {
    Char(char),
    Up,
    Down,
    Left,
    Right,
    Enter,
    Esc,
    Tab,
    BackTab,
    Backspace,
    Delete,
    PageUp,
    PageDown,
    F(u8),
    /// Any key no screen uses.
    Other,
}

/// The modifier held with a key: none, Shift alone, Control alone, or any other combination.
#[derive(Debug, Clone, Copy, PartialEq, Eq, Structural)]
pub enum Modifiers {
    Plain,
    Shift,
    Control,
    Other,
}

/// One key press.
#[derive(Debug, Clone, Copy, PartialEq, Eq, Structural)]
pub struct KeyPress {
    pub key: Key,
    pub modifiers: Modifiers,
}

/// What a key press asks of the application. The screen it was pressed on says what the
/// command applies to (the list, the focused field, the open form).
#[derive(Debug, Clone, Copy, PartialEq, Eq, Structural)]
pub enum Command {
    Quit,
    /// Leave the screen, form or picker without saving; decline a deletion.
    Cancel,
    /// Save the form, take the picked item, carry out the deletion.
    Confirm,
    NextItem,
    PreviousItem,
    JumpToFirst,
    JumpToLast,
    PageUp,
    PageDown,
    NextField,
    PreviousField,
    CursorLeft,
    CursorRight,
    Insert(char),
    DeleteBefore,
    DeleteAfter,
    ClearField,
    ResetToDefault,
    /// Flip the focused two-valued field (transaction type, recurring on/off).
    ToggleValue,
    /// Flip the recurring-only switch of the advanced filter.
    ToggleRecurringFilter,
    IncrementDate,
    DecrementDate,
    IncrementMonth,
    DecrementMonth,
    StartAdding,
    StartEditing,
    PrepareDelete,
    StartFiltering,
    StartAdvancedFiltering,
    StartRecurringSettings,
    OpenSummary,
    OpenCategorySummary,
    OpenSettings,
    OpenCategoryCatalog,
    StartCategorySelection,
    StartSubcategorySelection,
    StartFrequencySelection,
    SortBy(SortColumn),
    ResetFilters,
    NextYear,
    PreviousYear,
    NextMonth,
    PreviousMonth,
    ToggleMultiMonth,
    ToggleCumulative,
    ToggleExpand,
    EditBudgetTarget,
    EditMonthlyBudget,
    /// Move the budget edit's scope forward (`true`) or back.
    CycleScope(bool),
    Activate,
    StartRenaming,
    StartCopying,
    ToggleHelp,
    OpenDetail,
    /// Close the update notice, opening the releases page (`true`) or not.
    DismissUpdate(bool),
}

/// The ledger manager's three screens.
#[derive(Debug, Clone, Copy, PartialEq, Eq, Structural)]
pub enum LedgerScreen {
    List,
    Editor,
    ConfirmDelete,
}

pub open spec fn plain(p: KeyPress, k: Key) -> bool {
    p.modifiers == Modifiers::Plain && p.key == k
}

pub open spec fn is_char(k: Key) -> bool {
    k matches Key::Char(_)
}

pub open spec fn is_digit(c: char) -> bool {
    '0' <= c <= '9'
}

fn char_is_digit(c: char) -> (r: bool)
    ensures
        r == is_digit(c),
{
    '0' <= c && c <= '9'
}

/// The main list: moving, opening the other screens, sorting.
pub open spec fn normal_keys(p: KeyPress) -> Option<Command> {
    match (p.key, p.modifiers) {
        (Key::Up, Modifiers::Control) => Some(Command::JumpToFirst),
        (Key::Down, Modifiers::Control) => Some(Command::JumpToLast),
        (Key::PageUp, Modifiers::Plain) => Some(Command::PageUp),
        (Key::PageDown, Modifiers::Plain) => Some(Command::PageDown),
        (Key::Down, Modifiers::Plain) => Some(Command::NextItem),
        (Key::Up, Modifiers::Plain) => Some(Command::PreviousItem),
        (Key::Char('q'), _) | (Key::Esc, _) => Some(Command::Quit),
        (Key::Char('a'), _) => Some(Command::StartAdding),
        (Key::Char('d'), _) => Some(Command::PrepareDelete),
        (Key::Char('e'), _) => Some(Command::StartEditing),
        (Key::Char('f'), _) => Some(Command::StartFiltering),
        (Key::Char('r'), _) => Some(Command::StartRecurringSettings),
        (Key::Char('s'), _) => Some(Command::OpenSummary),
        (Key::Char('c'), _) => Some(Command::OpenCategorySummary),
        (Key::Char('o'), _) => Some(Command::OpenSettings),
        (Key::Char('1'), _) | (Key::F(1), _) => Some(Command::SortBy(SortColumn::Date)),
        (Key::Char('2'), _) | (Key::F(2), _) => Some(Command::SortBy(SortColumn::Description)),
        (Key::Char('3'), _) | (Key::F(3), _) => Some(Command::SortBy(SortColumn::Category)),
        (Key::Char('4'), _) | (Key::F(4), _) => Some(Command::SortBy(SortColumn::Subcategory)),
        (Key::Char('5'), _) | (Key::F(5), _) => Some(Command::SortBy(SortColumn::Type)),
        (Key::Char('6'), _) | (Key::F(6), _) => Some(Command::SortBy(SortColumn::Amount)),
        _ => None,
    }
}

/// What a key does on the main list.
pub fn handle_normal_mode(p: KeyPress) -> (r: Option<Command>)
    ensures
        r == normal_keys(p),
{
    match (p.key, p.modifiers) {
        (Key::Up, Modifiers::Control) => Some(Command::JumpToFirst),
        (Key::Down, Modifiers::Control) => Some(Command::JumpToLast),
        (Key::PageUp, Modifiers::Plain) => Some(Command::PageUp),
        (Key::PageDown, Modifiers::Plain) => Some(Command::PageDown),
        (Key::Down, Modifiers::Plain) => Some(Command::NextItem),
        (Key::Up, Modifiers::Plain) => Some(Command::PreviousItem),
        (Key::Char('q'), _) | (Key::Esc, _) => Some(Command::Quit),
        (Key::Char('a'), _) => Some(Command::StartAdding),
        (Key::Char('d'), _) => Some(Command::PrepareDelete),
        (Key::Char('e'), _) => Some(Command::StartEditing),
        (Key::Char('f'), _) => Some(Command::StartFiltering),
        (Key::Char('r'), _) => Some(Command::StartRecurringSettings),
        (Key::Char('s'), _) => Some(Command::OpenSummary),
        (Key::Char('c'), _) => Some(Command::OpenCategorySummary),
        (Key::Char('o'), _) => Some(Command::OpenSettings),
        (Key::Char('1'), _) | (Key::F(1), _) => Some(Command::SortBy(SortColumn::Date)),
        (Key::Char('2'), _) | (Key::F(2), _) => Some(Command::SortBy(SortColumn::Description)),
        (Key::Char('3'), _) | (Key::F(3), _) => Some(Command::SortBy(SortColumn::Category)),
        (Key::Char('4'), _) | (Key::F(4), _) => Some(Command::SortBy(SortColumn::Subcategory)),
        (Key::Char('5'), _) | (Key::F(5), _) => Some(Command::SortBy(SortColumn::Type)),
        (Key::Char('6'), _) | (Key::F(6), _) => Some(Command::SortBy(SortColumn::Amount)),
        _ => None,
    }
}

/// The add/edit form, by the focused field: Enter toggles the type, opens the category
/// pickers or saves; the arrows step dates, flip the type or move the cursor; typing goes to
/// editable fields, and a date field takes only digits, with `+`/`=` and `-` stepping the day.
pub open spec fn add_edit_keys(focused: AddEditField, p: KeyPress) -> Option<Command> {
    match (p.modifiers, p.key) {
        (Modifiers::Plain, Key::Esc) => Some(Command::Cancel),
        (Modifiers::Plain, Key::Tab) => Some(Command::NextField),
        (Modifiers::Plain, Key::BackTab) => Some(Command::PreviousField),
        (Modifiers::Plain, Key::Enter) => match focused {
            AddEditField::TransactionType => Some(Command::ToggleValue),
            AddEditField::Category => Some(Command::StartCategorySelection),
            AddEditField::Subcategory => Some(Command::StartSubcategorySelection),
            _ => Some(Command::Confirm),
        },
        (Modifiers::Plain, Key::Up) => Some(Command::PreviousField),
        (Modifiers::Plain, Key::Down) => Some(Command::NextField),
        (Modifiers::Plain, Key::Left) => match focused {
            AddEditField::Date => Some(Command::DecrementDate),
            AddEditField::TransactionType => Some(Command::ToggleValue),
            _ => Some(Command::CursorLeft),
        },
        (Modifiers::Plain, Key::Right) => match focused {
            AddEditField::Date => Some(Command::IncrementDate),
            AddEditField::TransactionType => Some(Command::ToggleValue),
            _ => Some(Command::CursorRight),
        },
        (Modifiers::Shift, Key::Left) => if focused == AddEditField::Date {
            Some(Command::DecrementMonth)
        } else {
            None
        },
        (Modifiers::Shift, Key::Right) => if focused == AddEditField::Date {
            Some(Command::IncrementMonth)
        } else {
            None
        },
        (Modifiers::Plain, Key::Char(c)) => match focused {
            AddEditField::Date => if c == '+' || c == '=' {
                Some(Command::IncrementDate)
            } else if c == '-' {
                Some(Command::DecrementDate)
            } else if is_digit(c) {
                Some(Command::Insert(c))
            } else {
                None
            },
            AddEditField::Description | AddEditField::Amount => Some(Command::Insert(c)),
            _ => None,
        },
        (Modifiers::Shift, Key::Char(c)) => if focused == AddEditField::Description {
            Some(Command::Insert(c))
        } else {
            None
        },
        (Modifiers::Plain, Key::Backspace) => match focused {
            AddEditField::Date | AddEditField::Description | AddEditField::Amount => Some(
                Command::DeleteBefore,
            ),
            _ => None,
        },
        (Modifiers::Plain, Key::Delete) => match focused {
            AddEditField::Date | AddEditField::Description | AddEditField::Amount => Some(
                Command::DeleteAfter,
            ),
            _ => None,
        },
        _ => None,
    }
}

/// What a key does in the add/edit form with `focused` focused.
pub fn handle_add_edit_mode(focused: AddEditField, p: KeyPress) -> (r: Option<Command>)
    ensures
        r == add_edit_keys(focused, p),
{
    match (p.modifiers, p.key) {
        (Modifiers::Plain, Key::Esc) => Some(Command::Cancel),
        (Modifiers::Plain, Key::Tab) => Some(Command::NextField),
        (Modifiers::Plain, Key::BackTab) => Some(Command::PreviousField),
        (Modifiers::Plain, Key::Enter) => match focused {
            AddEditField::TransactionType => Some(Command::ToggleValue),
            AddEditField::Category => Some(Command::StartCategorySelection),
            AddEditField::Subcategory => Some(Command::StartSubcategorySelection),
            _ => Some(Command::Confirm),
        },
        (Modifiers::Plain, Key::Up) => Some(Command::PreviousField),
        (Modifiers::Plain, Key::Down) => Some(Command::NextField),
        (Modifiers::Plain, Key::Left) => match focused {
            AddEditField::Date => Some(Command::DecrementDate),
            AddEditField::TransactionType => Some(Command::ToggleValue),
            _ => Some(Command::CursorLeft),
        },
        (Modifiers::Plain, Key::Right) => match focused {
            AddEditField::Date => Some(Command::IncrementDate),
            AddEditField::TransactionType => Some(Command::ToggleValue),
            _ => Some(Command::CursorRight),
        },
        (Modifiers::Shift, Key::Left) => if focused == AddEditField::Date {
            Some(Command::DecrementMonth)
        } else {
            None
        },
        (Modifiers::Shift, Key::Right) => if focused == AddEditField::Date {
            Some(Command::IncrementMonth)
        } else {
            None
        },
        (Modifiers::Plain, Key::Char(c)) => match focused {
            AddEditField::Date => if c == '+' || c == '=' {
                Some(Command::IncrementDate)
            } else if c == '-' {
                Some(Command::DecrementDate)
            } else if char_is_digit(c) {
                Some(Command::Insert(c))
            } else {
                None
            },
            AddEditField::Description | AddEditField::Amount => Some(Command::Insert(c)),
            _ => None,
        },
        (Modifiers::Shift, Key::Char(c)) => if focused == AddEditField::Description {
            Some(Command::Insert(c))
        } else {
            None
        },
        (Modifiers::Plain, Key::Backspace) => match focused {
            AddEditField::Date | AddEditField::Description | AddEditField::Amount => Some(
                Command::DeleteBefore,
            ),
            _ => None,
        },
        (Modifiers::Plain, Key::Delete) => match focused {
            AddEditField::Date | AddEditField::Description | AddEditField::Amount => Some(
                Command::DeleteAfter,
            ),
            _ => None,
        },
        _ => None,
    }
}

/// A yes/no question: `y` confirms; `n` and Esc decline; other keys wait.
pub open spec fn confirm_keys(p: KeyPress) -> Option<Command> {
    match p.key {
        Key::Char('y') | Key::Char('Y') => Some(Command::Confirm),
        Key::Char('n') | Key::Char('N') | Key::Esc => Some(Command::Cancel),
        _ => None,
    }
}

/// What a key does while a transaction deletion waits for an answer.
pub fn handle_confirm_delete(p: KeyPress) -> (r: Option<Command>)
    ensures
        r == confirm_keys(p),
{
    match p.key {
        Key::Char('y') | Key::Char('Y') => Some(Command::Confirm),
        Key::Char('n') | Key::Char('N') | Key::Esc => Some(Command::Cancel),
        _ => None,
    }
}

/// The quick filter: typing edits the search text (clearing the advanced filter and
/// filtering again); Ctrl+F opens the advanced filter, Ctrl+R and Esc reset every filter.
pub open spec fn simple_filter_keys(p: KeyPress) -> Option<Command> {
    match (p.modifiers, p.key) {
        (Modifiers::Control, Key::Char('f')) => Some(Command::StartAdvancedFiltering),
        (Modifiers::Control, Key::Char('r')) => Some(Command::ResetFilters),
        (Modifiers::Plain, Key::Enter) => Some(Command::Confirm),
        (Modifiers::Plain, Key::Esc) => Some(Command::ResetFilters),
        (Modifiers::Plain, Key::Char(c)) | (Modifiers::Shift, Key::Char(c)) => Some(Command::Insert(c)),
        (Modifiers::Plain, Key::Backspace) => Some(Command::DeleteBefore),
        (Modifiers::Plain, Key::Delete) => Some(Command::DeleteAfter),
        (Modifiers::Plain, Key::Left) => Some(Command::CursorLeft),
        (Modifiers::Plain, Key::Right) => Some(Command::CursorRight),
        _ => None,
    }
}

/// What a key does in the quick filter.
pub fn handle_simple_filtering(p: KeyPress) -> (r: Option<Command>)
    ensures
        r == simple_filter_keys(p),
{
    match (p.modifiers, p.key) {
        (Modifiers::Control, Key::Char('f')) => Some(Command::StartAdvancedFiltering),
        (Modifiers::Control, Key::Char('r')) => Some(Command::ResetFilters),
        (Modifiers::Plain, Key::Enter) => Some(Command::Confirm),
        (Modifiers::Plain, Key::Esc) => Some(Command::ResetFilters),
        (Modifiers::Plain, Key::Char(c)) | (Modifiers::Shift, Key::Char(c)) => Some(Command::Insert(c)),
        (Modifiers::Plain, Key::Backspace) => Some(Command::DeleteBefore),
        (Modifiers::Plain, Key::Delete) => Some(Command::DeleteAfter),
        (Modifiers::Plain, Key::Left) => Some(Command::CursorLeft),
        (Modifiers::Plain, Key::Right) => Some(Command::CursorRight),
        _ => None,
    }
}

/// The advanced filter, by the focused field: Enter opens the category pickers or applies
/// the filter; the arrows step dates, flip the type and recurring switches or move the cursor.
/// Typing edits the focused field (clearing the quick filter).
pub open spec fn advanced_filter_keys(focused: AdvancedFilterField, p: KeyPress) -> Option<Command> {
    match (p.modifiers, p.key) {
        (Modifiers::Control, Key::Char('r')) => Some(Command::ResetFilters),
        (Modifiers::Plain, Key::Esc) => Some(Command::Cancel),
        (Modifiers::Plain, Key::Enter) => match focused {
            AdvancedFilterField::Category => Some(Command::StartCategorySelection),
            AdvancedFilterField::Subcategory => Some(Command::StartSubcategorySelection),
            _ => Some(Command::Confirm),
        },
        (Modifiers::Plain, Key::Tab) | (Modifiers::Plain, Key::Down) => Some(Command::NextField),
        (Modifiers::Plain, Key::BackTab) | (Modifiers::Plain, Key::Up) => Some(
            Command::PreviousField,
        ),
        (Modifiers::Plain, Key::Left) => match focused {
            AdvancedFilterField::DateFrom | AdvancedFilterField::DateTo => Some(
                Command::DecrementDate,
            ),
            AdvancedFilterField::TransactionType => Some(Command::ToggleValue),
            AdvancedFilterField::Recurring => Some(Command::ToggleRecurringFilter),
            _ => Some(Command::CursorLeft),
        },
        (Modifiers::Plain, Key::Right) => match focused {
            AdvancedFilterField::DateFrom | AdvancedFilterField::DateTo => Some(
                Command::IncrementDate,
            ),
            AdvancedFilterField::TransactionType => Some(Command::ToggleValue),
            AdvancedFilterField::Recurring => Some(Command::ToggleRecurringFilter),
            _ => Some(Command::CursorRight),
        },
        (Modifiers::Shift, Key::Left) => match focused {
            AdvancedFilterField::DateFrom | AdvancedFilterField::DateTo => Some(
                Command::DecrementMonth,
            ),
            _ => None,
        },
        (Modifiers::Shift, Key::Right) => match focused {
            AdvancedFilterField::DateFrom | AdvancedFilterField::DateTo => Some(
                Command::IncrementMonth,
            ),
            _ => None,
        },
        (Modifiers::Plain, Key::Char(c)) => match focused {
            AdvancedFilterField::DateFrom | AdvancedFilterField::DateTo => if c == '+' || c
                == '=' {
                Some(Command::IncrementDate)
            } else if c == '-' {
                Some(Command::DecrementDate)
            } else {
                Some(Command::Insert(c))
            },
            _ => Some(Command::Insert(c)),
        },
        (Modifiers::Shift, Key::Char(c)) => Some(Command::Insert(c)),
        (Modifiers::Plain, Key::Backspace) => Some(Command::DeleteBefore),
        (Modifiers::Plain, Key::Delete) => Some(Command::DeleteAfter),
        _ => None,
    }
}

/// What a key does in the advanced filter with `focused` focused.
pub fn handle_advanced_filtering(focused: AdvancedFilterField, p: KeyPress) -> (r: Option<Command>)
    ensures
        r == advanced_filter_keys(focused, p),
{
    match (p.modifiers, p.key) {
        (Modifiers::Control, Key::Char('r')) => Some(Command::ResetFilters),
        (Modifiers::Plain, Key::Esc) => Some(Command::Cancel),
        (Modifiers::Plain, Key::Enter) => match focused {
            AdvancedFilterField::Category => Some(Command::StartCategorySelection),
            AdvancedFilterField::Subcategory => Some(Command::StartSubcategorySelection),
            _ => Some(Command::Confirm),
        },
        (Modifiers::Plain, Key::Tab) | (Modifiers::Plain, Key::Down) => Some(Command::NextField),
        (Modifiers::Plain, Key::BackTab) | (Modifiers::Plain, Key::Up) => Some(
            Command::PreviousField,
        ),
        (Modifiers::Plain, Key::Left) => match focused {
            AdvancedFilterField::DateFrom | AdvancedFilterField::DateTo => Some(
                Command::DecrementDate,
            ),
            AdvancedFilterField::TransactionType => Some(Command::ToggleValue),
            AdvancedFilterField::Recurring => Some(Command::ToggleRecurringFilter),
            _ => Some(Command::CursorLeft),
        },
        (Modifiers::Plain, Key::Right) => match focused {
            AdvancedFilterField::DateFrom | AdvancedFilterField::DateTo => Some(
                Command::IncrementDate,
            ),
            AdvancedFilterField::TransactionType => Some(Command::ToggleValue),
            AdvancedFilterField::Recurring => Some(Command::ToggleRecurringFilter),
            _ => Some(Command::CursorRight),
        },
        (Modifiers::Shift, Key::Left) => match focused {
            AdvancedFilterField::DateFrom | AdvancedFilterField::DateTo => Some(
                Command::DecrementMonth,
            ),
            _ => None,
        },
        (Modifiers::Shift, Key::Right) => match focused {
            AdvancedFilterField::DateFrom | AdvancedFilterField::DateTo => Some(
                Command::IncrementMonth,
            ),
            _ => None,
        },
        (Modifiers::Plain, Key::Char(c)) => match focused {
            AdvancedFilterField::DateFrom | AdvancedFilterField::DateTo => if c == '+' || c
                == '=' {
                Some(Command::IncrementDate)
            } else if c == '-' {
                Some(Command::DecrementDate)
            } else {
                Some(Command::Insert(c))
            },
            _ => Some(Command::Insert(c)),
        },
        (Modifiers::Shift, Key::Char(c)) => Some(Command::Insert(c)),
        (Modifiers::Plain, Key::Backspace) => Some(Command::DeleteBefore),
        (Modifiers::Plain, Key::Delete) => Some(Command::DeleteAfter),
        _ => None,
    }
}

/// What a key does on one of the two filter screens.
pub fn handle_filter_mode(mode: AppMode, focused: AdvancedFilterField, p: KeyPress) -> (r: Option<
    Command,
>)
    ensures
        r == (if mode == AppMode::Filtering {
            simple_filter_keys(p)
        } else if mode == AppMode::AdvancedFiltering {
            advanced_filter_keys(focused, p)
        } else {
            None
        }),
{
    match mode {
        AppMode::Filtering => handle_simple_filtering(p),
        AppMode::AdvancedFiltering => handle_advanced_filtering(focused, p),
        _ => None,
    }
}

/// The fuzzy category finder: typing narrows the list, Enter takes the highlighted entry.
pub open spec fn fuzzy_search_keys(p: KeyPress) -> Option<Command> {
    match p.key {
        Key::Esc => Some(Command::Cancel),
        Key::Enter => Some(Command::Confirm),
        Key::Up => Some(Command::PreviousItem),
        Key::Down => Some(Command::NextItem),
        Key::Backspace => Some(Command::DeleteBefore),
        Key::Char(c) => Some(Command::Insert(c)),
        _ => None,
    }
}

/// What a key does in the fuzzy category finder.
pub fn handle_fuzzy_search_mode(p: KeyPress) -> (r: Option<Command>)
    ensures
        r == fuzzy_search_keys(p),
{
    match p.key {
        Key::Esc => Some(Command::Cancel),
        Key::Enter => Some(Command::Confirm),
        Key::Up => Some(Command::PreviousItem),
        Key::Down => Some(Command::NextItem),
        Key::Backspace => Some(Command::DeleteBefore),
        Key::Char(c) => Some(Command::Insert(c)),
        _ => None,
    }
}

/// The monthly summary: up and down move between months, the brackets, Page keys and
/// left/right between years; `m` and `c` switch the multi-month and cumulative views.
pub open spec fn summary_keys(p: KeyPress) -> Option<Command> {
    match p.key {
        Key::Char('q') | Key::Esc => Some(Command::Cancel),
        Key::Down => Some(Command::NextMonth),
        Key::Up => Some(Command::PreviousMonth),
        Key::Char(']') | Key::PageDown | Key::Right => Some(Command::NextYear),
        Key::Char('[') | Key::PageUp | Key::Left => Some(Command::PreviousYear),
        Key::Char('m') => Some(Command::ToggleMultiMonth),
        Key::Char('c') => Some(Command::ToggleCumulative),
        _ => None,
    }
}

/// What a key does on the monthly summary.
pub fn handle_regular_summary(p: KeyPress) -> (r: Option<Command>)
    ensures
        r == summary_keys(p),
{
    match p.key {
        Key::Char('q') | Key::Esc => Some(Command::Cancel),
        Key::Down => Some(Command::NextMonth),
        Key::Up => Some(Command::PreviousMonth),
        Key::Char(']') | Key::PageDown | Key::Right => Some(Command::NextYear),
        Key::Char('[') | Key::PageUp | Key::Left => Some(Command::PreviousYear),
        Key::Char('m') => Some(Command::ToggleMultiMonth),
        Key::Char('c') => Some(Command::ToggleCumulative),
        _ => None,
    }
}

/// The category summary: up and down move between rows, the Page keys between months, the
/// brackets and left/right between years; Enter opens or closes a month's rows.
pub open spec fn category_summary_keys(p: KeyPress) -> Option<Command> {
    match p.key {
        Key::Char('q') | Key::Esc => Some(Command::Cancel),
        Key::Down => Some(Command::NextItem),
        Key::Up => Some(Command::PreviousItem),
        Key::PageUp => Some(Command::PreviousMonth),
        Key::PageDown => Some(Command::NextMonth),
        Key::Char(']') | Key::Right => Some(Command::NextYear),
        Key::Char('[') | Key::Left => Some(Command::PreviousYear),
        Key::Enter => Some(Command::ToggleExpand),
        _ => None,
    }
}

/// What a key does on the category summary.
pub fn handle_category_summary(p: KeyPress) -> (r: Option<Command>)
    ensures
        r == category_summary_keys(p),
{
    match p.key {
        Key::Char('q') | Key::Esc => Some(Command::Cancel),
        Key::Down => Some(Command::NextItem),
        Key::Up => Some(Command::PreviousItem),
        Key::PageUp => Some(Command::PreviousMonth),
        Key::PageDown => Some(Command::NextMonth),
        Key::Char(']') | Key::Right => Some(Command::NextYear),
        Key::Char('[') | Key::Left => Some(Command::PreviousYear),
        Key::Enter => Some(Command::ToggleExpand),
        _ => None,
    }
}

/// What a key does on one of the two summary screens.
pub fn handle_summary_mode(mode: AppMode, p: KeyPress) -> (r: Option<Command>)
    ensures
        r == (if mode == AppMode::Summary {
            summary_keys(p)
        } else if mode == AppMode::CategorySummary {
            category_summary_keys(p)
        } else {
            None
        }),
{
    match mode {
        AppMode::Summary => handle_regular_summary(p),
        AppMode::CategorySummary => handle_category_summary(p),
        _ => None,
    }
}

/// A picker (categories, subcategories, frequencies): up and down move, Enter takes the
/// entry, Esc leaves it unchanged.
pub open spec fn selection_keys(p: KeyPress) -> Option<Command> {
    match p.key {
        Key::Esc => Some(Command::Cancel),
        Key::Enter => Some(Command::Confirm),
        Key::Down => Some(Command::NextItem),
        Key::Up => Some(Command::PreviousItem),
        _ => None,
    }
}

/// What a key does in a picker.
pub fn handle_selection_mode(p: KeyPress) -> (r: Option<Command>)
    ensures
        r == selection_keys(p),
{
    match p.key {
        Key::Esc => Some(Command::Cancel),
        Key::Enter => Some(Command::Confirm),
        Key::Down => Some(Command::NextItem),
        Key::Up => Some(Command::PreviousItem),
        _ => None,
    }
}

/// The settings screen: Enter saves, Esc leaves; Ctrl+D restores the default path, Ctrl+U
/// and Delete clear the field.
pub open spec fn settings_keys(p: KeyPress) -> Option<Command> {
    match (p.key, p.modifiers) {
        (Key::Esc, Modifiers::Plain) => Some(Command::Cancel),
        (Key::Enter, Modifiers::Plain) => Some(Command::Confirm),
        (Key::Char('d'), Modifiers::Control) => Some(Command::ResetToDefault),
        (Key::Char('u'), Modifiers::Control) => Some(Command::ClearField),
        (Key::Tab, Modifiers::Plain) | (Key::Down, Modifiers::Plain) => Some(Command::NextField),
        (Key::BackTab, Modifiers::Plain) | (Key::Up, Modifiers::Plain) => Some(
            Command::PreviousField,
        ),
        (Key::Left, Modifiers::Plain) => Some(Command::CursorLeft),
        (Key::Right, Modifiers::Plain) => Some(Command::CursorRight),
        (Key::Char(c), Modifiers::Plain) | (Key::Char(c), Modifiers::Shift) => Some(
            Command::Insert(c),
        ),
        (Key::Backspace, Modifiers::Plain) => Some(Command::DeleteBefore),
        (Key::Delete, Modifiers::Plain) => Some(Command::ClearField),
        _ => None,
    }
}

/// What a key does on the settings screen.
pub fn handle_settings_mode(p: KeyPress) -> (r: Option<Command>)
    ensures
        r == settings_keys(p),
{
    match (p.key, p.modifiers) {
        (Key::Esc, Modifiers::Plain) => Some(Command::Cancel),
        (Key::Enter, Modifiers::Plain) => Some(Command::Confirm),
        (Key::Char('d'), Modifiers::Control) => Some(Command::ResetToDefault),
        (Key::Char('u'), Modifiers::Control) => Some(Command::ClearField),
        (Key::Tab, Modifiers::Plain) | (Key::Down, Modifiers::Plain) => Some(Command::NextField),
        (Key::BackTab, Modifiers::Plain) | (Key::Up, Modifiers::Plain) => Some(
            Command::PreviousField,
        ),
        (Key::Left, Modifiers::Plain) => Some(Command::CursorLeft),
        (Key::Right, Modifiers::Plain) => Some(Command::CursorRight),
        (Key::Char(c), Modifiers::Plain) | (Key::Char(c), Modifiers::Shift) => Some(
            Command::Insert(c),
        ),
        (Key::Backspace, Modifiers::Plain) => Some(Command::DeleteBefore),
        (Key::Delete, Modifiers::Plain) => Some(Command::ClearField),
        _ => None,
    }
}

/// The recurring-settings form, by the focused field: Enter opens the frequency picker or
/// saves; the arrows flip the switch or step the end date, which takes only digits.
pub open spec fn recurring_keys(focused: RecurringField, p: KeyPress) -> Option<Command> {
    match (p.modifiers, p.key) {
        (Modifiers::Plain, Key::Esc) => Some(Command::Cancel),
        (Modifiers::Plain, Key::Enter) => match focused {
            RecurringField::Frequency => Some(Command::StartFrequencySelection),
            _ => Some(Command::Confirm),
        },
        (Modifiers::Plain, Key::Tab) | (Modifiers::Plain, Key::Down) => Some(Command::NextField),
        (Modifiers::Plain, Key::BackTab) | (Modifiers::Plain, Key::Up) => Some(
            Command::PreviousField,
        ),
        (Modifiers::Plain, Key::Left) => match focused {
            RecurringField::IsRecurring => Some(Command::ToggleValue),
            RecurringField::EndDate => Some(Command::DecrementDate),
            RecurringField::Frequency => None,
        },
        (Modifiers::Plain, Key::Right) => match focused {
            RecurringField::IsRecurring => Some(Command::ToggleValue),
            RecurringField::EndDate => Some(Command::IncrementDate),
            RecurringField::Frequency => None,
        },
        (Modifiers::Shift, Key::Left) => if focused == RecurringField::EndDate {
            Some(Command::DecrementMonth)
        } else {
            None
        },
        (Modifiers::Shift, Key::Right) => if focused == RecurringField::EndDate {
            Some(Command::IncrementMonth)
        } else {
            None
        },
        (Modifiers::Plain, Key::Char(c)) => if focused == RecurringField::EndDate {
            if c == '+' || c == '=' {
                Some(Command::IncrementDate)
            } else if c == '-' {
                Some(Command::DecrementDate)
            } else if is_digit(c) {
                Some(Command::Insert(c))
            } else {
                None
            }
        } else {
            None
        },
        (Modifiers::Plain, Key::Backspace) => if focused == RecurringField::EndDate {
            Some(Command::DeleteBefore)
        } else {
            None
        },
        _ => None,
    }
}

/// What a key does in the recurring-settings form with `focused` focused.
pub fn handle_recurring_mode(focused: RecurringField, p: KeyPress) -> (r: Option<Command>)
    ensures
        r == recurring_keys(focused, p),
{
    match (p.modifiers, p.key) {
        (Modifiers::Plain, Key::Esc) => Some(Command::Cancel),
        (Modifiers::Plain, Key::Enter) => match focused {
            RecurringField::Frequency => Some(Command::StartFrequencySelection),
            _ => Some(Command::Confirm),
        },
        (Modifiers::Plain, Key::Tab) | (Modifiers::Plain, Key::Down) => Some(Command::NextField),
        (Modifiers::Plain, Key::BackTab) | (Modifiers::Plain, Key::Up) => Some(
            Command::PreviousField,
        ),
        (Modifiers::Plain, Key::Left) => match focused {
            RecurringField::IsRecurring => Some(Command::ToggleValue),
            RecurringField::EndDate => Some(Command::DecrementDate),
            RecurringField::Frequency => None,
        },
        (Modifiers::Plain, Key::Right) => match focused {
            RecurringField::IsRecurring => Some(Command::ToggleValue),
            RecurringField::EndDate => Some(Command::IncrementDate),
            RecurringField::Frequency => None,
        },
        (Modifiers::Shift, Key::Left) => if focused == RecurringField::EndDate {
            Some(Command::DecrementMonth)
        } else {
            None
        },
        (Modifiers::Shift, Key::Right) => if focused == RecurringField::EndDate {
            Some(Command::IncrementMonth)
        } else {
            None
        },
        (Modifiers::Plain, Key::Char(c)) => if focused == RecurringField::EndDate {
            if c == '+' || c == '=' {
                Some(Command::IncrementDate)
            } else if c == '-' {
                Some(Command::DecrementDate)
            } else if char_is_digit(c) {
                Some(Command::Insert(c))
            } else {
                None
            }
        } else {
            None
        },
        (Modifiers::Plain, Key::Backspace) => if focused == RecurringField::EndDate {
            Some(Command::DeleteBefore)
        } else {
            None
        },
        _ => None,
    }
}

/// The key list and its detail view: on the list, up/down (or `k`/`j`) and the Page keys
/// move, Enter opens the detail, Esc or `q` closes; on the detail, Esc, Enter or `q` goes
/// back to the list.
pub open spec fn help_keys(mode: AppMode, p: KeyPress) -> Option<Command> {
    if mode == AppMode::KeybindingDetail {
        match p.key {
            Key::Esc | Key::Enter | Key::Char('q') => Some(Command::Cancel),
            _ => None,
        }
    } else {
        match p.key {
            Key::Esc | Key::Char('q') => Some(Command::Cancel),
            Key::Down | Key::Char('j') => Some(Command::NextItem),
            Key::Up | Key::Char('k') => Some(Command::PreviousItem),
            Key::PageDown => Some(Command::PageDown),
            Key::PageUp => Some(Command::PageUp),
            Key::Enter => Some(Command::OpenDetail),
            _ => None,
        }
    }
}

/// What a key does on the key list (`mode` tells the list from its detail view).
pub fn handle_help_mode(mode: AppMode, p: KeyPress) -> (r: Option<Command>)
    ensures
        r == help_keys(mode, p),
{
    if mode == AppMode::KeybindingDetail {
        match p.key {
            Key::Esc | Key::Enter | Key::Char('q') => Some(Command::Cancel),
            _ => None,
        }
    } else {
        match p.key {
            Key::Esc | Key::Char('q') => Some(Command::Cancel),
            Key::Down | Key::Char('j') => Some(Command::NextItem),
            Key::Up | Key::Char('k') => Some(Command::PreviousItem),
            Key::PageDown => Some(Command::PageDown),
            Key::PageUp => Some(Command::PageUp),
            Key::Enter => Some(Command::OpenDetail),
            _ => None,
        }
    }
}

/// The budget screen: up and down move between categories, left and right between months
/// (with Shift, years); `e` edits the selected target, `t` the monthly total, `c` opens the
/// category catalog.
pub open spec fn budget_keys(p: KeyPress) -> Option<Command> {
    match (p.key, p.modifiers) {
        (Key::Char('q'), _) | (Key::Esc, _) => Some(Command::Cancel),
        (Key::Char('e'), Modifiers::Plain) => Some(Command::EditBudgetTarget),
        (Key::Char('t'), Modifiers::Plain) => Some(Command::EditMonthlyBudget),
        (Key::Char('c'), Modifiers::Plain) => Some(Command::OpenCategoryCatalog),
        (Key::Down, Modifiers::Plain) => Some(Command::NextItem),
        (Key::Up, Modifiers::Plain) => Some(Command::PreviousItem),
        (Key::Right, Modifiers::Plain) => Some(Command::NextMonth),
        (Key::Left, Modifiers::Plain) => Some(Command::PreviousMonth),
        (Key::Right, Modifiers::Shift) => Some(Command::NextYear),
        (Key::Left, Modifiers::Shift) => Some(Command::PreviousYear),
        _ => None,
    }
}

fn budget_list_command(p: KeyPress) -> (r: Option<Command>)
    ensures
        r == budget_keys(p),
{
    match (p.key, p.modifiers) {
        (Key::Char('q'), _) | (Key::Esc, _) => Some(Command::Cancel),
        (Key::Char('e'), Modifiers::Plain) => Some(Command::EditBudgetTarget),
        (Key::Char('t'), Modifiers::Plain) => Some(Command::EditMonthlyBudget),
        (Key::Char('c'), Modifiers::Plain) => Some(Command::OpenCategoryCatalog),
        (Key::Down, Modifiers::Plain) => Some(Command::NextItem),
        (Key::Up, Modifiers::Plain) => Some(Command::PreviousItem),
        (Key::Right, Modifiers::Plain) => Some(Command::NextMonth),
        (Key::Left, Modifiers::Plain) => Some(Command::PreviousMonth),
        (Key::Right, Modifiers::Shift) => Some(Command::NextYear),
        (Key::Left, Modifiers::Shift) => Some(Command::PreviousYear),
        _ => None,
    }
}

/// The budget amount editor: typing edits the amount, up/down and Tab cycle the edit's
/// scope, Enter saves, Esc cancels.
pub open spec fn budget_editor_keys(p: KeyPress) -> Option<Command> {
    match (p.key, p.modifiers) {
        (Key::Esc, Modifiers::Plain) => Some(Command::Cancel),
        (Key::Enter, Modifiers::Plain) => Some(Command::Confirm),
        (Key::Left, Modifiers::Plain) => Some(Command::CursorLeft),
        (Key::Right, Modifiers::Plain) => Some(Command::CursorRight),
        (Key::Down, Modifiers::Plain) | (Key::Tab, Modifiers::Plain) => Some(Command::CycleScope(true)),
        (Key::Up, Modifiers::Plain) | (Key::BackTab, Modifiers::Plain) => Some(
            Command::CycleScope(false),
        ),
        (Key::Char(c), Modifiers::Plain) => Some(Command::Insert(c)),
        (Key::Backspace, Modifiers::Plain) => Some(Command::DeleteBefore),
        (Key::Delete, Modifiers::Plain) => Some(Command::DeleteAfter),
        _ => None,
    }
}

fn budget_editor_command(p: KeyPress) -> (r: Option<Command>)
    ensures
        r == budget_editor_keys(p),
{
    match (p.key, p.modifiers) {
        (Key::Esc, Modifiers::Plain) => Some(Command::Cancel),
        (Key::Enter, Modifiers::Plain) => Some(Command::Confirm),
        (Key::Left, Modifiers::Plain) => Some(Command::CursorLeft),
        (Key::Right, Modifiers::Plain) => Some(Command::CursorRight),
        (Key::Down, Modifiers::Plain) | (Key::Tab, Modifiers::Plain) => Some(Command::CycleScope(true)),
        (Key::Up, Modifiers::Plain) | (Key::BackTab, Modifiers::Plain) => Some(
            Command::CycleScope(false),
        ),
        (Key::Char(c), Modifiers::Plain) => Some(Command::Insert(c)),
        (Key::Backspace, Modifiers::Plain) => Some(Command::DeleteBefore),
        (Key::Delete, Modifiers::Plain) => Some(Command::DeleteAfter),
        _ => None,
    }
}

/// What a key does on the budget screen, or in its amount editor when `editing` is set.
pub fn handle_budget_mode(editing: bool, p: KeyPress) -> (r: Option<Command>)
    ensures
        r == (if editing {
            budget_editor_keys(p)
        } else {
            budget_keys(p)
        }),
{
    if editing {
        budget_editor_command(p)
    } else {
        budget_list_command(p)
    }
}

/// The category catalog: up and down move, `a` adds, `e` or Enter edits, `d` deletes.
pub open spec fn catalog_keys(p: KeyPress) -> Option<Command> {
    match (p.key, p.modifiers) {
        (Key::Esc, Modifiers::Plain) | (Key::Char('q'), Modifiers::Plain) => Some(Command::Cancel),
        (Key::Down, Modifiers::Plain) => Some(Command::NextItem),
        (Key::Up, Modifiers::Plain) => Some(Command::PreviousItem),
        (Key::Char('a'), Modifiers::Plain) => Some(Command::StartAdding),
        (Key::Char('e'), Modifiers::Plain) | (Key::Enter, Modifiers::Plain) => Some(
            Command::StartEditing,
        ),
        (Key::Char('d'), Modifiers::Plain) => Some(Command::PrepareDelete),
        _ => None,
    }
}

fn catalog_command(p: KeyPress) -> (r: Option<Command>)
    ensures
        r == catalog_keys(p),
{
    match (p.key, p.modifiers) {
        (Key::Esc, Modifiers::Plain) | (Key::Char('q'), Modifiers::Plain) => Some(Command::Cancel),
        (Key::Down, Modifiers::Plain) => Some(Command::NextItem),
        (Key::Up, Modifiers::Plain) => Some(Command::PreviousItem),
        (Key::Char('a'), Modifiers::Plain) => Some(Command::StartAdding),
        (Key::Char('e'), Modifiers::Plain) | (Key::Enter, Modifiers::Plain) => Some(
            Command::StartEditing,
        ),
        (Key::Char('d'), Modifiers::Plain) => Some(Command::PrepareDelete),
        _ => None,
    }
}

/// The category editor, by the focused field (0 the type, 1 to 3 the names, 4 the budget):
/// on the type, Enter and the arrows flip it; elsewhere Enter saves. The names take any
/// character, the budget only digits and a point.
pub open spec fn category_editor_keys(field: usize, p: KeyPress) -> Option<Command> {
    match (p.key, p.modifiers) {
        (Key::Esc, Modifiers::Plain) => Some(Command::Cancel),
        (Key::Tab, Modifiers::Plain) | (Key::Down, Modifiers::Plain) => Some(Command::NextField),
        (Key::BackTab, Modifiers::Plain) | (Key::Up, Modifiers::Plain) => Some(
            Command::PreviousField,
        ),
        (Key::Enter, Modifiers::Plain) => if field == 0 {
            Some(Command::ToggleValue)
        } else {
            Some(Command::Confirm)
        },
        (Key::Left, Modifiers::Plain) => if field == 0 {
            Some(Command::ToggleValue)
        } else {
            Some(Command::CursorLeft)
        },
        (Key::Right, Modifiers::Plain) => if field == 0 {
            Some(Command::ToggleValue)
        } else {
            Some(Command::CursorRight)
        },
        (Key::Char(c), Modifiers::Plain) => if 1 <= field <= 3 || (field == 4 && (is_digit(c)
            || c == '.')) {
            Some(Command::Insert(c))
        } else {
            None
        },
        (Key::Char(c), Modifiers::Shift) => if 1 <= field <= 3 {
            Some(Command::Insert(c))
        } else {
            None
        },
        (Key::Backspace, Modifiers::Plain) => if field != 0 {
            Some(Command::DeleteBefore)
        } else {
            None
        },
        (Key::Delete, Modifiers::Plain) => if field != 0 {
            Some(Command::DeleteAfter)
        } else {
            None
        },
        _ => None,
    }
}

fn category_editor_command(field: usize, p: KeyPress) -> (r: Option<Command>)
    ensures
        r == category_editor_keys(field, p),
{
    match (p.key, p.modifiers) {
        (Key::Esc, Modifiers::Plain) => Some(Command::Cancel),
        (Key::Tab, Modifiers::Plain) | (Key::Down, Modifiers::Plain) => Some(Command::NextField),
        (Key::BackTab, Modifiers::Plain) | (Key::Up, Modifiers::Plain) => Some(
            Command::PreviousField,
        ),
        (Key::Enter, Modifiers::Plain) => if field == 0 {
            Some(Command::ToggleValue)
        } else {
            Some(Command::Confirm)
        },
        (Key::Left, Modifiers::Plain) => if field == 0 {
            Some(Command::ToggleValue)
        } else {
            Some(Command::CursorLeft)
        },
        (Key::Right, Modifiers::Plain) => if field == 0 {
            Some(Command::ToggleValue)
        } else {
            Some(Command::CursorRight)
        },
        (Key::Char(c), Modifiers::Plain) => if 1 <= field && field <= 3 || (field == 4 && (char_is_digit(c)
            || c == '.')) {
            Some(Command::Insert(c))
        } else {
            None
        },
        (Key::Char(c), Modifiers::Shift) => if 1 <= field && field <= 3 {
            Some(Command::Insert(c))
        } else {
            None
        },
        (Key::Backspace, Modifiers::Plain) => if field != 0 {
            Some(Command::DeleteBefore)
        } else {
            None
        },
        (Key::Delete, Modifiers::Plain) => if field != 0 {
            Some(Command::DeleteAfter)
        } else {
            None
        },
        _ => None,
    }
}

/// What a key does on the category screens: the catalog, the editor with field `field`
/// focused, or the deletion question.
pub fn handle_category_manager_mode(mode: AppMode, field: usize, p: KeyPress) -> (r: Option<
    Command,
>)
    ensures
        r == (if mode == AppMode::CategoryCatalog {
            catalog_keys(p)
        } else if mode == AppMode::CategoryEditor {
            category_editor_keys(field, p)
        } else if mode == AppMode::ConfirmCategoryDelete {
            confirm_keys(p)
        } else {
            None
        }),
{
    match mode {
        AppMode::CategoryCatalog => catalog_command(p),
        AppMode::CategoryEditor => category_editor_command(field, p),
        AppMode::ConfirmCategoryDelete => handle_confirm_delete(p),
        _ => None,
    }
}

/// The ledger list: up and down move, Enter switches to the ledger, `a` adds, `e` renames,
/// Ctrl+C copies, `d` deletes.
pub open spec fn ledger_list_keys(p: KeyPress) -> Option<Command> {
    match (p.key, p.modifiers) {
        (Key::Esc, Modifiers::Plain) | (Key::Char('q'), Modifiers::Plain) => Some(Command::Cancel),
        (Key::Down, Modifiers::Plain) => Some(Command::NextItem),
        (Key::Up, Modifiers::Plain) => Some(Command::PreviousItem),
        (Key::Enter, Modifiers::Plain) => Some(Command::Activate),
        (Key::Char('a'), Modifiers::Plain) => Some(Command::StartAdding),
        (Key::Char('e'), Modifiers::Plain) => Some(Command::StartRenaming),
        (Key::Char('c'), Modifiers::Control) => Some(Command::StartCopying),
        (Key::Char('d'), Modifiers::Plain) => Some(Command::PrepareDelete),
        _ => None,
    }
}

fn ledger_list_command(p: KeyPress) -> (r: Option<Command>)
    ensures
        r == ledger_list_keys(p),
{
    match (p.key, p.modifiers) {
        (Key::Esc, Modifiers::Plain) | (Key::Char('q'), Modifiers::Plain) => Some(Command::Cancel),
        (Key::Down, Modifiers::Plain) => Some(Command::NextItem),
        (Key::Up, Modifiers::Plain) => Some(Command::PreviousItem),
        (Key::Enter, Modifiers::Plain) => Some(Command::Activate),
        (Key::Char('a'), Modifiers::Plain) => Some(Command::StartAdding),
        (Key::Char('e'), Modifiers::Plain) => Some(Command::StartRenaming),
        (Key::Char('c'), Modifiers::Control) => Some(Command::StartCopying),
        (Key::Char('d'), Modifiers::Plain) => Some(Command::PrepareDelete),
        _ => None,
    }
}

/// The ledger name editor: typing edits the name, Enter saves, Esc cancels.
pub open spec fn ledger_editor_keys(p: KeyPress) -> Option<Command> {
    match (p.key, p.modifiers) {
        (Key::Esc, Modifiers::Plain) => Some(Command::Cancel),
        (Key::Enter, Modifiers::Plain) => Some(Command::Confirm),
        (Key::Left, Modifiers::Plain) => Some(Command::CursorLeft),
        (Key::Right, Modifiers::Plain) => Some(Command::CursorRight),
        (Key::Char(c), Modifiers::Plain) | (Key::Char(c), Modifiers::Shift) => Some(
            Command::Insert(c),
        ),
        (Key::Backspace, Modifiers::Plain) => Some(Command::DeleteBefore),
        (Key::Delete, Modifiers::Plain) => Some(Command::DeleteAfter),
        _ => None,
    }
}

fn ledger_editor_command(p: KeyPress) -> (r: Option<Command>)
    ensures
        r == ledger_editor_keys(p),
{
    match (p.key, p.modifiers) {
        (Key::Esc, Modifiers::Plain) => Some(Command::Cancel),
        (Key::Enter, Modifiers::Plain) => Some(Command::Confirm),
        (Key::Left, Modifiers::Plain) => Some(Command::CursorLeft),
        (Key::Right, Modifiers::Plain) => Some(Command::CursorRight),
        (Key::Char(c), Modifiers::Plain) | (Key::Char(c), Modifiers::Shift) => Some(
            Command::Insert(c),
        ),
        (Key::Backspace, Modifiers::Plain) => Some(Command::DeleteBefore),
        (Key::Delete, Modifiers::Plain) => Some(Command::DeleteAfter),
        _ => None,
    }
}

/// The ledger deletion question: `y` deletes, any other key declines.
pub open spec fn confirm_ledger_delete_keys(p: KeyPress) -> Option<Command> {
    match p.key {
        Key::Char('y') | Key::Char('Y') => Some(Command::Confirm),
        _ => Some(Command::Cancel),
    }
}

fn confirm_ledger_delete_command(p: KeyPress) -> (r: Option<Command>)
    ensures
        r == confirm_ledger_delete_keys(p),
{
    match p.key {
        Key::Char('y') | Key::Char('Y') => Some(Command::Confirm),
        _ => Some(Command::Cancel),
    }
}

/// What a key does on the ledger manager's `screen`.
pub fn handle_ledger_manager_mode(screen: LedgerScreen, p: KeyPress) -> (r: Option<Command>)
    ensures
        r == (match screen {
            LedgerScreen::List => ledger_list_keys(p),
            LedgerScreen::Editor => ledger_editor_keys(p),
            LedgerScreen::ConfirmDelete => confirm_ledger_delete_keys(p),
        }),
{
    match screen {
        LedgerScreen::List => ledger_list_command(p),
        LedgerScreen::Editor => ledger_editor_command(p),
        LedgerScreen::ConfirmDelete => confirm_ledger_delete_command(p),
    }
}

/// The import/export path prompt: typing edits the path, Enter imports or exports, Ctrl+D
/// restores the default path, Ctrl+U clears it, Esc cancels.
pub open spec fn transaction_io_keys(p: KeyPress) -> Option<Command> {
    match (p.key, p.modifiers) {
        (Key::Esc, Modifiers::Plain) => Some(Command::Cancel),
        (Key::Enter, Modifiers::Plain) => Some(Command::Confirm),
        (Key::Char('d'), Modifiers::Control) => Some(Command::ResetToDefault),
        (Key::Char('u'), Modifiers::Control) => Some(Command::ClearField),
        (Key::Left, Modifiers::Plain) => Some(Command::CursorLeft),
        (Key::Right, Modifiers::Plain) => Some(Command::CursorRight),
        (Key::Char(c), Modifiers::Plain) | (Key::Char(c), Modifiers::Shift) => Some(
            Command::Insert(c),
        ),
        (Key::Backspace, Modifiers::Plain) => Some(Command::DeleteBefore),
        (Key::Delete, Modifiers::Plain) => Some(Command::DeleteAfter),
        _ => None,
    }
}

/// What a key does at the import/export path prompt.
pub fn handle_transaction_io_mode(p: KeyPress) -> (r: Option<Command>)
    ensures
        r == transaction_io_keys(p),
{
    match (p.key, p.modifiers) {
        (Key::Esc, Modifiers::Plain) => Some(Command::Cancel),
        (Key::Enter, Modifiers::Plain) => Some(Command::Confirm),
        (Key::Char('d'), Modifiers::Control) => Some(Command::ResetToDefault),
        (Key::Char('u'), Modifiers::Control) => Some(Command::ClearField),
        (Key::Left, Modifiers::Plain) => Some(Command::CursorLeft),
        (Key::Right, Modifiers::Plain) => Some(Command::CursorRight),
        (Key::Char(c), Modifiers::Plain) | (Key::Char(c), Modifiers::Shift) => Some(
            Command::Insert(c),
        ),
        (Key::Backspace, Modifiers::Plain) => Some(Command::DeleteBefore),
        (Key::Delete, Modifiers::Plain) => Some(Command::DeleteAfter),
        _ => None,
    }
}

/// Which field has the focus on each form, and whether the budget amount editor is open:
/// the state besides the screen that decides what a key does.
#[derive(Debug, Clone, Copy, PartialEq, Eq, Structural)]
pub struct FocusState {
    pub form: AddEditField,
    pub advanced: AdvancedFilterField,
    pub recurring: RecurringField,
    pub category_field: usize,
    pub editing_budget: bool,
}

pub open spec fn is_help_mode(mode: AppMode) -> bool {
    mode == AppMode::KeybindingsInfo || mode == AppMode::KeybindingDetail
}

/// The press is Ctrl+H, which opens and closes the key list from every screen.
pub open spec fn is_help_toggle(p: KeyPress) -> bool {
    p.modifiers == Modifiers::Control && p.key == Key::Char('h')
}

/// The key map of each screen.
pub open spec fn screen_keys(mode: AppMode, focus: FocusState, p: KeyPress) -> Option<Command> {
    match mode {
        AppMode::KeybindingsInfo | AppMode::KeybindingDetail => help_keys(mode, p),
        AppMode::Normal => normal_keys(p),
        AppMode::Adding | AppMode::Editing => add_edit_keys(focus.form, p),
        AppMode::ConfirmDelete => confirm_keys(p),
        AppMode::Filtering => simple_filter_keys(p),
        AppMode::AdvancedFiltering => advanced_filter_keys(focus.advanced, p),
        AppMode::FuzzyFinding => fuzzy_search_keys(p),
        AppMode::Summary => summary_keys(p),
        AppMode::CategorySummary => category_summary_keys(p),
        AppMode::SelectingCategory
        | AppMode::SelectingSubcategory
        | AppMode::SelectingFilterCategory
        | AppMode::SelectingFilterSubcategory
        | AppMode::SelectingRecurrenceFrequency => selection_keys(p),
        AppMode::Settings => settings_keys(p),
        AppMode::RecurringSettings => recurring_keys(focus.recurring, p),
        AppMode::Budget => if focus.editing_budget {
            budget_editor_keys(p)
        } else {
            budget_keys(p)
        },
        AppMode::CategoryCatalog => catalog_keys(p),
        AppMode::CategoryEditor => category_editor_keys(focus.category_field, p),
        AppMode::ConfirmCategoryDelete => confirm_keys(p),
        AppMode::ImportTransactions | AppMode::ExportTransactions => transaction_io_keys(p),
    }
}

/// What a press does: while the update notice is shown, any key closes it (Enter and `o`
/// also open the releases page); otherwise Ctrl+H toggles the key list, and every other press
/// goes to the screen's key map.
pub open spec fn route_keys(mode: AppMode, notice: bool, focus: FocusState, p: KeyPress) -> Option<
    Command,
> {
    if notice {
        Some(Command::DismissUpdate(p.key == Key::Enter || p.key == Key::Char('o')))
    } else if is_help_toggle(p) {
        Some(Command::ToggleHelp)
    } else {
        screen_keys(mode, focus, p)
    }
}

/// What a key press does on screen `mode`, with the update notice shown or not.
pub fn update(mode: AppMode, notice: bool, focus: FocusState, p: KeyPress) -> (r: Option<Command>)
    ensures
        r == route_keys(mode, notice, focus, p),
{
    if notice {
        let open = match p.key {
            Key::Enter | Key::Char('o') => true,
            _ => false,
        };
        return Some(Command::DismissUpdate(open));
    }
    if p.modifiers == Modifiers::Control && p.key == Key::Char('h') {
        return Some(Command::ToggleHelp);
    }
    match mode {
        AppMode::KeybindingsInfo | AppMode::KeybindingDetail => handle_help_mode(mode, p),
        AppMode::Normal => handle_normal_mode(p),
        AppMode::Adding | AppMode::Editing => handle_add_edit_mode(focus.form, p),
        AppMode::ConfirmDelete => handle_confirm_delete(p),
        AppMode::Filtering | AppMode::AdvancedFiltering => handle_filter_mode(
            mode,
            focus.advanced,
            p,
        ),
        AppMode::FuzzyFinding => handle_fuzzy_search_mode(p),
        AppMode::Summary | AppMode::CategorySummary => handle_summary_mode(mode, p),
        AppMode::SelectingCategory
        | AppMode::SelectingSubcategory
        | AppMode::SelectingFilterCategory
        | AppMode::SelectingFilterSubcategory
        | AppMode::SelectingRecurrenceFrequency => handle_selection_mode(p),
        AppMode::Settings => handle_settings_mode(p),
        AppMode::RecurringSettings => handle_recurring_mode(focus.recurring, p),
        AppMode::Budget => handle_budget_mode(focus.editing_budget, p),
        AppMode::CategoryCatalog | AppMode::CategoryEditor | AppMode::ConfirmCategoryDelete => {
            handle_category_manager_mode(mode, focus.category_field, p)
        },
        AppMode::ImportTransactions | AppMode::ExportTransactions => handle_transaction_io_mode(p),
    }
}

/// The screens where a file path is typed: the settings and the import/export prompts.
pub open spec fn path_prompt(mode: AppMode) -> bool {
    mode == AppMode::Settings || mode == AppMode::ImportTransactions || mode
        == AppMode::ExportTransactions
}

/// The presses the event loop hands on: every press without modifiers, Ctrl+H everywhere,
/// and the modified presses some screens use (Shift for capitals and month steps, Ctrl for
/// the filter, settings and jump keys).
pub open spec fn accepted(mode: AppMode, p: KeyPress) -> bool {
    ||| p.modifiers == Modifiers::Plain
    ||| (path_prompt(mode) && p.modifiers == Modifiers::Control && (p.key == Key::Char('d')
        || p.key == Key::Char('u') || p.key == Key::Char('v')))
    ||| (path_prompt(mode) && p.modifiers == Modifiers::Shift && is_char(p.key))
    ||| ((mode == AppMode::Adding || mode == AppMode::Editing || mode == AppMode::FuzzyFinding)
        && p.modifiers == Modifiers::Shift && is_char(p.key))
    ||| ((mode == AppMode::Adding || mode == AppMode::Editing || mode == AppMode::AdvancedFiltering
        || mode == AppMode::RecurringSettings) && p.modifiers == Modifiers::Shift && (p.key
        == Key::Left || p.key == Key::Right))
    ||| (mode == AppMode::Filtering && p.modifiers == Modifiers::Control && (p.key == Key::Char('f')
        || p.key == Key::Char('r')))
    ||| (mode == AppMode::AdvancedFiltering && p.modifiers == Modifiers::Control && p.key
        == Key::Char('r'))
    ||| ((mode == AppMode::Filtering || mode == AppMode::AdvancedFiltering) && p.modifiers
        == Modifiers::Shift && is_char(p.key))
    ||| (mode == AppMode::Normal && p.modifiers == Modifiers::Control && (p.key == Key::Up || p.key
        == Key::Down))
    ||| is_help_toggle(p)
}

/// Whether the event loop hands a press on screen `mode` to `update`.
pub fn accepts_key(mode: AppMode, p: KeyPress) -> (r: bool)
    ensures
        r == accepted(mode, p),
{
    let is_char_key = match p.key {
        Key::Char(_) => true,
        _ => false,
    };
    let arrow = p.key == Key::Left || p.key == Key::Right;
    let form = mode == AppMode::Adding || mode == AppMode::Editing;
    let filtering = mode == AppMode::Filtering || mode == AppMode::AdvancedFiltering;
    let path = mode == AppMode::Settings || mode == AppMode::ImportTransactions || mode
        == AppMode::ExportTransactions;
    match p.modifiers {
        Modifiers::Plain => true,
        Modifiers::Shift => (path && is_char_key) || ((form || mode
            == AppMode::FuzzyFinding) && is_char_key) || ((form || mode
            == AppMode::AdvancedFiltering || mode == AppMode::RecurringSettings) && arrow) || (
        filtering && is_char_key),
        Modifiers::Control => (path && (p.key == Key::Char('d') || p.key
            == Key::Char('u') || p.key == Key::Char('v'))) || (mode == AppMode::Filtering && (
        p.key == Key::Char('f') || p.key == Key::Char('r'))) || (mode
            == AppMode::AdvancedFiltering && p.key == Key::Char('r')) || (mode == AppMode::Normal
            && (p.key == Key::Up || p.key == Key::Down)) || p.key == Key::Char('h'),
        Modifiers::Other => false,
    }
}

/// A key press clears the status line, except on the screens that answer the status line's
/// question or show it beside a popup.
pub fn clears_status(mode: AppMode) -> (r: bool)
    ensures
        r == !(mode == AppMode::ConfirmDelete || mode == AppMode::SelectingCategory || mode
            == AppMode::SelectingSubcategory || mode == AppMode::KeybindingsInfo),
{
    !(mode == AppMode::ConfirmDelete || mode == AppMode::SelectingCategory || mode
        == AppMode::SelectingSubcategory || mode == AppMode::KeybindingsInfo)
}

/// The screen after toggling the key list, and the screen to go back to: closing returns to
/// the remembered screen (the main list if none), opening remembers the current one.
pub open spec fn help_toggled(mode: AppMode, previous: Option<AppMode>) -> (AppMode, Option<AppMode>) {
    if is_help_mode(mode) {
        (
            match previous {
                Some(m) => m,
                None => AppMode::Normal,
            },
            None,
        )
    } else {
        (AppMode::KeybindingsInfo, Some(mode))
    }
}

/// Opens or closes the key list.
pub fn toggle_help(mode: AppMode, previous: Option<AppMode>) -> (r: (AppMode, Option<AppMode>))
    ensures
        r == help_toggled(mode, previous),
{
    if mode == AppMode::KeybindingsInfo || mode == AppMode::KeybindingDetail {
        let back = match previous {
            Some(m) => m,
            None => AppMode::Normal,
        };
        (back, None)
    } else {
        (AppMode::KeybindingsInfo, Some(mode))
    }
}

/// Opening the key list and closing it again returns to the screen it was opened from, with
/// nothing remembered.
pub proof fn lemma_help_toggle_round_trip(mode: AppMode, previous: Option<AppMode>)
    requires
        !is_help_mode(mode),
    ensures
        ({
            let (m1, p1) = help_toggled(mode, previous);
            help_toggled(m1, p1) == (mode, Option::<AppMode>::None)
        }),
{
}

/// Ctrl+H reaches the key-list toggle from every screen, unless the update notice is shown.
pub proof fn lemma_help_key_everywhere(mode: AppMode, focus: FocusState)
    ensures
        accepted(mode, KeyPress { key: Key::Char('h'), modifiers: Modifiers::Control }),
        route_keys(
            mode,
            false,
            focus,
            KeyPress { key: Key::Char('h'), modifiers: Modifiers::Control },
        ) == Some(Command::ToggleHelp),
{
}

/// Esc is never ignored: on every screen it is handed on and answered (it leaves, cancels, or
/// on the quick filter resets it).
pub proof fn lemma_escape_always_answered(mode: AppMode, notice: bool, focus: FocusState)
    ensures
        accepted(mode, KeyPress { key: Key::Esc, modifiers: Modifiers::Plain }),
        route_keys(mode, notice, focus, KeyPress { key: Key::Esc, modifiers: Modifiers::Plain })
            is Some,
{
}

/// The key list's selection after a move over `len` entries: down and Page Down stop at the
/// last entry (and do nothing on an empty list), up and Page Up stop at the first.
pub open spec fn help_selected(command: Command, selected: Option<usize>, len: usize) -> Option<usize> {
    let sel: int = match selected {
        Some(s) => s as int,
        None => 0,
    };
    let step: int = if command == Command::NextItem || command == Command::PreviousItem {
        1
    } else {
        10
    };
    if command == Command::NextItem || command == Command::PageDown {
        if len == 0 {
            selected
        } else if sel + step <= len - 1 {
            Some((sel + step) as usize)
        } else {
            Some((len - 1) as usize)
        }
    } else if command == Command::PreviousItem || command == Command::PageUp {
        if sel >= step {
            Some((sel - step) as usize)
        } else {
            Some(0)
        }
    } else {
        selected
    }
}

/// Moves the key list's selection.
pub fn move_help_selection(command: Command, selected: Option<usize>, len: usize) -> (r: Option<usize>)
    ensures
        r == help_selected(command, selected, len),
        len > 0 && (command == Command::NextItem || command == Command::PageDown) ==> (r matches Some(
            s,
        ) && s < len),
{
    let sel: usize = match selected {
        Some(s) => s,
        None => 0,
    };
    let step: usize = if command == Command::NextItem || command == Command::PreviousItem {
        1
    } else {
        10
    };
    if command == Command::NextItem || command == Command::PageDown {
        if len == 0 {
            selected
        } else if sel < len && step <= len - 1 - sel {
            Some(sel + step)
        } else {
            Some(len - 1)
        }
    } else if command == Command::PreviousItem || command == Command::PageUp {
        if sel >= step {
            Some(sel - step)
        } else {
            Some(0)
        }
    } else {
        selected
    }
}

/// The table's columns in header order, numbered from 1: Date, Description, Category,
/// Subcategory, Type, Amount.
pub open spec fn column_number(c: SortColumn) -> int {
    match c {
        SortColumn::Date => 1,
        SortColumn::Description => 2,
        SortColumn::Category => 3,
        SortColumn::Subcategory => 4,
        SortColumn::Type => 5,
        SortColumn::Amount => 6,
    }
}

/// On the main list the number keys 1 to 6 and the function keys F1 to F6 sort by the column
/// with that number in the table's header, whatever modifier is held; so each key sorts by a
/// different column and every column has its key.
pub proof fn lemma_number_keys_sort_by_their_column(n: u8, m: Modifiers)
    requires
        1 <= n <= 6,
    ensures
        ({
            let digit = (('0' as u32) + (n as u32)) as char;
            &&& normal_keys(KeyPress { key: Key::Char(digit), modifiers: m }) matches Some(
                Command::SortBy(c),
            ) && column_number(c) == n
            &&& normal_keys(KeyPress { key: Key::F(n), modifiers: m }) matches Some(Command::SortBy(c))
                && column_number(c) == n
        }),
{
    let digit = (('0' as u32) + (n as u32)) as char;
    if n == 1 {
        assert(digit == '1');
    } else if n == 2 {
        assert(digit == '2');
    } else if n == 3 {
        assert(digit == '3');
    } else if n == 4 {
        assert(digit == '4');
    } else if n == 5 {
        assert(digit == '5');
    } else {
        assert(digit == '6');
    }
}

} // verus!
