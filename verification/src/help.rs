//! The key bindings listed on each screen's help.
use crate::keymap::{normal_keys, Command, Key, KeyPress, Modifiers};
use crate::model::SortColumn;
use crate::modes::AppMode;
use vstd::prelude::*;

verus! {

/// One key binding: the key, what it does, the group it is listed under, and an optional longer
/// explanation shown in the detail view.
#[derive(Debug, Clone, PartialEq, Eq)]
pub struct KeyBindingInfo {
    pub key: &'static str,
    pub description: &'static str,
    pub group: &'static str,
    pub extended_description: Option<&'static str>,
}

impl KeyBindingInfo {
    pub fn new(
        key: &'static str,
        description: &'static str,
        group: &'static str,
        extended_description: Option<&'static str>,
    ) -> (r: Self)
        ensures
            r == (KeyBindingInfo { key, description, group, extended_description }),
    {
        KeyBindingInfo { key, description, group, extended_description }
    }
}

/// The bindings listed for each screen, in the order the help shows them.
pub open spec fn help_table(mode: AppMode) -> Seq<KeyBindingInfo> {
    match mode {
        AppMode::Normal => seq![
            KeyBindingInfo { key: "↑/↓", description: "Navigate transactions", group: "Navigation", extended_description: None },
            KeyBindingInfo { key: "PgUp/PgDn", description: "Scroll page up/down", group: "Navigation", extended_description: None },
            KeyBindingInfo { key: "Ctrl+Up/Down", description: "Jump to First/Last", group: "Navigation", extended_description: None },
            KeyBindingInfo { key: "a", description: "Add new transaction", group: "Actions", extended_description: Some("Opens the 'Add Transaction' form where you can input details like date, amount, category, etc.") },
            KeyBindingInfo { key: "e", description: "Edit selected transaction", group: "Actions", extended_description: Some("Opens the edit mode for the currently selected transaction.") },
            KeyBindingInfo { key: "d", description: "Delete selected transaction", group: "Actions", extended_description: Some("Prompts for confirmation to delete the selected transaction.") },
            KeyBindingInfo { key: "r", description: "Manage recurring transactions", group: "Actions", extended_description: Some("Opens the recurring transactions manager.") },
            KeyBindingInfo { key: "f", description: "Filter transactions", group: "Actions", extended_description: Some("Enables simple filtering mode. Type to filter by any field.") },
            KeyBindingInfo { key: "s", description: "Monthly Summary", group: "Actions", extended_description: Some("View a monthly breakdown of income vs expenses.") },
            KeyBindingInfo { key: "c", description: "Category Summary", group: "Actions", extended_description: Some("View expenses broken down by category and subcategory.") },
            KeyBindingInfo { key: "o", description: "Settings", group: "Actions", extended_description: Some("Open application settings (data file path, etc).") },
            KeyBindingInfo { key: "1/F1", description: "Sort by Date", group: "Sorting", extended_description: None },
            KeyBindingInfo { key: "2/F2", description: "Sort by Description", group: "Sorting", extended_description: None },
            KeyBindingInfo { key: "3/F3", description: "Sort by Category", group: "Sorting", extended_description: None },
            KeyBindingInfo { key: "4/F4", description: "Sort by Subcategory", group: "Sorting", extended_description: None },
            KeyBindingInfo { key: "5/F5", description: "Sort by Type", group: "Sorting", extended_description: None },
            KeyBindingInfo { key: "6/F6", description: "Sort by Amount", group: "Sorting", extended_description: None },
            KeyBindingInfo { key: "q/Esc", description: "Quit Application", group: "System", extended_description: None },
            KeyBindingInfo { key: "Ctrl+H", description: "Show Keybindings Help", group: "System", extended_description: Some("Shows this help menu.") },
        ],
        AppMode::Adding | AppMode::Editing => seq![
            KeyBindingInfo { key: "Tab/↑/↓", description: "Navigate fields", group: "Navigation", extended_description: None },
            KeyBindingInfo { key: "Date Field", description: "Transaction Date (YYYY-MM-DD)", group: "Fields", extended_description: Some("Enter the date of the transaction (YYYY-MM-DD). Use Arrow keys to adjust day by day. Hold Shift + Arrow keys to jump by month. Accurate dating helps with monthly filtering.") },
            KeyBindingInfo { key: "Amount Field", description: "Transaction Amount", group: "Fields", extended_description: Some("Numerical value of the transaction. Positive numbers are standard. The 'Type' field determines if it's income or expense. For expenses, enter the positive cost.") },
            KeyBindingInfo { key: "Category", description: "Main Category", group: "Fields", extended_description: Some("Primary classification (e.g., 'Food', 'Housing'). Press Enter to open a selection list of existing categories or type a new one to create it.") },
            KeyBindingInfo { key: "Subcategory", description: "Sub Category", group: "Fields", extended_description: Some("More specific classification (e.g., 'Groceries', 'Rent'). Useful for detailed breakdown in the Category Summary view.") },
            KeyBindingInfo { key: "Type", description: "Expense / Income", group: "Fields", extended_description: Some("Classifies the transaction as 'Expense' or 'Income'. This affects how totals are calculated in summaries. Use Left/Right arrows to toggle.") },
            KeyBindingInfo { key: "Description", description: "Notes / Details", group: "Fields", extended_description: Some("Optional details about the transaction. Add context that doesn't fit in categories.") },
            KeyBindingInfo { key: "←/→", description: "Toggle type / Adjust date", group: "Input", extended_description: None },
            KeyBindingInfo { key: "Shift+←/→", description: "Jump month (Date field)", group: "Input", extended_description: Some("In date fields, moves date by one month instead of one day.") },
            KeyBindingInfo { key: "Enter", description: "Save transaction", group: "Actions", extended_description: None },
            KeyBindingInfo { key: "Esc", description: "Cancel", group: "Actions", extended_description: None },
            KeyBindingInfo { key: "Ctrl+H", description: "Show Keybindings Help", group: "System", extended_description: None },
        ],
        AppMode::ConfirmDelete => seq![
            KeyBindingInfo { key: "y", description: "Confirm deletion", group: "Actions", extended_description: None },
            KeyBindingInfo { key: "n/Esc", description: "Cancel deletion", group: "Actions", extended_description: None },
            KeyBindingInfo { key: "Ctrl+H", description: "Show Keybindings Help", group: "System", extended_description: None },
        ],
        AppMode::Filtering => seq![
            KeyBindingInfo { key: "Any Char", description: "Type filter text", group: "Input", extended_description: None },
            KeyBindingInfo { key: "Bksp/Del", description: "Delete character", group: "Input", extended_description: None },
            KeyBindingInfo { key: "←/→", description: "Move cursor", group: "Navigation", extended_description: None },
            KeyBindingInfo { key: "Ctrl+F", description: "Switch to Advanced Filter", group: "Actions", extended_description: Some("Switch to advanced filtering mode for more specific criteria.") },
            KeyBindingInfo { key: "Ctrl+R", description: "Clear filter", group: "Actions", extended_description: None },
            KeyBindingInfo { key: "Enter", description: "Apply filter", group: "Actions", extended_description: None },
            KeyBindingInfo { key: "Esc", description: "Exit filtering", group: "Actions", extended_description: None },
            KeyBindingInfo { key: "Ctrl+H", description: "Show Keybindings Help", group: "System", extended_description: None },
        ],
        AppMode::AdvancedFiltering => seq![
            KeyBindingInfo { key: "Tab/↑/↓", description: "Navigate fields", group: "Navigation", extended_description: None },
            KeyBindingInfo { key: "Start Date", description: "Filter From Date", group: "Fields", extended_description: Some("Include transactions on or after this date.") },
            KeyBindingInfo { key: "End Date", description: "Filter To Date", group: "Fields", extended_description: Some("Include transactions on or before this date.") },
            KeyBindingInfo { key: "Min Amount", description: "Minimum Amount", group: "Fields", extended_description: Some("Filter transactions with amount greater than or equal to this.") },
            KeyBindingInfo { key: "Max Amount", description: "Maximum Amount", group: "Fields", extended_description: Some("Filter transactions with amount less than or equal to this.") },
            KeyBindingInfo { key: "Category", description: "Filter Category", group: "Fields", extended_description: Some("Filter by specific category.") },
            KeyBindingInfo { key: "Subcategory", description: "Filter Subcategory", group: "Fields", extended_description: Some("Filter by specific subcategory.") },
            KeyBindingInfo { key: "Type", description: "Filter Type", group: "Fields", extended_description: Some("Filter by Expense or Income.") },
            KeyBindingInfo { key: "Desc", description: "Filter Description", group: "Fields", extended_description: Some("Filter by text in description.") },
            KeyBindingInfo { key: "Ctrl+R", description: "Clear all filters", group: "Actions", extended_description: None },
            KeyBindingInfo { key: "Enter", description: "Save & Apply", group: "Actions", extended_description: None },
            KeyBindingInfo { key: "Esc", description: "Cancel", group: "Actions", extended_description: None },
            KeyBindingInfo { key: "Ctrl+H", description: "Show Keybindings Help", group: "System", extended_description: None },
        ],
        AppMode::Summary => seq![
            KeyBindingInfo { key: "↑/↓", description: "Change Month", group: "Navigation", extended_description: None },
            KeyBindingInfo { key: "←/→", description: "Change Year", group: "Navigation", extended_description: None },
            KeyBindingInfo { key: "m", description: "Toggle Multi-Month View", group: "View", extended_description: Some("Switch between single month view and multi-month view.") },
            KeyBindingInfo { key: "c", description: "Toggle Cumulative View", group: "View", extended_description: Some("Toggle cumulative (running total) view.") },
            KeyBindingInfo { key: "q/Esc", description: "Back to Transactions", group: "Actions", extended_description: None },
            KeyBindingInfo { key: "Ctrl+H", description: "Show Keybindings Help", group: "System", extended_description: None },
        ],
        AppMode::CategorySummary => seq![
            KeyBindingInfo { key: "↑/↓", description: "Select Category/Subcategory", group: "Navigation", extended_description: None },
            KeyBindingInfo { key: "←/→", description: "Change Year", group: "Navigation", extended_description: None },
            KeyBindingInfo { key: "PgUp/PgDn", description: "Jump Month (if expanded)", group: "Navigation", extended_description: None },
            KeyBindingInfo { key: "Enter", description: "Expand/Collapse Category", group: "Actions", extended_description: None },
            KeyBindingInfo { key: "q/Esc", description: "Back to Transactions", group: "Actions", extended_description: None },
            KeyBindingInfo { key: "Ctrl+H", description: "Show Keybindings Help", group: "System", extended_description: None },
        ],
        AppMode::Settings => seq![
            KeyBindingInfo { key: "Tab/↑/↓", description: "Navigate settings", group: "Navigation", extended_description: None },
            KeyBindingInfo { key: "Data Path", description: "File Location", group: "Fields", extended_description: Some("Path to the CSV file where transactions are stored. Tip: You can set this to a file in your iCloud Drive, Google Drive, or Dropbox folder to sync your budget data across multiple devices.") },
            KeyBindingInfo { key: "Target Budget", description: "Monthly Budget Goal", group: "Fields", extended_description: Some("Set a target monthly budget amount for reference in summaries.") },
            KeyBindingInfo { key: "Hourly Rate", description: "Hourly Earning Rate", group: "Fields", extended_description: Some("Optional. Enter your hourly rate to enable viewing transaction amounts as equivalent hours worked.") },
            KeyBindingInfo { key: "Show Hours", description: "Toggle Hours View", group: "Fields", extended_description: Some("Enable to display transaction amounts in equivalent hours based on your hourly rate.") },
            KeyBindingInfo { key: "Fuzzy Search", description: "Toggle Fuzzy Search", group: "Fields", extended_description: Some("Toggle to enable fuzzy searching for categories/subcategories. When enabled, selecting 'Category' opens a search bar to filter both category and subcategory at once.") },
            KeyBindingInfo { key: "←/→", description: "Toggle Options", group: "Navigation", extended_description: Some("Use Left/Right arrow keys to change toggle settings (e.g. Yes/No).") },
            KeyBindingInfo { key: "Ctrl+D", description: "Reset to Default", group: "Actions", extended_description: None },
            KeyBindingInfo { key: "Ctrl+U", description: "Clear Field", group: "Actions", extended_description: None },
            KeyBindingInfo { key: "Enter", description: "Save Settings", group: "Actions", extended_description: None },
            KeyBindingInfo { key: "Esc", description: "Cancel / Back", group: "Actions", extended_description: None },
            KeyBindingInfo { key: "Ctrl+H", description: "Show Keybindings Help", group: "System", extended_description: None },
        ],
        AppMode::RecurringSettings => seq![
            KeyBindingInfo { key: "Tab/↑/↓", description: "Navigate fields", group: "Navigation", extended_description: None },
            KeyBindingInfo { key: "Active", description: "Enable/Disable", group: "Fields", extended_description: Some("Toggle if this transaction will be recurring.") },
            KeyBindingInfo { key: "Frequency", description: "Recurrence Interval", group: "Fields", extended_description: Some("Determines the interval for the transaction. 'Daily', 'Weekly', 'Monthly', or 'Yearly'. The app will automatically generate these transactions up to the current date when you open it.") },
            KeyBindingInfo { key: "End Date", description: "Stop Date", group: "Fields", extended_description: Some("Optional. If set, the recurring transaction will stop being generated after this date. Leave empty for indefinite recurrence.") },
            KeyBindingInfo { key: "Enter", description: "Select / Save", group: "Actions", extended_description: None },
            KeyBindingInfo { key: "Esc", description: "Cancel", group: "Actions", extended_description: None },
            KeyBindingInfo { key: "Ctrl+H", description: "Show Keybindings Help", group: "System", extended_description: None },
        ],
        AppMode::SelectingCategory | AppMode::SelectingSubcategory | AppMode::SelectingFilterCategory | AppMode::SelectingFilterSubcategory | AppMode::SelectingRecurrenceFrequency => seq![
            KeyBindingInfo { key: "↑/↓", description: "Navigate options", group: "Navigation", extended_description: None },
            KeyBindingInfo { key: "Enter", description: "Confirm Selection", group: "Actions", extended_description: None },
            KeyBindingInfo { key: "Esc", description: "Cancel Selection", group: "Actions", extended_description: None },
            KeyBindingInfo { key: "Ctrl+H", description: "Show Keybindings Help", group: "System", extended_description: None },
        ],
        AppMode::FuzzyFinding => seq![
            KeyBindingInfo { key: "Any Char", description: "Type to search", group: "Input", extended_description: Some("Type to filter the list of categories and subcategories.") },
            KeyBindingInfo { key: "↑/↓", description: "Navigate results", group: "Navigation", extended_description: None },
            KeyBindingInfo { key: "Enter", description: "Select Category", group: "Actions", extended_description: Some("Confirm selection. Auto-fills both Category and Subcategory fields.") },
            KeyBindingInfo { key: "Esc", description: "Cancel", group: "Actions", extended_description: None },
            KeyBindingInfo { key: "Ctrl+H", description: "Show Keybindings Help", group: "System", extended_description: None },
        ],
        _ => seq![
            KeyBindingInfo { key: "Ctrl+H", description: "Close Help", group: "System", extended_description: None },
            KeyBindingInfo { key: "Esc", description: "Close Help", group: "System", extended_description: None },
        ],
    }
}

/// The key bindings of a screen, in the order the help lists them.
pub fn get_help_for_mode(mode: AppMode) -> (r: Vec<KeyBindingInfo>)
    ensures
        r@ == help_table(mode),
{
    match mode {
        AppMode::Normal => vec![
            KeyBindingInfo::new("↑/↓", "Navigate transactions", "Navigation", None),
            KeyBindingInfo::new("PgUp/PgDn", "Scroll page up/down", "Navigation", None),
            KeyBindingInfo::new("Ctrl+Up/Down", "Jump to First/Last", "Navigation", None),
            KeyBindingInfo::new("a", "Add new transaction", "Actions", Some("Opens the 'Add Transaction' form where you can input details like date, amount, category, etc.")),
            KeyBindingInfo::new("e", "Edit selected transaction", "Actions", Some("Opens the edit mode for the currently selected transaction.")),
            KeyBindingInfo::new("d", "Delete selected transaction", "Actions", Some("Prompts for confirmation to delete the selected transaction.")),
            KeyBindingInfo::new("r", "Manage recurring transactions", "Actions", Some("Opens the recurring transactions manager.")),
            KeyBindingInfo::new("f", "Filter transactions", "Actions", Some("Enables simple filtering mode. Type to filter by any field.")),
            KeyBindingInfo::new("s", "Monthly Summary", "Actions", Some("View a monthly breakdown of income vs expenses.")),
            KeyBindingInfo::new("c", "Category Summary", "Actions", Some("View expenses broken down by category and subcategory.")),
            KeyBindingInfo::new("o", "Settings", "Actions", Some("Open application settings (data file path, etc).")),
            KeyBindingInfo::new("1/F1", "Sort by Date", "Sorting", None),
            KeyBindingInfo::new("2/F2", "Sort by Description", "Sorting", None),
            KeyBindingInfo::new("3/F3", "Sort by Category", "Sorting", None),
            KeyBindingInfo::new("4/F4", "Sort by Subcategory", "Sorting", None),
            KeyBindingInfo::new("5/F5", "Sort by Type", "Sorting", None),
            KeyBindingInfo::new("6/F6", "Sort by Amount", "Sorting", None),
            KeyBindingInfo::new("q/Esc", "Quit Application", "System", None),
            KeyBindingInfo::new("Ctrl+H", "Show Keybindings Help", "System", Some("Shows this help menu.")),
        ],
        AppMode::Adding | AppMode::Editing => vec![
            KeyBindingInfo::new("Tab/↑/↓", "Navigate fields", "Navigation", None),
            KeyBindingInfo::new("Date Field", "Transaction Date (YYYY-MM-DD)", "Fields", Some("Enter the date of the transaction (YYYY-MM-DD). Use Arrow keys to adjust day by day. Hold Shift + Arrow keys to jump by month. Accurate dating helps with monthly filtering.")),
            KeyBindingInfo::new("Amount Field", "Transaction Amount", "Fields", Some("Numerical value of the transaction. Positive numbers are standard. The 'Type' field determines if it's income or expense. For expenses, enter the positive cost.")),
            KeyBindingInfo::new("Category", "Main Category", "Fields", Some("Primary classification (e.g., 'Food', 'Housing'). Press Enter to open a selection list of existing categories or type a new one to create it.")),
            KeyBindingInfo::new("Subcategory", "Sub Category", "Fields", Some("More specific classification (e.g., 'Groceries', 'Rent'). Useful for detailed breakdown in the Category Summary view.")),
            KeyBindingInfo::new("Type", "Expense / Income", "Fields", Some("Classifies the transaction as 'Expense' or 'Income'. This affects how totals are calculated in summaries. Use Left/Right arrows to toggle.")),
            KeyBindingInfo::new("Description", "Notes / Details", "Fields", Some("Optional details about the transaction. Add context that doesn't fit in categories.")),
            KeyBindingInfo::new("←/→", "Toggle type / Adjust date", "Input", None),
            KeyBindingInfo::new("Shift+←/→", "Jump month (Date field)", "Input", Some("In date fields, moves date by one month instead of one day.")),
            KeyBindingInfo::new("Enter", "Save transaction", "Actions", None),
            KeyBindingInfo::new("Esc", "Cancel", "Actions", None),
            KeyBindingInfo::new("Ctrl+H", "Show Keybindings Help", "System", None),
        ],
        AppMode::ConfirmDelete => vec![
            KeyBindingInfo::new("y", "Confirm deletion", "Actions", None),
            KeyBindingInfo::new("n/Esc", "Cancel deletion", "Actions", None),
            KeyBindingInfo::new("Ctrl+H", "Show Keybindings Help", "System", None),
        ],
        AppMode::Filtering => vec![
            KeyBindingInfo::new("Any Char", "Type filter text", "Input", None),
            KeyBindingInfo::new("Bksp/Del", "Delete character", "Input", None),
            KeyBindingInfo::new("←/→", "Move cursor", "Navigation", None),
            KeyBindingInfo::new("Ctrl+F", "Switch to Advanced Filter", "Actions", Some("Switch to advanced filtering mode for more specific criteria.")),
            KeyBindingInfo::new("Ctrl+R", "Clear filter", "Actions", None),
            KeyBindingInfo::new("Enter", "Apply filter", "Actions", None),
            KeyBindingInfo::new("Esc", "Exit filtering", "Actions", None),
            KeyBindingInfo::new("Ctrl+H", "Show Keybindings Help", "System", None),
        ],
        AppMode::AdvancedFiltering => vec![
            KeyBindingInfo::new("Tab/↑/↓", "Navigate fields", "Navigation", None),
            KeyBindingInfo::new("Start Date", "Filter From Date", "Fields", Some("Include transactions on or after this date.")),
            KeyBindingInfo::new("End Date", "Filter To Date", "Fields", Some("Include transactions on or before this date.")),
            KeyBindingInfo::new("Min Amount", "Minimum Amount", "Fields", Some("Filter transactions with amount greater than or equal to this.")),
            KeyBindingInfo::new("Max Amount", "Maximum Amount", "Fields", Some("Filter transactions with amount less than or equal to this.")),
            KeyBindingInfo::new("Category", "Filter Category", "Fields", Some("Filter by specific category.")),
            KeyBindingInfo::new("Subcategory", "Filter Subcategory", "Fields", Some("Filter by specific subcategory.")),
            KeyBindingInfo::new("Type", "Filter Type", "Fields", Some("Filter by Expense or Income.")),
            KeyBindingInfo::new("Desc", "Filter Description", "Fields", Some("Filter by text in description.")),
            KeyBindingInfo::new("Ctrl+R", "Clear all filters", "Actions", None),
            KeyBindingInfo::new("Enter", "Save & Apply", "Actions", None),
            KeyBindingInfo::new("Esc", "Cancel", "Actions", None),
            KeyBindingInfo::new("Ctrl+H", "Show Keybindings Help", "System", None),
        ],
        AppMode::Summary => vec![
            KeyBindingInfo::new("↑/↓", "Change Month", "Navigation", None),
            KeyBindingInfo::new("←/→", "Change Year", "Navigation", None),
            KeyBindingInfo::new("m", "Toggle Multi-Month View", "View", Some("Switch between single month view and multi-month view.")),
            KeyBindingInfo::new("c", "Toggle Cumulative View", "View", Some("Toggle cumulative (running total) view.")),
            KeyBindingInfo::new("q/Esc", "Back to Transactions", "Actions", None),
            KeyBindingInfo::new("Ctrl+H", "Show Keybindings Help", "System", None),
        ],
        AppMode::CategorySummary => vec![
            KeyBindingInfo::new("↑/↓", "Select Category/Subcategory", "Navigation", None),
            KeyBindingInfo::new("←/→", "Change Year", "Navigation", None),
            KeyBindingInfo::new("PgUp/PgDn", "Jump Month (if expanded)", "Navigation", None),
            KeyBindingInfo::new("Enter", "Expand/Collapse Category", "Actions", None),
            KeyBindingInfo::new("q/Esc", "Back to Transactions", "Actions", None),
            KeyBindingInfo::new("Ctrl+H", "Show Keybindings Help", "System", None),
        ],
        AppMode::Settings => vec![
            KeyBindingInfo::new("Tab/↑/↓", "Navigate settings", "Navigation", None),
            KeyBindingInfo::new("Data Path", "File Location", "Fields", Some("Path to the CSV file where transactions are stored. Tip: You can set this to a file in your iCloud Drive, Google Drive, or Dropbox folder to sync your budget data across multiple devices.")),
            KeyBindingInfo::new("Target Budget", "Monthly Budget Goal", "Fields", Some("Set a target monthly budget amount for reference in summaries.")),
            KeyBindingInfo::new("Hourly Rate", "Hourly Earning Rate", "Fields", Some("Optional. Enter your hourly rate to enable viewing transaction amounts as equivalent hours worked.")),
            KeyBindingInfo::new("Show Hours", "Toggle Hours View", "Fields", Some("Enable to display transaction amounts in equivalent hours based on your hourly rate.")),
            KeyBindingInfo::new("Fuzzy Search", "Toggle Fuzzy Search", "Fields", Some("Toggle to enable fuzzy searching for categories/subcategories. When enabled, selecting 'Category' opens a search bar to filter both category and subcategory at once.")),
            KeyBindingInfo::new("←/→", "Toggle Options", "Navigation", Some("Use Left/Right arrow keys to change toggle settings (e.g. Yes/No).")),
            KeyBindingInfo::new("Ctrl+D", "Reset to Default", "Actions", None),
            KeyBindingInfo::new("Ctrl+U", "Clear Field", "Actions", None),
            KeyBindingInfo::new("Enter", "Save Settings", "Actions", None),
            KeyBindingInfo::new("Esc", "Cancel / Back", "Actions", None),
            KeyBindingInfo::new("Ctrl+H", "Show Keybindings Help", "System", None),
        ],
        AppMode::RecurringSettings => vec![
            KeyBindingInfo::new("Tab/↑/↓", "Navigate fields", "Navigation", None),
            KeyBindingInfo::new("Active", "Enable/Disable", "Fields", Some("Toggle if this transaction will be recurring.")),
            KeyBindingInfo::new("Frequency", "Recurrence Interval", "Fields", Some("Determines the interval for the transaction. 'Daily', 'Weekly', 'Monthly', or 'Yearly'. The app will automatically generate these transactions up to the current date when you open it.")),
            KeyBindingInfo::new("End Date", "Stop Date", "Fields", Some("Optional. If set, the recurring transaction will stop being generated after this date. Leave empty for indefinite recurrence.")),
            KeyBindingInfo::new("Enter", "Select / Save", "Actions", None),
            KeyBindingInfo::new("Esc", "Cancel", "Actions", None),
            KeyBindingInfo::new("Ctrl+H", "Show Keybindings Help", "System", None),
        ],
        AppMode::SelectingCategory | AppMode::SelectingSubcategory | AppMode::SelectingFilterCategory | AppMode::SelectingFilterSubcategory | AppMode::SelectingRecurrenceFrequency => vec![
            KeyBindingInfo::new("↑/↓", "Navigate options", "Navigation", None),
            KeyBindingInfo::new("Enter", "Confirm Selection", "Actions", None),
            KeyBindingInfo::new("Esc", "Cancel Selection", "Actions", None),
            KeyBindingInfo::new("Ctrl+H", "Show Keybindings Help", "System", None),
        ],
        AppMode::FuzzyFinding => vec![
            KeyBindingInfo::new("Any Char", "Type to search", "Input", Some("Type to filter the list of categories and subcategories.")),
            KeyBindingInfo::new("↑/↓", "Navigate results", "Navigation", None),
            KeyBindingInfo::new("Enter", "Select Category", "Actions", Some("Confirm selection. Auto-fills both Category and Subcategory fields.")),
            KeyBindingInfo::new("Esc", "Cancel", "Actions", None),
            KeyBindingInfo::new("Ctrl+H", "Show Keybindings Help", "System", None),
        ],
        _ => vec![
            KeyBindingInfo::new("Ctrl+H", "Close Help", "System", None),
            KeyBindingInfo::new("Esc", "Close Help", "System", None),
        ],
    }
}

/// Every screen's help lists the binding that opens the help (Ctrl+H).
pub proof fn lemma_every_screen_lists_help_key(mode: AppMode)
    ensures
        exists|i: int| 0 <= i < help_table(mode).len() && (#[trigger] help_table(mode)[i]).key@
            == "Ctrl+H"@,
{
    let t = help_table(mode);
    match mode {
        AppMode::Budget | AppMode::KeybindingsInfo | AppMode::KeybindingDetail
        | AppMode::CategoryCatalog | AppMode::CategoryEditor | AppMode::ConfirmCategoryDelete
        | AppMode::ImportTransactions | AppMode::ExportTransactions => {
            assert(t[0].key@ == "Ctrl+H"@);
        },
        _ => {
            assert(t[t.len() - 1].key@ == "Ctrl+H"@);
        },
    }
}

/// The command a main-list help line describes.
pub open spec fn described_command(description: Seq<char>) -> Option<Command> {
    if description == "Add new transaction"@ {
        Some(Command::StartAdding)
    } else if description == "Edit selected transaction"@ {
        Some(Command::StartEditing)
    } else if description == "Delete selected transaction"@ {
        Some(Command::PrepareDelete)
    } else if description == "Manage recurring transactions"@ {
        Some(Command::StartRecurringSettings)
    } else if description == "Filter transactions"@ {
        Some(Command::StartFiltering)
    } else if description == "Monthly Summary"@ {
        Some(Command::OpenSummary)
    } else if description == "Category Summary"@ {
        Some(Command::OpenCategorySummary)
    } else if description == "Settings"@ {
        Some(Command::OpenSettings)
    } else if description == "Sort by Date"@ {
        Some(Command::SortBy(SortColumn::Date))
    } else if description == "Sort by Description"@ {
        Some(Command::SortBy(SortColumn::Description))
    } else if description == "Sort by Category"@ {
        Some(Command::SortBy(SortColumn::Category))
    } else if description == "Sort by Subcategory"@ {
        Some(Command::SortBy(SortColumn::Subcategory))
    } else if description == "Sort by Type"@ {
        Some(Command::SortBy(SortColumn::Type))
    } else if description == "Sort by Amount"@ {
        Some(Command::SortBy(SortColumn::Amount))
    } else if description == "Quit Application"@ {
        Some(Command::Quit)
    } else {
        None
    }
}

/// The main list does what its help says: for every action, sorting and quitting line of the
/// main list's help, the key it names first (the letter, the digit before "/F", or "q") gives
/// the command the line describes, whatever modifier is held.
pub proof fn lemma_main_list_keys_match_help(i: int, m: Modifiers)
    requires
        0 <= i < help_table(AppMode::Normal).len(),
        described_command(help_table(AppMode::Normal)[i].description@) is Some,
    ensures
        normal_keys(
            KeyPress { key: Key::Char(help_table(AppMode::Normal)[i].key@[0]), modifiers: m },
        ) == described_command(help_table(AppMode::Normal)[i].description@),
{
    reveal_strlit("↑/↓");
    reveal_strlit("PgUp/PgDn");
    reveal_strlit("Ctrl+Up/Down");
    reveal_strlit("a");
    reveal_strlit("e");
    reveal_strlit("d");
    reveal_strlit("r");
    reveal_strlit("f");
    reveal_strlit("s");
    reveal_strlit("c");
    reveal_strlit("o");
    reveal_strlit("1/F1");
    reveal_strlit("2/F2");
    reveal_strlit("3/F3");
    reveal_strlit("4/F4");
    reveal_strlit("5/F5");
    reveal_strlit("6/F6");
    reveal_strlit("q/Esc");
    reveal_strlit("Ctrl+H");
    reveal_strlit("Navigate transactions");
    reveal_strlit("Scroll page up/down");
    reveal_strlit("Jump to First/Last");
    reveal_strlit("Add new transaction");
    reveal_strlit("Edit selected transaction");
    reveal_strlit("Delete selected transaction");
    reveal_strlit("Manage recurring transactions");
    reveal_strlit("Filter transactions");
    reveal_strlit("Monthly Summary");
    reveal_strlit("Category Summary");
    reveal_strlit("Settings");
    reveal_strlit("Sort by Date");
    reveal_strlit("Sort by Description");
    reveal_strlit("Sort by Category");
    reveal_strlit("Sort by Subcategory");
    reveal_strlit("Sort by Type");
    reveal_strlit("Sort by Amount");
    reveal_strlit("Quit Application");
    reveal_strlit("Show Keybindings Help");
    assert("Navigate transactions"@.len() == 21);
    assert("Scroll page up/down"@.len() == 19);
    assert("Jump to First/Last"@.len() == 18);
    assert("Add new transaction"@.len() == 19);
    assert("Edit selected transaction"@.len() == 25);
    assert("Delete selected transaction"@.len() == 27);
    assert("Manage recurring transactions"@.len() == 29);
    assert("Filter transactions"@.len() == 19);
    assert("Monthly Summary"@.len() == 15);
    assert("Category Summary"@.len() == 16);
    assert("Settings"@.len() == 8);
    assert("Sort by Date"@.len() == 12);
    assert("Sort by Description"@.len() == 19);
    assert("Sort by Category"@.len() == 16);
    assert("Sort by Subcategory"@.len() == 19);
    assert("Sort by Type"@.len() == 12);
    assert("Sort by Amount"@.len() == 14);
    assert("Quit Application"@.len() == 16);
    assert("Show Keybindings Help"@.len() == 21);
    assert("Navigate transactions"@[0] == 'N');
    assert("Show Keybindings Help"@[0] == 'S');
    assert("Scroll page up/down"@[1] == 'c');
    assert("Sort by Description"@[1] == 'o');
    assert("Sort by Subcategory"@[1] == 'o');
    assert("Add new transaction"@[0] == 'A');
    assert("Scroll page up/down"@[0] == 'S');
    assert("Filter transactions"@[0] == 'F');
    assert("Sort by Description"@[0] == 'S');
    assert("Sort by Subcategory"@[0] == 'S');
    assert("Category Summary"@[0] == 'C');
    assert("Sort by Category"@[0] == 'S');
    assert("Quit Application"@[0] == 'Q');
    assert("Sort by Date"@[8] == 'D');
    assert("Sort by Type"@[8] == 'T');
    assert("Sort by Description"@[8] == 'D');
    assert("Sort by Subcategory"@[8] == 'S');
    let t = help_table(AppMode::Normal);
    if i == 0 {
        assert(t[0].key@ == "↑/↓"@);
        assert(t[0].key@[0] == '↑');
        assert(t[0].description@ == "Navigate transactions"@);
    } else if i == 1 {
        assert(t[1].key@ == "PgUp/PgDn"@);
        assert(t[1].key@[0] == 'P');
        assert(t[1].description@ == "Scroll page up/down"@);
    } else if i == 2 {
        assert(t[2].key@ == "Ctrl+Up/Down"@);
        assert(t[2].key@[0] == 'C');
        assert(t[2].description@ == "Jump to First/Last"@);
    } else if i == 3 {
        assert(t[3].key@ == "a"@);
        assert(t[3].key@[0] == 'a');
        assert(t[3].description@ == "Add new transaction"@);
    } else if i == 4 {
        assert(t[4].key@ == "e"@);
        assert(t[4].key@[0] == 'e');
        assert(t[4].description@ == "Edit selected transaction"@);
    } else if i == 5 {
        assert(t[5].key@ == "d"@);
        assert(t[5].key@[0] == 'd');
        assert(t[5].description@ == "Delete selected transaction"@);
    } else if i == 6 {
        assert(t[6].key@ == "r"@);
        assert(t[6].key@[0] == 'r');
        assert(t[6].description@ == "Manage recurring transactions"@);
    } else if i == 7 {
        assert(t[7].key@ == "f"@);
        assert(t[7].key@[0] == 'f');
        assert(t[7].description@ == "Filter transactions"@);
    } else if i == 8 {
        assert(t[8].key@ == "s"@);
        assert(t[8].key@[0] == 's');
        assert(t[8].description@ == "Monthly Summary"@);
    } else if i == 9 {
        assert(t[9].key@ == "c"@);
        assert(t[9].key@[0] == 'c');
        assert(t[9].description@ == "Category Summary"@);
    } else if i == 10 {
        assert(t[10].key@ == "o"@);
        assert(t[10].key@[0] == 'o');
        assert(t[10].description@ == "Settings"@);
    } else if i == 11 {
        assert(t[11].key@ == "1/F1"@);
        assert(t[11].key@[0] == '1');
        assert(t[11].description@ == "Sort by Date"@);
    } else if i == 12 {
        assert(t[12].key@ == "2/F2"@);
        assert(t[12].key@[0] == '2');
        assert(t[12].description@ == "Sort by Description"@);
    } else if i == 13 {
        assert(t[13].key@ == "3/F3"@);
        assert(t[13].key@[0] == '3');
        assert(t[13].description@ == "Sort by Category"@);
    } else if i == 14 {
        assert(t[14].key@ == "4/F4"@);
        assert(t[14].key@[0] == '4');
        assert(t[14].description@ == "Sort by Subcategory"@);
    } else if i == 15 {
        assert(t[15].key@ == "5/F5"@);
        assert(t[15].key@[0] == '5');
        assert(t[15].description@ == "Sort by Type"@);
    } else if i == 16 {
        assert(t[16].key@ == "6/F6"@);
        assert(t[16].key@[0] == '6');
        assert(t[16].description@ == "Sort by Amount"@);
    } else if i == 17 {
        assert(t[17].key@ == "q/Esc"@);
        assert(t[17].key@[0] == 'q');
        assert(t[17].description@ == "Quit Application"@);
    } else if i == 18 {
        assert(t[18].key@ == "Ctrl+H"@);
        assert(t[18].key@[0] == 'C');
        assert(t[18].description@ == "Show Keybindings Help"@);
    }
}

} // verus!
