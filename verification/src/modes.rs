//! The screens (modes) of the application and the kinds of text input.
use vstd::prelude::*;

verus! {

/// The screen the application is showing, which decides what each key does.
#[derive(Debug, Clone, Copy, PartialEq, Eq, Structural)]
pub enum AppMode {
    Normal,
    Adding,
    Editing,
    ConfirmDelete,
    Filtering,
    AdvancedFiltering,
    SelectingFilterCategory,
    SelectingFilterSubcategory,
    Summary,
    SelectingCategory,
    SelectingSubcategory,
    CategorySummary,
    Budget,
    Settings,
    RecurringSettings,
    SelectingRecurrenceFrequency,
    KeybindingsInfo,
    KeybindingDetail,
    FuzzyFinding,
    CategoryCatalog,
    CategoryEditor,
    ConfirmCategoryDelete,
    ImportTransactions,
    ExportTransactions,
}

/// What a text input accepts: free text, a date typed digit by digit, or an amount.
#[derive(Debug, Clone, Copy, PartialEq, Eq, Structural)]
pub enum InputType {
    Text,
    Date,
    Amount,
}

} // verus!
