pub mod budget_edits;
pub mod budget_view;
pub mod calendar;
pub mod catalog;
pub mod category_view;
pub mod date_input;
pub mod entry_form;
pub mod fields;
pub mod filter;
pub mod help;
pub mod keymap;
pub mod ledger;
pub mod modes;
pub mod money;
pub mod text;
pub mod model;
pub mod picker;
pub mod sorting;
pub mod storage;
pub mod schedule;
pub mod select;
pub mod selection;
pub mod recurring;
pub mod settings;
pub mod settings_screen;
pub mod summary;
pub mod version;
