# budget_tracker

A terminal app for tracking a personal budget: transactions with categories, recurring
transactions, filters, monthly and per-category summaries, and budgets that change over time.

The rules of the app live in a library verified with Verus (`src/`): every public function
states what it returns in its `ensures`, and the laws that relate functions are proof functions
(`lemma_*`). The terminal program around it is ordinary Rust (`app/`): the event loop, drawing,
the SQLite statements, CSV import and export, the settings file and the update check.

## Layout

- `src/model.rs`, `calendar.rs`, `money.rs`, `text.rs`: transactions and categories, dates,
  amounts (as `Decimal` mantissa and scale) and the text operations the rules use.
- `src/filter.rs`, `sorting.rs`, `summary.rs`, `category_view.rs`: sorting and filtering the
  table, and the monthly and per-category totals.
- `src/recurring.rs`: generating the occurrences of recurring transactions.
- `src/schedule.rs`, `budget_edits.rs`, `budget_view.rs`: budgets by start month, how an edit of
  each scope resolves to store writes, and what those writes do to every month.
- `src/keymap.rs`, `help.rs`, `modes.rs`, `selection.rs`: what each key does on each screen.
- `src/fields.rs`, `entry_form.rs`, `date_input.rs`, `picker.rs`, `select.rs`: the forms.
- `src/settings.rs`, `settings_screen.rs`, `catalog.rs`, `ledger.rs`, `storage.rs`,
  `version.rs`: settings, the category catalog, ledgers, the store plan and the update check's
  version comparison.
- `tests/`: tests of the library on concrete values.
- `app/`: the program.
