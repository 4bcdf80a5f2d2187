//! The settings screen: the rows it opens with, moving between editable rows, editing the
//! selected row, showing the hours toggle only while an hourly rate is set, and reading the
//! values back when the screen is saved.
use crate::entry_form::{amount_check, validate_amount_text, FormError};
use crate::money::Amount;
use crate::settings::{first_with_key, SettingItem, SettingType, SettingsState};
use crate::text::{
    chars_of, contains_spec, copy_str, strip_path_quotes, strip_quotes_spec, text_contains, to_lowercase, trim,
    trim_spec, unicode_lowercase,
};
use vstd::prelude::*;

verus! {

pub const DATABASE_PATH_KEY: &'static str = "database_path";

pub const TARGET_BUDGET_KEY: &'static str = "target_budget";

pub const HOURLY_RATE_KEY: &'static str = "hourly_rate";

pub const SHOW_HOURS_KEY: &'static str = "show_hours";

pub const FUZZY_SEARCH_KEY: &'static str = "fuzzy_search";

pub const HIDE_HELP_BAR_KEY: &'static str = "hide_help_bar";

pub const MANAGE_CATEGORIES_KEY: &'static str = "manage_categories";

pub const IMPORT_TRANSACTIONS_KEY: &'static str = "import_transactions";

pub const EXPORT_TRANSACTIONS_KEY: &'static str = "export_transactions";

/// A row as plain values: key, label, value, type and help text.
pub open spec fn row_view(i: SettingItem) -> (Seq<char>, Seq<char>, Seq<char>, SettingType, Seq<char>) {
    (i.key@, i.label@, i.value@, i.setting_type, i.help@)
}

pub open spec fn rows_view(items: Seq<SettingItem>) -> Seq<
    (Seq<char>, Seq<char>, Seq<char>, SettingType, Seq<char>),
> {
    items.map_values(|i: SettingItem| row_view(i))
}

/// The text of a toggle row.
pub open spec fn toggle_text_spec(on: bool) -> Seq<char> {
    if on {
        "◀ Yes "@
    } else {
        " No ▶"@
    }
}

/// The text a toggle row shows for `on`.
pub fn toggle_text(on: bool) -> (r: &'static str)
    ensures
        r@ == toggle_text_spec(on),
{
    if on {
        "◀ Yes "
    } else {
        " No ▶"
    }
}

/// A toggle row reads as on when its text, lower-cased, contains "yes".
pub open spec fn toggle_on(text: Seq<char>) -> bool {
    contains_spec(unicode_lowercase(text), "yes"@)
}

pub fn toggle_is_on(text: &str) -> (r: bool)
    ensures
        r == toggle_on(text@),
{
    let lower = to_lowercase(text);
    text_contains(lower.as_str(), "yes")
}

pub open spec fn header(title: Seq<char>) -> (Seq<char>, Seq<char>, Seq<char>, SettingType, Seq<char>) {
    (Seq::empty(), title, Seq::empty(), SettingType::SectionHeader, Seq::empty())
}

/// The hours toggle row, as the screen adds it.
pub open spec fn show_hours_row(on: bool) -> (Seq<char>, Seq<char>, Seq<char>, SettingType, Seq<char>) {
    (
        SHOW_HOURS_KEY@,
        "Show Costs in Hours"@,
        toggle_text_spec(on),
        SettingType::Toggle,
        "Toggle to display transaction amounts as hours worked."@,
    )
}

/// The rows the screen opens with: the database path and the category, import and export
/// actions, the target budget, the hourly rate (and
/// the hours toggle when a rate is set), the fuzzy-search and help-bar toggles, under their
/// section headers.
pub open spec fn opening_rows(
    database_path: Seq<char>,
    target_budget: Seq<char>,
    hourly_rate: Seq<char>,
    show_hours: bool,
    fuzzy_search: bool,
    hide_help_bar: bool,
) -> Seq<(Seq<char>, Seq<char>, Seq<char>, SettingType, Seq<char>)> {
    seq![
        header("Data Management"@),
        (
            DATABASE_PATH_KEY@,
            "Database Path"@,
            database_path,
            SettingType::Path,
            "Absolute path to your SQLite database (transactions and categories)."@,
        ),
        (
            MANAGE_CATEGORIES_KEY@,
            "Manage Categories"@,
            "Open Category Catalog"@,
            SettingType::Action,
            "Open the category catalog to add, edit, or delete categories."@,
        ),
        (
            IMPORT_TRANSACTIONS_KEY@,
            "Import Transactions (CSV)"@,
            "Choose a file to import"@,
            SettingType::Action,
            "Press Enter to choose a CSV file to import (new rows are added, duplicates skipped)."@,
        ),
        (
            EXPORT_TRANSACTIONS_KEY@,
            "Export Transactions (CSV)"@,
            "Choose a destination to export"@,
            SettingType::Action,
            "Press Enter to choose a destination and export all transactions to CSV."@,
        ),
        header("Monthly Summary View"@),
        (
            TARGET_BUDGET_KEY@,
            "Target Budget"@,
            target_budget,
            SettingType::Number,
            "Monthly spending goal. Displayed in Monthly Summary view only when cumulative mode."@,
        ),
        header("Transaction View"@),
        (
            HOURLY_RATE_KEY@,
            "Hourly Rate ($)"@,
            hourly_rate,
            SettingType::Number,
            "Optional. Enter your hourly earning rate to see costs in hours."@,
        ),
    ] + (if hourly_rate.len() > 0 {
        seq![show_hours_row(show_hours)]
    } else {
        Seq::empty()
    }) + seq![
        header("Input Preferences"@),
        (
            FUZZY_SEARCH_KEY@,
            "Fuzzy Search Categories"@,
            toggle_text_spec(fuzzy_search),
            SettingType::Toggle,
            "Toggle to enable fuzzy searching for categories/subcategories."@,
        ),
        header("General Preferences"@),
        (
            HIDE_HELP_BAR_KEY@,
            "Hide Help Bar (NOT RECOMMENDED)"@,
            toggle_text_spec(hide_help_bar),
            SettingType::Toggle,
            "Toggle to hide the bottom help bar (Ctrl+H will still work)."@,
        ),
    ]
}

/// The settings screen as it opens, with the database path row selected and the cursor at the
/// end of its text.
pub fn open_settings(
    database_path: String,
    target_budget: String,
    hourly_rate: String,
    show_hours: bool,
    fuzzy_search: bool,
    hide_help_bar: bool,
) -> (r: SettingsState)
    ensures
        rows_view(r.items@) == opening_rows(
            strip_quotes_spec(database_path@),
            target_budget@,
            hourly_rate@,
            show_hours,
            fuzzy_search,
            hide_help_bar,
        ),
        r.selected_index == 1,
        r.edit_cursor == strip_quotes_spec(database_path@).len(),
{
    let database_path = strip_path_quotes(database_path.as_str());
    let ghost path = database_path@;
    let ghost rate = hourly_rate@;
    let ghost budget = target_budget@;
    let cursor = database_path.as_str().unicode_len();
    let has_rate = hourly_rate.as_str().unicode_len() > 0;
    let mut items: Vec<SettingItem> = Vec::new();
    items.push(header_item("Data Management"));
    items.push(
        setting_item(
            DATABASE_PATH_KEY,
            "Database Path",
            database_path,
            SettingType::Path,
            "Absolute path to your SQLite database (transactions and categories).",
        ),
    );
    items.push(
        setting_item(
            MANAGE_CATEGORIES_KEY,
            "Manage Categories",
            copy_str("Open Category Catalog"),
            SettingType::Action,
            "Open the category catalog to add, edit, or delete categories.",
        ),
    );
    items.push(
        setting_item(
            IMPORT_TRANSACTIONS_KEY,
            "Import Transactions (CSV)",
            copy_str("Choose a file to import"),
            SettingType::Action,
            "Press Enter to choose a CSV file to import (new rows are added, duplicates skipped).",
        ),
    );
    items.push(
        setting_item(
            EXPORT_TRANSACTIONS_KEY,
            "Export Transactions (CSV)",
            copy_str("Choose a destination to export"),
            SettingType::Action,
            "Press Enter to choose a destination and export all transactions to CSV.",
        ),
    );
    items.push(header_item("Monthly Summary View"));
    items.push(
        setting_item(
            TARGET_BUDGET_KEY,
            "Target Budget",
            target_budget,
            SettingType::Number,
            "Monthly spending goal. Displayed in Monthly Summary view only when cumulative mode.",
        ),
    );
    items.push(header_item("Transaction View"));
    items.push(
        setting_item(
            HOURLY_RATE_KEY,
            "Hourly Rate ($)",
            hourly_rate,
            SettingType::Number,
            "Optional. Enter your hourly earning rate to see costs in hours.",
        ),
    );
    let ghost first = items@;
    if has_rate {
        items.push(show_hours_item(show_hours));
    }
    let ghost middle = items@;
    items.push(header_item("Input Preferences"));
    items.push(
        setting_item(
            FUZZY_SEARCH_KEY,
            "Fuzzy Search Categories",
            copy_str(toggle_text(fuzzy_search)),
            SettingType::Toggle,
            "Toggle to enable fuzzy searching for categories/subcategories.",
        ),
    );
    items.push(header_item("General Preferences"));
    items.push(
        setting_item(
            HIDE_HELP_BAR_KEY,
            "Hide Help Bar (NOT RECOMMENDED)",
            copy_str(toggle_text(hide_help_bar)),
            SettingType::Toggle,
            "Toggle to hide the bottom help bar (Ctrl+H will still work).",
        ),
    );
    proof {
        let want = opening_rows(path, budget, rate, show_hours, fuzzy_search, hide_help_bar);
        assert(rows_view(first) =~= want.take(9));
        if has_rate {
            assert(rows_view(middle) =~= want.take(10));
        } else {
            assert(rows_view(middle) =~= want.take(9));
        }
        assert(rows_view(items@) =~= want);
    }
    SettingsState { items, selected_index: 1, edit_cursor: cursor }
}

fn setting_item(key: &str, label: &str, value: String, setting_type: SettingType, help: &str) -> (r:
    SettingItem)
    ensures
        row_view(r) == (key@, label@, value@, setting_type, help@),
{
    SettingItem { key: copy_str(key), label: copy_str(label), value, setting_type, help: copy_str(help) }
}

fn header_item(title: &str) -> (r: SettingItem)
    ensures
        row_view(r) == header(title@),
{
    let r = setting_item("", title, String::new(), SettingType::SectionHeader, "");
    proof {
        reveal_strlit("");
        assert(r.key@ =~= Seq::<char>::empty());
        assert(r.help@ =~= Seq::<char>::empty());
        assert(r.value@ =~= Seq::<char>::empty());
    }
    r
}

fn show_hours_item(on: bool) -> (r: SettingItem)
    ensures
        row_view(r) == show_hours_row(on),
{
    setting_item(
        SHOW_HOURS_KEY,
        "Show Costs in Hours",
        copy_str(toggle_text(on)),
        SettingType::Toggle,
        "Toggle to display transaction amounts as hours worked.",
    )
}

/// The rows after the selected row, when it is a path, has its surrounding whitespace and quotes
/// taken off.
pub open spec fn path_stripped(s: SettingsState) -> Seq<
    (Seq<char>, Seq<char>, Seq<char>, SettingType, Seq<char>),
> {
    let sel = s.selected_index as int;
    let rows = rows_view(s.items@);
    if sel < s.items@.len() && s.items@[sel].setting_type == SettingType::Path {
        rows.update(sel, with_value(s.items@[sel], strip_quotes_spec(s.items@[sel].value@)))
    } else {
        rows
    }
}

pub open spec fn is_header(i: SettingItem) -> bool {
    i.setting_type == SettingType::SectionHeader
}

/// Some row can be selected.
pub open spec fn has_editable(items: Seq<SettingItem>) -> bool {
    exists|i: int| 0 <= i < items.len() && !is_header(#[trigger] items[i])
}

/// The position `k` rows after `from`, wrapping past the end.
pub open spec fn step_forward(from: int, k: int, len: int) -> int {
    if from + k < len {
        from + k
    } else {
        from + k - len
    }
}

/// The position `k` rows before `from`, wrapping past the start.
pub open spec fn step_back(from: int, k: int, len: int) -> int {
    if from >= k {
        from - k
    } else {
        from + len - k
    }
}

/// `n` is the first row after `from` (wrapping, `from` itself last) that is not a header.
pub open spec fn next_editable(items: Seq<SettingItem>, from: int, n: int) -> bool {
    exists|t: int|
        1 <= t <= items.len() && n == step_forward(from, t, items.len() as int) && !is_header(
            items[n],
        ) && forall|k: int|
            1 <= k < t ==> is_header(#[trigger] items[step_forward(from, k, items.len() as int)])
}

/// `n` is the first row before `from` (wrapping, `from` itself last) that is not a header.
pub open spec fn previous_editable(items: Seq<SettingItem>, from: int, n: int) -> bool {
    exists|t: int|
        1 <= t <= items.len() && n == step_back(from, t, items.len() as int) && !is_header(items[n])
            && forall|k: int|
            1 <= k < t ==> is_header(#[trigger] items[step_back(from, k, items.len() as int)])
}

/// The cursor lies within the selected row's text.
pub open spec fn cursor_ok(s: SettingsState) -> bool {
    s.selected_index < s.items@.len() ==> s.edit_cursor <= s.items@[s.selected_index as int].value@.len()
}

/// A character the amount rows accept: a digit, or a decimal point when there is none yet.
pub open spec fn amount_char_ok(value: Seq<char>, c: char) -> bool {
    ('0' <= c <= '9') || (c == '.' && !value.contains('.'))
}

/// The row's text replaced, everything else kept.
pub open spec fn with_value(i: SettingItem, value: Seq<char>) -> (Seq<char>, Seq<char>, Seq<char>, SettingType, Seq<char>) {
    (i.key@, i.label@, value, i.setting_type, i.help@)
}

fn has_dot(v: &str) -> (r: bool)
    ensures
        r == v@.contains('.'),
{
    let chars = crate::text::chars_of(v);
    let mut i: usize = 0;
    while i < chars.len()
        invariant
            chars@ == v@,
            i <= chars@.len(),
            forall|j: int| 0 <= j < i ==> chars@[j] != '.',
        decreases chars@.len() - i,
    {
        if chars[i] == '.' {
            assert(v@[i as int] == '.');
            return true;
        }
        i = i + 1;
    }
    false
}

fn with_text(item: &SettingItem, value: String) -> (r: SettingItem)
    ensures
        row_view(r) == with_value(*item, value@),
{
    SettingItem {
        key: item.key.clone(),
        label: item.label.clone(),
        value,
        setting_type: item.setting_type,
        help: item.help.clone(),
    }
}

/// The position of the first row with `key`.
fn position_of(items: &Vec<SettingItem>, key: &str) -> (r: Option<usize>)
    ensures
        r matches Some(i) ==> first_with_key(items@, key@) == Some(i as int) && i < items@.len(),
        r is None ==> first_with_key(items@, key@) is None,
{
    let mut i: usize = 0;
    while i < items.len()
        invariant
            i <= items@.len(),
            first_with_key(items@.take(i as int), key@) is None,
        decreases items@.len() - i,
    {
        proof {
            lemma_first_with_key_step(items@, key@, i as int);
        }
        if crate::text::text_eq(items[i].key.as_str(), key) {
            proof {
                lemma_first_with_key_found(items@, key@, i as int + 1);
            }
            return Some(i);
        }
        i = i + 1;
    }
    proof {
        assert(items@.take(items@.len() as int) =~= items@);
    }
    None
}

proof fn lemma_first_with_key_step(items: Seq<SettingItem>, key: Seq<char>, i: int)
    requires
        0 <= i < items.len(),
        first_with_key(items.take(i), key) is None,
    ensures
        first_with_key(items.take(i + 1), key) == (if items[i].key@ == key {
            Some(i)
        } else {
            None::<int>
        }),
{
    assert(items.take(i + 1).drop_last() =~= items.take(i));
}

proof fn lemma_first_with_key_found(items: Seq<SettingItem>, key: Seq<char>, n: int)
    requires
        0 <= n <= items.len(),
        first_with_key(items.take(n), key) is Some,
    ensures
        first_with_key(items, key) == first_with_key(items.take(n), key),
    decreases items.len() - n,
{
    if n < items.len() {
        assert(items.take(n + 1).drop_last() =~= items.take(n));
        lemma_first_with_key_found(items, key, n + 1);
    } else {
        assert(items.take(n) =~= items);
    }
}

impl SettingsState {
    /// Whether the cursor lies within the selected row's text.
    pub fn cursor_in_range(&self) -> (r: bool)
        ensures
            r == cursor_ok(*self),
    {
        self.selected_index >= self.items.len() || self.edit_cursor
            <= self.items[self.selected_index].value.as_str().unicode_len()
    }

    /// Leaves the selected row (a path row losing surrounding whitespace and quotes) and selects
    /// the next row that is not a header, wrapping at the end, with the cursor at the end of its
    /// text.
    pub fn next_settings_field(&mut self)
        requires
            old(self).items@.len() > 0 ==> old(self).selected_index < old(self).items@.len()
                && has_editable(old(self).items@),
        ensures
            rows_view(final(self).items@) == path_stripped(*old(self)),
            final(self).items@.len() == old(self).items@.len(),
            forall|i: int|
                0 <= i < final(self).items@.len() ==> #[trigger] final(self).items@[i].setting_type
                    == old(self).items@[i].setting_type,
            old(self).items@.len() == 0 ==> *final(self) == *old(self),
            old(self).items@.len() > 0 ==> next_editable(
                final(self).items@,
                old(self).selected_index as int,
                final(self).selected_index as int,
            ),
            old(self).items@.len() > 0 ==> final(self).edit_cursor
                == final(self).items@[final(self).selected_index as int].value@.len(),
    {
        let len = self.items.len();
        if len == 0 {
            return;
        }
        self.strip_selected_path();
        proof {
            let e = choose|e: int| 0 <= e < old(self).items@.len() && !is_header(
                #[trigger] old(self).items@[e],
            );
            assert(!is_header(self.items@[e]));
        }
        let ghost from = self.selected_index as int;
        let ghost items = self.items@;
        let mut idx: usize = if self.selected_index + 1 < len {
            self.selected_index + 1
        } else {
            0
        };
        let ghost mut t: int = 1;
        while self.items[idx].setting_type == SettingType::SectionHeader
            invariant
                len == items.len(),
                self.items@ == items,
                0 <= from < len,
                has_editable(items),
                1 <= t <= len,
                idx == step_forward(from, t, len as int),
                forall|k: int| 1 <= k < t ==> is_header(#[trigger] items[step_forward(from, k, len as int)]),
            decreases len - t,
        {
            proof {
                if t == len {
                    let e = choose|e: int| 0 <= e < items.len() && !is_header(#[trigger] items[e]);
                    let ke = if e > from {
                        e - from
                    } else {
                        e + len - from
                    };
                    assert(step_forward(from, ke, len as int) == e);
                    if ke < t {
                        assert(is_header(items[step_forward(from, ke, len as int)]));
                    }
                }
            }
            idx = if idx + 1 < len {
                idx + 1
            } else {
                0
            };
            proof {
                t = t + 1;
            }
        }
        self.selected_index = idx;
        self.edit_cursor = self.items[idx].value.as_str().unicode_len();
    }

    /// Leaves the selected row (a path row losing surrounding whitespace and quotes) and selects
    /// the previous row that is not a header, wrapping at the start, with the cursor at the end
    /// of its text.
    pub fn previous_settings_field(&mut self)
        requires
            old(self).items@.len() > 0 ==> old(self).selected_index < old(self).items@.len()
                && has_editable(old(self).items@),
        ensures
            rows_view(final(self).items@) == path_stripped(*old(self)),
            final(self).items@.len() == old(self).items@.len(),
            forall|i: int|
                0 <= i < final(self).items@.len() ==> #[trigger] final(self).items@[i].setting_type
                    == old(self).items@[i].setting_type,
            old(self).items@.len() == 0 ==> *final(self) == *old(self),
            old(self).items@.len() > 0 ==> previous_editable(
                final(self).items@,
                old(self).selected_index as int,
                final(self).selected_index as int,
            ),
            old(self).items@.len() > 0 ==> final(self).edit_cursor
                == final(self).items@[final(self).selected_index as int].value@.len(),
    {
        let len = self.items.len();
        if len == 0 {
            return;
        }
        self.strip_selected_path();
        proof {
            let e = choose|e: int| 0 <= e < old(self).items@.len() && !is_header(
                #[trigger] old(self).items@[e],
            );
            assert(!is_header(self.items@[e]));
        }
        let ghost from = self.selected_index as int;
        let ghost items = self.items@;
        let mut idx: usize = if self.selected_index == 0 {
            len - 1
        } else {
            self.selected_index - 1
        };
        let ghost mut t: int = 1;
        while self.items[idx].setting_type == SettingType::SectionHeader
            invariant
                len == items.len(),
                self.items@ == items,
                0 <= from < len,
                has_editable(items),
                1 <= t <= len,
                idx == step_back(from, t, len as int),
                forall|k: int| 1 <= k < t ==> is_header(#[trigger] items[step_back(from, k, len as int)]),
            decreases len - t,
        {
            proof {
                if t == len {
                    let e = choose|e: int| 0 <= e < items.len() && !is_header(#[trigger] items[e]);
                    let ke = if e < from {
                        from - e
                    } else {
                        from + len - e
                    };
                    assert(step_back(from, ke, len as int) == e);
                    if ke < t {
                        assert(is_header(items[step_back(from, ke, len as int)]));
                    }
                }
            }
            idx = if idx == 0 {
                len - 1
            } else {
                idx - 1
            };
            proof {
                t = t + 1;
            }
        }
        self.selected_index = idx;
        self.edit_cursor = self.items[idx].value.as_str().unicode_len();
    }

    /// Left: a toggle row turns off; otherwise the cursor moves left.
    pub fn move_cursor_left_settings(&mut self)
        ensures
            final(self).selected_index == old(self).selected_index,
            ({
                let sel = old(self).selected_index as int;
                if sel < old(self).items@.len() && old(self).items@[sel].setting_type
                    == SettingType::Toggle {
                    &&& rows_view(final(self).items@) == rows_view(old(self).items@).update(
                        sel,
                        with_value(old(self).items@[sel], toggle_text_spec(false)),
                    )
                    &&& final(self).edit_cursor == toggle_text_spec(false).len()
                } else {
                    &&& final(self).items@ == old(self).items@
                    &&& final(self).edit_cursor == (if old(self).edit_cursor > 0 {
                        old(self).edit_cursor - 1
                    } else {
                        0
                    })
                }
            }),
    {
        let idx = self.selected_index;
        if idx < self.items.len() && self.items[idx].setting_type == SettingType::Toggle {
            self.set_selected_text(copy_str(toggle_text(false)));
            self.edit_cursor = toggle_text(false).unicode_len();
            return;
        }
        if self.edit_cursor > 0 {
            self.edit_cursor = self.edit_cursor - 1;
        }
    }

    /// Right: a toggle row turns on; otherwise the cursor moves right within the text.
    pub fn move_cursor_right_settings(&mut self)
        ensures
            final(self).selected_index == old(self).selected_index,
            ({
                let sel = old(self).selected_index as int;
                if sel < old(self).items@.len() && old(self).items@[sel].setting_type
                    == SettingType::Toggle {
                    &&& rows_view(final(self).items@) == rows_view(old(self).items@).update(
                        sel,
                        with_value(old(self).items@[sel], toggle_text_spec(true)),
                    )
                    &&& final(self).edit_cursor == toggle_text_spec(true).len()
                } else {
                    &&& final(self).items@ == old(self).items@
                    &&& final(self).edit_cursor == (if sel < old(self).items@.len()
                        && old(self).edit_cursor < old(self).items@[sel].value@.len() {
                        old(self).edit_cursor + 1
                    } else {
                        old(self).edit_cursor as int
                    })
                }
            }),
    {
        let idx = self.selected_index;
        if idx < self.items.len() {
            if self.items[idx].setting_type == SettingType::Toggle {
                self.set_selected_text(copy_str(toggle_text(true)));
                self.edit_cursor = toggle_text(true).unicode_len();
                return;
            }
            if self.edit_cursor < self.items[idx].value.as_str().unicode_len() {
                self.edit_cursor = self.edit_cursor + 1;
            }
        }
    }

    /// Replaces the selected row's text.
    /// Leaving a path row takes its surrounding whitespace and quotes off.
    fn strip_selected_path(&mut self)
        ensures
            rows_view(final(self).items@) == path_stripped(*old(self)),
            final(self).items@.len() == old(self).items@.len(),
            forall|i: int|
                0 <= i < final(self).items@.len() ==> #[trigger] final(self).items@[i].setting_type
                    == old(self).items@[i].setting_type,
            final(self).selected_index == old(self).selected_index,
            final(self).edit_cursor == old(self).edit_cursor,
    {
        let idx = self.selected_index;
        if idx < self.items.len() && self.items[idx].setting_type == SettingType::Path {
            let v = strip_path_quotes(self.items[idx].value.as_str());
            self.set_selected_text(v);
        }
    }

    fn set_selected_text(&mut self, value: String)
        requires
            old(self).selected_index < old(self).items@.len(),
        ensures
            rows_view(final(self).items@) == rows_view(old(self).items@).update(
                old(self).selected_index as int,
                with_value(old(self).items@[old(self).selected_index as int], value@),
            ),
            final(self).items@.len() == old(self).items@.len(),
            forall|i: int|
                0 <= i < final(self).items@.len() ==> #[trigger] final(self).items@[i].setting_type
                    == old(self).items@[i].setting_type,
            final(self).items@[old(self).selected_index as int].value@ == value@,
            final(self).selected_index == old(self).selected_index,
            final(self).edit_cursor == old(self).edit_cursor,
    {
        let idx = self.selected_index;
        let item = with_text(&self.items[idx], value);
        self.items.set(idx, item);
        proof {
            assert(rows_view(self.items@) =~= rows_view(old(self).items@).update(
                idx as int,
                with_value(old(self).items@[idx as int], self.items@[idx as int].value@),
            ));
        }
    }
}

/// The position of the first row (as plain values) with `key`.
pub open spec fn first_key(
    rows: Seq<(Seq<char>, Seq<char>, Seq<char>, SettingType, Seq<char>)>,
    key: Seq<char>,
) -> Option<int>
    decreases rows.len(),
{
    if rows.len() == 0 {
        None
    } else {
        match first_key(rows.drop_last(), key) {
            Some(i) => Some(i),
            None => if rows.last().0 == key {
                Some(rows.len() - 1)
            } else {
                None
            },
        }
    }
}

proof fn lemma_first_key_view(items: Seq<SettingItem>, key: Seq<char>)
    ensures
        first_with_key(items, key) == first_key(rows_view(items), key),
    decreases items.len(),
{
    if items.len() > 0 {
        assert(rows_view(items).drop_last() =~= rows_view(items.drop_last()));
        lemma_first_key_view(items.drop_last(), key);
    }
}

/// The rows and selection after showing the hours toggle while an hourly rate is set (right
/// after the rate, off) and hiding it otherwise; the selection follows its row.
pub open spec fn visible_rows(
    rows: Seq<(Seq<char>, Seq<char>, Seq<char>, SettingType, Seq<char>)>,
    sel: int,
) -> (Seq<(Seq<char>, Seq<char>, Seq<char>, SettingType, Seq<char>)>, int) {
    let show = first_key(rows, SHOW_HOURS_KEY@);
    let rate = first_key(rows, HOURLY_RATE_KEY@);
    let set = match rate {
        Some(i) => trim_spec(rows[i].2).len() > 0,
        None => false,
    };
    if set && show is None {
        let a = rate->0;
        (rows.insert(a + 1, show_hours_row(false)), if sel > a {
            sel + 1
        } else {
            sel
        })
    } else if !set && show is Some {
        let t = show->0;
        (rows.remove(t), if sel >= t {
            if sel > 0 {
                sel - 1
            } else {
                0
            }
        } else {
            sel
        })
    } else {
        (rows, sel)
    }
}

/// The rows and cursor after typing `c` into the selected row: an amount row takes digits and
/// one decimal point at its end; a path row takes any character at the cursor and then loses
/// surrounding whitespace and quotes (the cursor going to its end when that took anything off);
/// headers, toggles and actions take none.
pub open spec fn typed_rows(s: SettingsState, c: char) -> (
    Seq<(Seq<char>, Seq<char>, Seq<char>, SettingType, Seq<char>)>,
    int,
) {
    let sel = s.selected_index as int;
    let it = s.items@[sel];
    let rows = rows_view(s.items@);
    match it.setting_type {
        SettingType::Number => {
            let v = if amount_char_ok(it.value@, c) {
                it.value@.push(c)
            } else {
                it.value@
            };
            (rows.update(sel, with_value(it, v)), v.len() as int)
        },
        SettingType::Path => {
            let v = it.value@.insert(s.edit_cursor as int, c);
            let w = strip_quotes_spec(v);
            (rows.update(sel, with_value(it, w)), if w.len() < v.len() {
                w.len() as int
            } else {
                s.edit_cursor + 1
            })
        },
        _ => (rows, s.edit_cursor as int),
    }
}

/// The rows and cursor after Backspace in the selected row: an amount row loses its last
/// character; a path or action row the character before the cursor, a path row then losing
/// surrounding whitespace and quotes; headers and toggles nothing.
pub open spec fn erased_rows(s: SettingsState) -> (
    Seq<(Seq<char>, Seq<char>, Seq<char>, SettingType, Seq<char>)>,
    int,
) {
    let sel = s.selected_index as int;
    let it = s.items@[sel];
    let rows = rows_view(s.items@);
    let v = it.value@;
    match it.setting_type {
        SettingType::Number => {
            let w = if v.len() > 0 {
                v.drop_last()
            } else {
                v
            };
            (rows.update(sel, with_value(it, w)), w.len() as int)
        },
        SettingType::Path => if s.edit_cursor > 0 && v.len() > 0 {
            let (v1, c1) = if s.edit_cursor <= v.len() {
                (v.remove(s.edit_cursor - 1), s.edit_cursor - 1)
            } else {
                (v, s.edit_cursor as int)
            };
            let w = strip_quotes_spec(v1);
            (rows.update(sel, with_value(it, w)), if c1 > w.len() {
                w.len() as int
            } else {
                c1
            })
        } else {
            (rows, s.edit_cursor as int)
        },
        SettingType::Action => if s.edit_cursor > 0 && v.len() > 0 && s.edit_cursor <= v.len() {
            (rows.update(sel, with_value(it, v.remove(s.edit_cursor - 1))), s.edit_cursor - 1)
        } else {
            (rows, s.edit_cursor as int)
        },
        _ => (rows, s.edit_cursor as int),
    }
}

impl SettingsState {
    /// Shows the hours toggle (off, right after the hourly rate) while the rate holds a value,
    /// and hides it otherwise, keeping the selection on the same row.
    pub fn update_settings_visibility(&mut self)
        requires
            old(self).selected_index < usize::MAX,
        ensures
            (rows_view(final(self).items@), final(self).selected_index as int) == visible_rows(
                rows_view(old(self).items@),
                old(self).selected_index as int,
            ),
            final(self).edit_cursor == old(self).edit_cursor,
    {
        proof {
            lemma_first_key_view(self.items@, SHOW_HOURS_KEY@);
            lemma_first_key_view(self.items@, HOURLY_RATE_KEY@);
        }
        let rate = position_of(&self.items, HOURLY_RATE_KEY);
        let set = match rate {
            Some(i) => {
                let t = trim(self.items[i].value.as_str());
                t.as_str().unicode_len() > 0
            },
            None => false,
        };
        let show = position_of(&self.items, SHOW_HOURS_KEY);
        if set && show.is_none() {
            let a = match rate {
                Some(a) => a,
                None => {
                    return;
                },
            };
            let ghost before = rows_view(self.items@);
            let n = self.items.len();
            assert(a < n);
            self.items.insert(a + 1, show_hours_item(false));
            proof {
                assert(rows_view(self.items@) =~= before.insert(a + 1, show_hours_row(false)));
            }
            if self.selected_index > a {
                self.selected_index = self.selected_index + 1;
            }
        } else if !set && show.is_some() {
            let t = match show {
                Some(t) => t,
                None => {
                    return;
                },
            };
            let ghost before = rows_view(self.items@);
            self.items.remove(t);
            proof {
                assert(rows_view(self.items@) =~= before.remove(t as int));
            }
            if self.selected_index >= t {
                self.selected_index = if self.selected_index > 0 {
                    self.selected_index - 1
                } else {
                    0
                };
            }
        }
    }

    /// Types `c` into the selected row, then shows or hides the hours toggle.
    pub fn insert_char_settings(&mut self, c: char)
        requires
            cursor_ok(*old(self)),
            old(self).selected_index < usize::MAX,
            old(self).edit_cursor < usize::MAX,
        ensures
            old(self).selected_index >= old(self).items@.len() ==> *final(self) == *old(self),
            old(self).selected_index < old(self).items@.len() ==> {
                let (rows, cursor) = typed_rows(*old(self), c);
                &&& (rows_view(final(self).items@), final(self).selected_index as int)
                    == visible_rows(rows, old(self).selected_index as int)
                &&& final(self).edit_cursor == cursor
            },
    {
        let idx = self.selected_index;
        if idx >= self.items.len() {
            return;
        }
        let kind = self.items[idx].setting_type;
        match kind {
            SettingType::Number => {
                let v = copy_str(self.items[idx].value.as_str());
                let ok = ('0' <= c && c <= '9') || (c == '.' && !has_dot(v.as_str()));
                let updated = if ok {
                    let mut w = v;
                    w.push(c);
                    w
                } else {
                    v
                };
                let n = updated.as_str().unicode_len();
                self.set_selected_text(updated);
                self.edit_cursor = n;
            },
            SettingType::Path => {
                let typed = crate::text::insert_char_at(
                    self.items[idx].value.as_str(),
                    self.edit_cursor,
                    c,
                );
                let before = typed.as_str().unicode_len();
                let updated = strip_path_quotes(typed.as_str());
                let after = updated.as_str().unicode_len();
                self.set_selected_text(updated);
                self.edit_cursor = if after < before {
                    after
                } else {
                    self.edit_cursor + 1
                };
            },
            _ => {},
        }
        self.update_settings_visibility();
    }

    /// Backspace in the selected row, then shows or hides the hours toggle.
    pub fn delete_char_settings(&mut self)
        requires
            old(self).selected_index < usize::MAX,
        ensures
            old(self).selected_index >= old(self).items@.len() ==> *final(self) == *old(self),
            old(self).selected_index < old(self).items@.len() ==> {
                let (rows, cursor) = erased_rows(*old(self));
                &&& (rows_view(final(self).items@), final(self).selected_index as int)
                    == visible_rows(rows, old(self).selected_index as int)
                &&& final(self).edit_cursor == cursor
            },
    {
        let idx = self.selected_index;
        if idx >= self.items.len() {
            return;
        }
        let kind = self.items[idx].setting_type;
        let len = self.items[idx].value.as_str().unicode_len();
        match kind {
            SettingType::Number => {
                let updated = if len > 0 {
                    crate::text::remove_char_at(self.items[idx].value.as_str(), len - 1)
                } else {
                    copy_str(self.items[idx].value.as_str())
                };
                proof {
                    if len > 0 {
                        assert(updated@ =~= self.items@[idx as int].value@.drop_last());
                    }
                }
                let n = updated.as_str().unicode_len();
                self.set_selected_text(updated);
                self.edit_cursor = n;
            },
            SettingType::Path => {
                let cursor = self.edit_cursor;
                if cursor > 0 && len > 0 {
                    let (erased, c1) = if cursor <= len {
                        (
                            crate::text::remove_char_at(self.items[idx].value.as_str(), cursor - 1),
                            cursor - 1,
                        )
                    } else {
                        (copy_str(self.items[idx].value.as_str()), cursor)
                    };
                    let updated = strip_path_quotes(erased.as_str());
                    let n = updated.as_str().unicode_len();
                    self.set_selected_text(updated);
                    self.edit_cursor = if c1 > n {
                        n
                    } else {
                        c1
                    };
                }
            },
            SettingType::Action => {
                let cursor = self.edit_cursor;
                if cursor > 0 && len > 0 && cursor <= len {
                    let updated = crate::text::remove_char_at(
                        self.items[idx].value.as_str(),
                        cursor - 1,
                    );
                    self.set_selected_text(updated);
                    self.edit_cursor = cursor - 1;
                }
            },
            _ => {},
        }
        self.update_settings_visibility();
    }

    /// Empties the selected row (unless it is a header), then shows or hides the hours toggle.
    pub fn clear_settings_field(&mut self)
        requires
            old(self).selected_index < usize::MAX,
        ensures
            ({
                let sel = old(self).selected_index as int;
                let cleared = sel < old(self).items@.len() && !is_header(old(self).items@[sel]);
                let rows = if cleared {
                    rows_view(old(self).items@).update(sel, with_value(old(self).items@[sel], Seq::empty()))
                } else {
                    rows_view(old(self).items@)
                };
                &&& (rows_view(final(self).items@), final(self).selected_index as int)
                    == visible_rows(rows, sel)
                &&& final(self).edit_cursor == (if cleared {
                    0
                } else {
                    old(self).edit_cursor as int
                })
            }),
    {
        let idx = self.selected_index;
        if idx < self.items.len() && self.items[idx].setting_type != SettingType::SectionHeader {
            self.set_selected_text(String::new());
            self.edit_cursor = 0;
        }
        self.update_settings_visibility();
    }
}

/// Why the settings cannot be saved.
#[derive(Debug, Clone, Copy, PartialEq, Eq, Structural)]
pub enum SettingsError {
    /// The target budget is not an amount above zero.
    TargetBudget(FormError),
    /// The hourly rate is not an amount above zero.
    HourlyRate(FormError),
    EmptyDatabasePath,
}

/// What the settings screen saves.
#[derive(Debug)]
pub struct SettingsValues {
    pub database_path: String,
    pub target_budget: Option<Amount>,
    pub hourly_rate: Option<Amount>,
    pub show_hours: Option<bool>,
    pub fuzzy_search: Option<bool>,
    pub hide_help_bar: Option<bool>,
}

/// The text of the first row with `key` (empty when there is none).
pub open spec fn text_of(items: Seq<SettingItem>, key: Seq<char>) -> Seq<char> {
    match first_with_key(items, key) {
        Some(i) => items[i].value@,
        None => Seq::empty(),
    }
}

/// A toggle's saved value: whether its row reads as on, or none without the row.
pub open spec fn toggle_of(items: Seq<SettingItem>, key: Seq<char>) -> Option<bool> {
    match first_with_key(items, key) {
        Some(i) => Some(toggle_on(items[i].value@)),
        None => None,
    }
}

/// An optional amount: none when the trimmed text is empty, else the checked amount.
pub open spec fn optional_amount(text: Seq<char>) -> Result<Option<Amount>, FormError> {
    let t = trim_spec(text);
    if t.len() == 0 {
        Ok(None)
    } else {
        match amount_check(t) {
            Ok(a) => Ok(Some(a)),
            Err(e) => Err(e),
        }
    }
}

/// The checks of a save, in order: the target budget, the hourly rate, then a path that is not
/// empty once surrounding whitespace and quotes are taken off.
pub open spec fn settings_check(items: Seq<SettingItem>) -> Result<(Option<Amount>, Option<Amount>), SettingsError> {
    match optional_amount(text_of(items, TARGET_BUDGET_KEY@)) {
        Err(e) => Err(SettingsError::TargetBudget(e)),
        Ok(budget) => match optional_amount(text_of(items, HOURLY_RATE_KEY@)) {
            Err(e) => Err(SettingsError::HourlyRate(e)),
            Ok(rate) => if strip_quotes_spec(text_of(items, DATABASE_PATH_KEY@)).len() == 0 {
                Err(SettingsError::EmptyDatabasePath)
            } else {
                Ok((budget, rate))
            },
        },
    }
}

fn text_for(s: &SettingsState, key: &str) -> (r: String)
    ensures
        r@ == text_of(s.items@, key@),
{
    match s.get_value(key) {
        Some(v) => copy_str(v.as_str()),
        None => String::new(),
    }
}

fn toggle_for(s: &SettingsState, key: &str) -> (r: Option<bool>)
    ensures
        r == toggle_of(s.items@, key@),
{
    match s.get_value(key) {
        Some(v) => Some(toggle_is_on(v.as_str())),
        None => None,
    }
}

fn amount_for(text: &str) -> (r: Result<Option<Amount>, FormError>)
    ensures
        r == optional_amount(text@),
{
    let t = trim(text);
    if t.as_str().unicode_len() == 0 {
        Ok(None)
    } else {
        match validate_amount_text(t.as_str()) {
            Ok(a) => Ok(Some(a)),
            Err(e) => Err(e),
        }
    }
}

/// The values to save from the settings rows, or the first check that fails.
pub fn settings_values(s: &SettingsState) -> (r: Result<SettingsValues, SettingsError>)
    ensures
        match (r, settings_check(s.items@)) {
            (Ok(v), Ok((budget, rate))) => {
                &&& v.database_path@ == strip_quotes_spec(text_of(s.items@, DATABASE_PATH_KEY@))
                &&& v.target_budget == budget
                &&& v.hourly_rate == rate
                &&& v.show_hours == toggle_of(s.items@, SHOW_HOURS_KEY@)
                &&& v.fuzzy_search == toggle_of(s.items@, FUZZY_SEARCH_KEY@)
                &&& v.hide_help_bar == toggle_of(s.items@, HIDE_HELP_BAR_KEY@)
            },
            (Err(e), Err(f)) => e == f,
            _ => false,
        },
{
    let target_budget = match amount_for(text_for(s, TARGET_BUDGET_KEY).as_str()) {
        Ok(a) => a,
        Err(e) => {
            return Err(SettingsError::TargetBudget(e));
        },
    };
    let hourly_rate = match amount_for(text_for(s, HOURLY_RATE_KEY).as_str()) {
        Ok(a) => a,
        Err(e) => {
            return Err(SettingsError::HourlyRate(e));
        },
    };
    let database_path = strip_path_quotes(text_for(s, DATABASE_PATH_KEY).as_str());
    if database_path.as_str().unicode_len() == 0 {
        return Err(SettingsError::EmptyDatabasePath);
    }
    Ok(
        SettingsValues {
            database_path,
            target_budget,
            hourly_rate,
            show_hours: toggle_for(s, SHOW_HOURS_KEY),
            fuzzy_search: toggle_for(s, FUZZY_SEARCH_KEY),
            hide_help_bar: toggle_for(s, HIDE_HELP_BAR_KEY),
        },
    )
}

/// Moving to the next selectable row and then back returns to the row it started on, and the
/// other way round.
pub proof fn lemma_settings_field_round_trip(items: Seq<SettingItem>, from: int, n: int)
    requires
        0 <= from < items.len(),
        !is_header(items[from]),
    ensures
        next_editable(items, from, n) ==> previous_editable(items, n, from),
        previous_editable(items, from, n) ==> next_editable(items, n, from),
{
    let len = items.len() as int;
    if next_editable(items, from, n) {
        let t = choose|t: int|
            1 <= t <= items.len() && n == step_forward(from, t, len) && !is_header(items[n])
                && forall|k: int| 1 <= k < t ==> is_header(#[trigger] items[step_forward(from, k, len)]);
        assert(step_back(n, t, len) == from);
        assert forall|k: int| 1 <= k < t implies is_header(#[trigger] items[step_back(n, k, len)]) by {
            assert(step_back(n, k, len) == step_forward(from, t - k, len));
        }
    }
    if previous_editable(items, from, n) {
        let t = choose|t: int|
            1 <= t <= items.len() && n == step_back(from, t, len) && !is_header(items[n])
                && forall|k: int| 1 <= k < t ==> is_header(#[trigger] items[step_back(from, k, len)]);
        assert(step_forward(n, t, len) == from);
        assert forall|k: int| 1 <= k < t implies is_header(#[trigger] items[step_forward(n, k, len)]) by {
            assert(step_forward(n, k, len) == step_back(from, t - k, len));
        }
    }
}

impl SettingsState {
    /// Whether moving between rows is possible: an empty list, or a selected row in range
    /// and some row that is not a header.
    pub fn can_move(&self) -> (r: bool)
        ensures
            r == (self.items@.len() > 0 ==> self.selected_index < self.items@.len() && has_editable(
                self.items@,
            )),
    {
        if self.items.len() == 0 {
            return true;
        }
        if self.selected_index >= self.items.len() {
            return false;
        }
        let mut i: usize = 0;
        while i < self.items.len()
            invariant
                i <= self.items@.len(),
                self.selected_index < self.items@.len(),
                forall|j: int| 0 <= j < i ==> is_header(#[trigger] self.items@[j]),
            decreases self.items@.len() - i,
        {
            if self.items[i].setting_type != SettingType::SectionHeader {
                proof {
                    let k = i as int;
                    assert(0 <= k < self.items@.len() && !is_header(self.items@[k]));
                    assert(has_editable(self.items@));
                }
                return true;
            }
            i = i + 1;
        }
        false
    }

    /// Replaces the text of the first row with `key` (the cursor moves to its end when that row
    /// is selected); nothing when no row has the key.
    pub fn set_setting_value(&mut self, key: &str, value: String)
        ensures
            match first_with_key(old(self).items@, key@) {
                Some(i) => {
                    &&& rows_view(final(self).items@) == rows_view(old(self).items@).update(
                        i,
                        with_value(old(self).items@[i], value@),
                    )
                    &&& final(self).selected_index == old(self).selected_index
                    &&& final(self).edit_cursor == (if old(self).selected_index == i {
                        value@.len() as int
                    } else {
                        old(self).edit_cursor as int
                    })
                },
                None => *final(self) == *old(self),
            },
    {
        match position_of(&self.items, key) {
            None => {},
            Some(i) => {
                let n = value.as_str().unicode_len();
                let saved = self.selected_index;
                self.selected_index = i;
                self.set_selected_text(value);
                self.selected_index = saved;
                if saved == i {
                    self.edit_cursor = n;
                }
            },
        }
    }
}

/// The text of an amount check's failure.
pub open spec fn amount_error_text(e: FormError) -> Seq<char> {
    match e {
        FormError::InvalidAmount => "Invalid Amount (Must be a number)"@,
        FormError::NonPositiveAmount => "Amount must be positive"@,
        _ => "Invalid amount"@,
    }
}

fn amount_error_message(e: FormError) -> (r: String)
    ensures
        r@ == amount_error_text(e),
{
    match e {
        FormError::InvalidAmount => copy_str("Invalid Amount (Must be a number)"),
        FormError::NonPositiveAmount => copy_str("Amount must be positive"),
        _ => copy_str("Invalid amount"),
    }
}

/// The text shown for a settings error, after "Error: ".
pub open spec fn settings_error_text(e: SettingsError) -> Seq<char> {
    match e {
        SettingsError::TargetBudget(f) => "Target budget - "@ + amount_error_text(f),
        SettingsError::HourlyRate(f) => "Hourly rate - "@ + amount_error_text(f),
        SettingsError::EmptyDatabasePath => "Database path cannot be empty."@,
    }
}

pub fn settings_error_message(e: SettingsError) -> (r: String)
    ensures
        r@ == settings_error_text(e),
{
    match e {
        SettingsError::TargetBudget(f) => {
            let mut s = copy_str("Target budget - ");
            s.append(amount_error_message(f).as_str());
            s
        },
        SettingsError::HourlyRate(f) => {
            let mut s = copy_str("Hourly rate - ");
            s.append(amount_error_message(f).as_str());
            s
        },
        SettingsError::EmptyDatabasePath => copy_str("Database path cannot be empty."),
    }
}

/// The hourly rate, as the rows hold it, has a value.
pub open spec fn rate_set_rows(rows: Seq<(Seq<char>, Seq<char>, Seq<char>, SettingType, Seq<char>)>) -> bool {
    match first_key(rows, HOURLY_RATE_KEY@) {
        Some(i) => trim_spec(rows[i].2).len() > 0,
        None => false,
    }
}

/// At most one row holds `key`.
pub open spec fn key_unique(rows: Seq<(Seq<char>, Seq<char>, Seq<char>, SettingType, Seq<char>)>, key: Seq<char>) -> bool {
    forall|i: int, j: int|
        0 <= i < rows.len() && 0 <= j < rows.len() && #[trigger] rows[i].0 == key && #[trigger] rows[j].0
            == key ==> i == j
}

proof fn lemma_first_key_is(
    rows: Seq<(Seq<char>, Seq<char>, Seq<char>, SettingType, Seq<char>)>,
    key: Seq<char>,
)
    ensures
        first_key(rows, key) matches Some(i) ==> 0 <= i < rows.len() && rows[i].0 == key && forall|
            j: int,
        | 0 <= j < i ==> #[trigger] rows[j].0 != key,
        first_key(rows, key) is None ==> forall|j: int| 0 <= j < rows.len() ==> #[trigger] rows[j].0 != key,
    decreases rows.len(),
{
    if rows.len() > 0 {
        lemma_first_key_is(rows.drop_last(), key);
        assert forall|j: int| 0 <= j < rows.len() - 1 implies rows.drop_last()[j] == rows[j] by {}
    }
}

/// The first row with `key` is at `i` when `i` holds it and no row before does.
proof fn lemma_first_key_at(
    rows: Seq<(Seq<char>, Seq<char>, Seq<char>, SettingType, Seq<char>)>,
    key: Seq<char>,
    i: int,
)
    requires
        0 <= i < rows.len(),
        rows[i].0 == key,
        forall|j: int| 0 <= j < i ==> #[trigger] rows[j].0 != key,
    ensures
        first_key(rows, key) == Some(i),
    decreases rows.len(),
{
    if i < rows.len() - 1 {
        lemma_first_key_at(rows.drop_last(), key, i);
    } else {
        lemma_first_key_is(rows.drop_last(), key);
        if first_key(rows.drop_last(), key) is Some {
            let k = first_key(rows.drop_last(), key)->0;
            assert(rows.drop_last()[k] == rows[k]);
        }
    }
}

/// After showing or hiding the hours toggle, it is there exactly when the hourly rate holds a
/// value, and the rate row and its value are unchanged (for rows with a rate row and at most one
/// hours row).
pub proof fn lemma_hours_toggle_follows_rate(
    rows: Seq<(Seq<char>, Seq<char>, Seq<char>, SettingType, Seq<char>)>,
    sel: int,
)
    requires
        first_key(rows, HOURLY_RATE_KEY@) is Some,
        key_unique(rows, SHOW_HOURS_KEY@),
    ensures
        ({
            let after = visible_rows(rows, sel).0;
            &&& (first_key(after, SHOW_HOURS_KEY@) is Some) == rate_set_rows(after)
            &&& rate_set_rows(after) == rate_set_rows(rows)
            &&& key_unique(after, SHOW_HOURS_KEY@)
        }),
{
    let show_key = SHOW_HOURS_KEY@;
    let rate_key = HOURLY_RATE_KEY@;
    assert(show_key != rate_key) by {
        reveal_strlit("show_hours");
        reveal_strlit("hourly_rate");
        assert(show_key[0] != rate_key[0]);
    }
    lemma_first_key_is(rows, show_key);
    lemma_first_key_is(rows, rate_key);
    let a = first_key(rows, rate_key)->0;
    let set = rate_set_rows(rows);
    let after = visible_rows(rows, sel).0;
    if set && first_key(rows, show_key) is None {
        assert(after == rows.insert(a + 1, show_hours_row(false)));
        assert(after[a] == rows[a]);
        assert forall|j: int| 0 <= j < a implies #[trigger] after[j].0 != rate_key by {
            assert(after[j] == rows[j]);
        }
        lemma_first_key_at(after, rate_key, a);
        assert(after[a + 1].0 == show_key);
        lemma_first_key_is(after, show_key);
        assert forall|i: int, j: int|
            0 <= i < after.len() && 0 <= j < after.len() && #[trigger] after[i].0 == show_key
                && #[trigger] after[j].0 == show_key implies i == j by {
            if i != a + 1 {
                if i < a + 1 {
                    assert(after[i] == rows[i]);
                } else {
                    assert(after[i] == rows[i - 1]);
                }
            }
            if j != a + 1 {
                if j < a + 1 {
                    assert(after[j] == rows[j]);
                } else {
                    assert(after[j] == rows[j - 1]);
                }
            }
        }
    } else if !set && first_key(rows, show_key) is Some {
        let t = first_key(rows, show_key)->0;
        assert(after == rows.remove(t));
        assert(t != a);
        assert forall|j: int| 0 <= j < after.len() implies #[trigger] after[j].0 != show_key by {
            if j < t {
                assert(after[j] == rows[j]);
            } else {
                assert(after[j] == rows[j + 1]);
            }
        }
        lemma_first_key_is(after, show_key);
        let a2 = if a < t {
            a
        } else {
            a - 1
        };
        assert(after[a2] == rows[a]);
        assert forall|j: int| 0 <= j < a2 implies #[trigger] after[j].0 != rate_key by {
            if j < t {
                assert(after[j] == rows[j]);
            } else {
                assert(after[j] == rows[j + 1]);
            }
        }
        lemma_first_key_at(after, rate_key, a2);
    } else {
        assert(after == rows);
    }
}

/// What Enter does on the settings screen.
#[derive(Debug, Clone, Copy, PartialEq, Eq, Structural)]
pub enum SettingsAction {
    ManageCategories,
    ImportTransactions,
    ExportTransactions,
    Save,
}

/// Enter opens the catalog, the import or the export from their rows, and saves elsewhere.
pub open spec fn enter_action(s: SettingsState) -> SettingsAction {
    if s.selected_index < s.items@.len() {
        let key = s.items@[s.selected_index as int].key@;
        if key == MANAGE_CATEGORIES_KEY@ {
            SettingsAction::ManageCategories
        } else if key == IMPORT_TRANSACTIONS_KEY@ {
            SettingsAction::ImportTransactions
        } else if key == EXPORT_TRANSACTIONS_KEY@ {
            SettingsAction::ExportTransactions
        } else {
            SettingsAction::Save
        }
    } else {
        SettingsAction::Save
    }
}

/// What Enter does with the current selection.
pub fn activate_selected_setting(s: &SettingsState) -> (r: SettingsAction)
    ensures
        r == enter_action(*s),
{
    if s.selected_index < s.items.len() {
        let key = s.items[s.selected_index].key.as_str();
        if crate::text::text_eq(key, MANAGE_CATEGORIES_KEY) {
            SettingsAction::ManageCategories
        } else if crate::text::text_eq(key, IMPORT_TRANSACTIONS_KEY) {
            SettingsAction::ImportTransactions
        } else if crate::text::text_eq(key, EXPORT_TRANSACTIONS_KEY) {
            SettingsAction::ExportTransactions
        } else {
            SettingsAction::Save
        }
    } else {
        SettingsAction::Save
    }
}

/// The selected row after pasting `text` at the cursor: a path row takes the whole text there,
/// then loses surrounding whitespace and quotes, with the cursor at its end; any other row, or a
/// cursor past the row's end, is left as it was.
pub open spec fn pasted_rows(s: SettingsState, text: Seq<char>) -> (
    Seq<(Seq<char>, Seq<char>, Seq<char>, SettingType, Seq<char>)>,
    int,
) {
    let sel = s.selected_index as int;
    let rows = rows_view(s.items@);
    if 0 <= sel < s.items@.len() && s.items@[sel].setting_type == SettingType::Path
        && s.edit_cursor <= s.items@[sel].value@.len() {
        let v = s.items@[sel].value@;
        let c = s.edit_cursor as int;
        let w = strip_quotes_spec(v.subrange(0, c) + text + v.subrange(c, v.len() as int));
        (rows.update(sel, with_value(s.items@[sel], w)), w.len() as int)
    } else {
        (rows, s.edit_cursor as int)
    }
}

impl SettingsState {
    /// Pastes `text` into the selected path row at the cursor.
    pub fn paste_settings(&mut self, text: &str)
        ensures
            (rows_view(final(self).items@), final(self).edit_cursor as int) == pasted_rows(
                *old(self),
                text@,
            ),
            final(self).selected_index == old(self).selected_index,
    {
        let idx = self.selected_index;
        if idx >= self.items.len() || self.items[idx].setting_type != SettingType::Path {
            return;
        }
        let value = chars_of(self.items[idx].value.as_str());
        let cursor = self.edit_cursor;
        if cursor > value.len() {
            return;
        }
        let pasted = chars_of(text);
        let mut joined: Vec<char> = Vec::new();
        let mut i: usize = 0;
        while i < cursor
            invariant
                cursor <= value@.len(),
                i <= cursor,
                joined@ == value@.subrange(0, i as int),
            decreases cursor - i,
        {
            joined.push(value[i]);
            i = i + 1;
        }
        let mut j: usize = 0;
        while j < pasted.len()
            invariant
                j <= pasted@.len(),
                joined@ == value@.subrange(0, cursor as int) + pasted@.subrange(0, j as int),
            decreases pasted@.len() - j,
        {
            joined.push(pasted[j]);
            j = j + 1;
        }
        let mut k: usize = cursor;
        while k < value.len()
            invariant
                cursor <= k <= value@.len(),
                joined@ == value@.subrange(0, cursor as int) + pasted@ + value@.subrange(
                    cursor as int,
                    k as int,
                ),
            decreases value@.len() - k,
        {
            joined.push(value[k]);
            k = k + 1;
        }
        proof {
            assert(pasted@.subrange(0, pasted@.len() as int) =~= pasted@);
            assert(value@.subrange(cursor as int, value@.len() as int) =~= value@.subrange(
                cursor as int,
                value@.len() as int,
            ));
        }
        let whole = crate::text::string_from_chars(&joined);
        let updated = strip_path_quotes(whole.as_str());
        let n = updated.as_str().unicode_len();
        self.set_selected_text(updated);
        self.edit_cursor = n;
    }
}

} // verus!
