//! The budget screen: which categories have a budget in a month and how much was spent
//! against it, moving the selection around, and the choices and messages of the budget editor.
use crate::model::{BudgetEditScope, BudgetMonth, CategoryRecord, TransactionType};
use crate::money::{amount_wf, checked_add, decimal_text_2dp, format_2dp, sum_amounts, zero, zero_amount, Amount};
use crate::sorting::{
    is_sorted_by, lemma_stable_sorted_is_sorted_permutation, lemma_stable_sorted_map,
    not_before_transitive, stable_sort, stable_sorted,
};
use crate::summary::{
    budget_key, category_entries_view, find_key, normalize_budget_key, CategoryTotals, MonthTotals,
};
use crate::text::{copy_str, lemma_text_lt_total, text_eq, text_less, text_lt, trim, trim_spec};
use vstd::prelude::*;

verus! {

/// The digits of `n` in decimal, without leading zeros.
pub open spec fn decimal_digits(n: nat) -> Seq<char>
    decreases n,
{
    if n < 10 {
        seq![(('0' as u32) + n) as char]
    } else {
        decimal_digits(n / 10).push((('0' as u32) + n % 10) as char)
    }
}

/// How `{}` prints an integer: an optional minus sign and the decimal digits.
pub open spec fn integer_text(n: int) -> Seq<char> {
    if n < 0 {
        seq!['-'] + decimal_digits((-n) as nat)
    } else {
        decimal_digits(n as nat)
    }
}

fn digit_char_of(d: u128) -> (c: char)
    requires
        d < 10,
    ensures
        c == (('0' as u32) + d) as char,
{
    if d == 0 {
        '0'
    } else if d == 1 {
        '1'
    } else if d == 2 {
        '2'
    } else if d == 3 {
        '3'
    } else if d == 4 {
        '4'
    } else if d == 5 {
        '5'
    } else if d == 6 {
        '6'
    } else if d == 7 {
        '7'
    } else if d == 8 {
        '8'
    } else {
        '9'
    }
}

/// `n` printed in decimal.
pub fn nat_text(n: u128) -> (r: String)
    ensures
        r@ == decimal_digits(n as nat),
    decreases n,
{
    if n < 10 {
        let mut s = String::new();
        s.push(digit_char_of(n));
        proof {
            assert(s@ =~= decimal_digits(n as nat));
        }
        s
    } else {
        let mut s = nat_text(n / 10);
        s.push(digit_char_of(n % 10));
        s
    }
}

/// `n` printed as `{}` prints it.
pub fn int_text(n: i64) -> (r: String)
    requires
        n > i64::MIN,
    ensures
        r@ == integer_text(n as int),
{
    if n < 0 {
        let mut s = String::new();
        s.push('-');
        let digits = nat_text((-n) as u128);
        s.append(digits.as_str());
        s
    } else {
        nat_text(n as u128)
    }
}

pub open spec fn month_abbreviation(month: u32) -> Seq<char> {
    if month == 1 {
        "Jan"@
    } else if month == 2 {
        "Feb"@
    } else if month == 3 {
        "Mar"@
    } else if month == 4 {
        "Apr"@
    } else if month == 5 {
        "May"@
    } else if month == 6 {
        "Jun"@
    } else if month == 7 {
        "Jul"@
    } else if month == 8 {
        "Aug"@
    } else if month == 9 {
        "Sep"@
    } else if month == 10 {
        "Oct"@
    } else if month == 11 {
        "Nov"@
    } else if month == 12 {
        "Dec"@
    } else {
        "?"@
    }
}

/// The three-letter name of a month, "?" for a number that is not one.
pub fn month_to_short_str(month: u32) -> (r: &'static str)
    ensures
        r@ == month_abbreviation(month),
{
    match month {
        1 => "Jan",
        2 => "Feb",
        3 => "Mar",
        4 => "Apr",
        5 => "May",
        6 => "Jun",
        7 => "Jul",
        8 => "Aug",
        9 => "Sep",
        10 => "Oct",
        11 => "Nov",
        12 => "Dec",
        _ => "?",
    }
}

/// A month as the budget editor names it, such as "Mar 2026".
pub fn budget_month_label(start: BudgetMonth) -> (r: String)
    ensures
        r@ == month_abbreviation(start.month) + " "@ + integer_text(start.year as int),
{
    let mut s = copy_str(month_to_short_str(start.month));
    s.append(" ");
    let year = int_text(start.year as i64);
    s.append(year.as_str());
    s
}

/// How a category is named in the budget editor: "Category / Subcategory", or the category
/// alone when the subcategory is blank.
pub open spec fn record_label_text(category: Seq<char>, subcategory: Seq<char>) -> Seq<char> {
    if trim_spec(subcategory).len() == 0 {
        category
    } else {
        category + " / "@ + subcategory
    }
}

pub fn record_label(record: &CategoryRecord) -> (r: String)
    ensures
        r@ == record_label_text(record.category@, record.subcategory@),
{
    let sub = trim(record.subcategory.as_str());
    if sub.as_str().unicode_len() == 0 {
        record.category.clone()
    } else {
        let mut s = record.category.clone();
        s.append(" / ");
        s.append(record.subcategory.as_str());
        s
    }
}

/// The status line after a budget edit.
pub open spec fn budget_edit_message_text(
    scope: BudgetEditScope,
    label: Seq<char>,
    month: Seq<char>,
    amount: Option<Amount>,
    replaced: nat,
) -> Seq<char> {
    match (scope, amount) {
        (BudgetEditScope::RemoveChange, _) => label + " change in "@ + month + " removed."@,
        (BudgetEditScope::ReplaceAllMonths, Some(a)) => label + " set to "@ + decimal_text_2dp(a)
            + " for every month, replacing "@ + decimal_digits(replaced)
            + " earlier change(s)."@,
        (BudgetEditScope::ReplaceAllMonths, None) => label + " cleared for every month."@,
        (BudgetEditScope::ThisMonthOnly, Some(a)) => label + " set to "@ + decimal_text_2dp(a)
            + " for "@ + month + " only."@,
        (BudgetEditScope::ThisMonthOnly, None) => label + " cleared for "@ + month + " only."@,
        (_, Some(a)) => label + " set to "@ + decimal_text_2dp(a) + " from "@ + month + " on."@,
        (_, None) => label + " cleared from "@ + month + " on."@,
    }
}

pub fn budget_edit_message(
    scope: BudgetEditScope,
    label: &str,
    month: &str,
    amount: Option<Amount>,
    replaced: usize,
) -> (r: String)
    requires
        amount matches Some(a) ==> amount_wf(a),
    ensures
        r@ == budget_edit_message_text(scope, label@, month@, amount, replaced as nat),
{
    let mut s = copy_str(label);
    match (scope, amount) {
        (BudgetEditScope::RemoveChange, _) => {
            s.append(" change in ");
            s.append(month);
            s.append(" removed.");
        },
        (BudgetEditScope::ReplaceAllMonths, Some(a)) => {
            s.append(" set to ");
            let text = format_2dp(a);
            s.append(text.as_str());
            s.append(" for every month, replacing ");
            let count = nat_text(replaced as u128);
            s.append(count.as_str());
            s.append(" earlier change(s).");
        },
        (BudgetEditScope::ReplaceAllMonths, None) => {
            s.append(" cleared for every month.");
        },
        (BudgetEditScope::ThisMonthOnly, Some(a)) => {
            s.append(" set to ");
            let text = format_2dp(a);
            s.append(text.as_str());
            s.append(" for ");
            s.append(month);
            s.append(" only.");
        },
        (BudgetEditScope::ThisMonthOnly, None) => {
            s.append(" cleared for ");
            s.append(month);
            s.append(" only.");
        },
        (_, Some(a)) => {
            s.append(" set to ");
            let text = format_2dp(a);
            s.append(text.as_str());
            s.append(" from ");
            s.append(month);
            s.append(" on.");
        },
        (_, None) => {
            s.append(" cleared from ");
            s.append(month);
            s.append(" on.");
        },
    }
    s
}

/// The scopes the editor offers: removing the change only when a period starts at the edited
/// month.
pub open spec fn edit_scopes(starts_at: bool) -> Seq<BudgetEditScope> {
    if starts_at {
        seq![
            BudgetEditScope::FromThisMonth,
            BudgetEditScope::ThisMonthOnly,
            BudgetEditScope::ReplaceAllMonths,
            BudgetEditScope::RemoveChange,
        ]
    } else {
        seq![
            BudgetEditScope::FromThisMonth,
            BudgetEditScope::ThisMonthOnly,
            BudgetEditScope::ReplaceAllMonths,
        ]
    }
}

pub fn budget_edit_scopes(starts_at: bool) -> (r: Vec<BudgetEditScope>)
    ensures
        r@ == edit_scopes(starts_at),
{
    let mut scopes = vec![
        BudgetEditScope::FromThisMonth,
        BudgetEditScope::ThisMonthOnly,
        BudgetEditScope::ReplaceAllMonths,
    ];
    if starts_at {
        scopes.push(BudgetEditScope::RemoveChange);
    }
    proof {
        assert(scopes@ =~= edit_scopes(starts_at));
    }
    scopes
}

fn position_of(scopes: &Vec<BudgetEditScope>, scope: BudgetEditScope) -> (r: Option<usize>)
    ensures
        r matches Some(i) ==> i < scopes@.len() && scopes@[i as int] == scope && forall|j: int|
            0 <= j < i ==> scopes@[j] != scope,
        r is None ==> !scopes@.contains(scope),
{
    let mut i: usize = 0;
    while i < scopes.len()
        invariant
            i <= scopes@.len(),
            forall|j: int| 0 <= j < i ==> scopes@[j] != scope,
        decreases scopes@.len() - i,
    {
        if scopes[i] == scope {
            return Some(i);
        }
        i = i + 1;
    }
    None
}

/// The chosen scope, unless it is no longer on offer, in which case the safe default.
pub fn budget_edit_scope(choice: BudgetEditScope, starts_at: bool) -> (r: BudgetEditScope)
    ensures
        r == (if edit_scopes(starts_at).contains(choice) {
            choice
        } else {
            BudgetEditScope::FromThisMonth
        }),
{
    let scopes = budget_edit_scopes(starts_at);
    match position_of(&scopes, choice) {
        Some(_) => choice,
        None => BudgetEditScope::FromThisMonth,
    }
}

/// The scope after stepping the choice forward or back through those on offer, wrapping.
pub fn cycle_budget_edit_scope(choice: BudgetEditScope, starts_at: bool, forward: bool) -> (r:
    BudgetEditScope)
    ensures
        ({
            let scopes = edit_scopes(starts_at);
            let current = if scopes.contains(choice) {
                choice
            } else {
                BudgetEditScope::FromThisMonth
            };
            let i = scopes.index_of(current);
            r == scopes[if forward {
                (i + 1) % (scopes.len() as int)
            } else {
                (i + scopes.len() - 1) % (scopes.len() as int)
            }]
        }),
{
    let scopes = budget_edit_scopes(starts_at);
    let current_scope = budget_edit_scope(choice, starts_at);
    let current = match position_of(&scopes, current_scope) {
        Some(i) => i,
        None => 0,
    };
    proof {
        assert(scopes@[0] == BudgetEditScope::FromThisMonth);
        assert(scopes@.contains(current_scope));
        assert(scopes@.index_of(current_scope) == current as int) by {
            scopes@.index_of_first_ensures(current_scope);
            assert(scopes@.index_of_first(current_scope) == Some(current as int)) by {
                scopes@.index_of_first_ensures(current_scope);
            }
        }
    }
    let n = scopes.len();
    let next = if forward {
        (current + 1) % n
    } else {
        (current + n - 1) % n
    };
    scopes[next]
}

/// The budget month after stepping forward through January to December, wrapping; the first
/// month when none is selected, and no change for a value that is not a month.
pub fn next_budget_month(selected: Option<u32>) -> (r: Option<u32>)
    ensures
        r == (match selected {
            Some(m) => if 1 <= m <= 12 {
                Some((m % 12 + 1) as u32)
            } else {
                Some(m)
            },
            None => Some(1u32),
        }),
{
    match selected {
        Some(m) => if 1 <= m && m <= 12 {
            Some(m % 12 + 1)
        } else {
            Some(m)
        },
        None => Some(1),
    }
}

/// The budget month after stepping back, wrapping from January to December.
pub fn previous_budget_month(selected: Option<u32>) -> (r: Option<u32>)
    ensures
        r == (match selected {
            Some(m) => if m == 1 {
                Some(12u32)
            } else if 2 <= m <= 12 {
                Some((m - 1) as u32)
            } else {
                Some(m)
            },
            None => Some(1u32),
        }),
{
    match selected {
        Some(m) => if m == 1 {
            Some(12)
        } else if 2 <= m && m <= 12 {
            Some(m - 1)
        } else {
            Some(m)
        },
        None => Some(1),
    }
}

/// A row of the budget table: the category's budget for the month against what it spent.
#[derive(Debug)]
pub struct BudgetCategoryComparison {
    pub id: i64,
    pub category: String,
    pub subcategory: String,
    pub budget: Amount,
    pub actual_expense: Amount,
}

pub open spec fn comparison_view(c: BudgetCategoryComparison) -> (i64, Seq<char>, Seq<char>, Amount, Amount) {
    (c.id, c.category@, c.subcategory@, c.budget, c.actual_expense)
}

/// The first record with the given id.
pub open spec fn record_with_id(records: Seq<CategoryRecord>, id: i64) -> Option<int>
    decreases records.len(),
{
    if records.len() == 0 {
        None
    } else {
        match record_with_id(records.drop_last(), id) {
            Some(i) => Some(i),
            None => if records.last().id == id {
                Some(records.len() - 1)
            } else {
                None
            },
        }
    }
}

/// What a category spent in a month by the category totals (the first entry of its key), zero
/// when it has none.
pub open spec fn spent(
    entries: Seq<CategoryTotals>,
    year: i32,
    month: u32,
    key: (Seq<char>, Seq<char>),
) -> Amount {
    let es = category_entries_view(entries);
    match find_key(es, (year, month, key.0, key.1)) {
        Some(j) => es[j].1.expense,
        None => zero_amount(),
    }
}

/// The table row of a budgeted category, if its record exists and is an expense category.
pub open spec fn comparison_row(
    records: Seq<CategoryRecord>,
    entries: Seq<CategoryTotals>,
    year: i32,
    month: u32,
    id: i64,
    budget: Amount,
) -> Option<(i64, Seq<char>, Seq<char>, Amount, Amount)> {
    match record_with_id(records, id) {
        None => None,
        Some(i) => {
            let rec = records[i];
            if rec.transaction_type != TransactionType::Expense {
                None
            } else {
                let key = budget_key(rec.category@, rec.subcategory@);
                Some((id, key.0, key.1, budget, spent(entries, year, month, key)))
            }
        },
    }
}

/// The rows of the budgeted categories, in the order they are listed.
pub open spec fn comparison_rows(
    budgeted: Seq<(i64, Amount)>,
    records: Seq<CategoryRecord>,
    entries: Seq<CategoryTotals>,
    year: i32,
    month: u32,
) -> Seq<(i64, Seq<char>, Seq<char>, Amount, Amount)>
    decreases budgeted.len(),
{
    if budgeted.len() == 0 {
        Seq::empty()
    } else {
        let before = comparison_rows(budgeted.drop_last(), records, entries, year, month);
        match comparison_row(records, entries, year, month, budgeted.last().0, budgeted.last().1) {
            Some(row) => before.push(row),
            None => before,
        }
    }
}

/// The table's order: by category, then subcategory.
pub open spec fn by_category() -> spec_fn(
    (i64, Seq<char>, Seq<char>, Amount, Amount),
    (i64, Seq<char>, Seq<char>, Amount, Amount),
) -> bool {
    |a: (i64, Seq<char>, Seq<char>, Amount, Amount), b: (i64, Seq<char>, Seq<char>, Amount, Amount)|
        text_lt(a.1, b.1) || (a.1 == b.1 && text_lt(a.2, b.2))
}

/// Ordering by category and then subcategory is a sort-key order.
proof fn lemma_by_category_order()
    ensures
        not_before_transitive(by_category()),
{
    let lt = by_category();
    assert forall|a: (i64, Seq<char>, Seq<char>, Amount, Amount), b: (i64, Seq<char>, Seq<char>, Amount, Amount)|
        #[trigger] lt(a, b) implies !lt(b, a) by {
        lemma_text_lt_total(a.1, b.1, a.1);
        lemma_text_lt_total(b.1, a.1, b.1);
        lemma_text_lt_total(a.2, b.2, a.2);
        lemma_text_lt_total(b.2, a.2, b.2);
    }
    assert forall|
        a: (i64, Seq<char>, Seq<char>, Amount, Amount),
        b: (i64, Seq<char>, Seq<char>, Amount, Amount),
        c: (i64, Seq<char>, Seq<char>, Amount, Amount),
    | #![trigger lt(a, b), lt(b, c)] !lt(a, b) && !lt(b, c) implies !lt(a, c) by {
        lemma_text_lt_total(a.1, b.1, c.1);
        lemma_text_lt_total(b.1, c.1, a.1);
        lemma_text_lt_total(c.1, a.1, b.1);
        lemma_text_lt_total(c.1, b.1, a.1);
        lemma_text_lt_total(a.2, b.2, c.2);
        lemma_text_lt_total(b.2, c.2, a.2);
        lemma_text_lt_total(c.2, a.2, b.2);
        lemma_text_lt_total(c.2, b.2, a.2);
    }
}

/// The budget table lists exactly the budgeted rows, ordered by category and, among rows of the
/// same category, by subcategory: no row's category is greater than a later row's, and where
/// two rows share a category, the earlier subcategory is not greater than the later.
pub proof fn lemma_comparisons_ordered(
    budgeted: Seq<(i64, Amount)>,
    records: Seq<CategoryRecord>,
    entries: Seq<CategoryTotals>,
    year: i32,
    month: u32,
)
    ensures
        ({
            let rows = comparison_rows(budgeted, records, entries, year, month);
            let table = stable_sorted(rows, by_category());
            &&& table.to_multiset() == rows.to_multiset()
            &&& forall|i: int, j: int|
                0 <= i < j < table.len() ==> !text_lt(table[j].1, table[i].1) && (table[i].1
                    == table[j].1 ==> !text_lt(table[j].2, table[i].2))
        }),
{
    let rows = comparison_rows(budgeted, records, entries, year, month);
    lemma_by_category_order();
    lemma_stable_sorted_is_sorted_permutation(rows, by_category());
    let table = stable_sorted(rows, by_category());
    assert forall|i: int, j: int| 0 <= i < j < table.len() implies !text_lt(table[j].1, table[i].1)
        && (table[i].1 == table[j].1 ==> !text_lt(table[j].2, table[i].2)) by {
        assert(!(by_category())(table[j], table[i]));
    }
}

/// The row names a budgeted category with the budget it was given.
pub open spec fn row_is_budgeted(budgeted: Seq<(i64, Amount)>, row: (i64, Seq<char>, Seq<char>, Amount, Amount)) -> bool {
    exists|b: int| 0 <= b < budgeted.len() && #[trigger] budgeted[b] == (row.0, row.3)
}

/// The row shows an expense category record with that id, under its trimmed names (an empty
/// category shown as "Uncategorized").
pub open spec fn row_is_expense_record(records: Seq<CategoryRecord>, row: (i64, Seq<char>, Seq<char>, Amount, Amount)) -> bool {
    exists|r: int|
        0 <= r < records.len() && (#[trigger] records[r]).id == row.0 && records[r].transaction_type
            == TransactionType::Expense && row.2 == trim_spec(records[r].subcategory@) && (if trim_spec(
            records[r].category@,
        ).len() == 0 {
            row.1 == "Uncategorized"@
        } else {
            row.1 == trim_spec(records[r].category@)
        })
}

proof fn lemma_record_with_id(records: Seq<CategoryRecord>, id: i64)
    ensures
        record_with_id(records, id) matches Some(i) ==> 0 <= i < records.len() && records[i].id == id,
        record_with_id(records, id) is None ==> forall|r: int| 0 <= r < records.len() ==> (#[trigger] records[r]).id != id,
    decreases records.len(),
{
    if records.len() > 0 {
        lemma_record_with_id(records.drop_last(), id);
        assert forall|r: int| 0 <= r < records.len() - 1 implies records[r] == records.drop_last()[r] by {}
    }
}

proof fn lemma_rows_budgeted(
    budgeted: Seq<(i64, Amount)>,
    records: Seq<CategoryRecord>,
    entries: Seq<CategoryTotals>,
    year: i32,
    month: u32,
)
    ensures
        forall|j: int|
            0 <= j < comparison_rows(budgeted, records, entries, year, month).len() ==> row_is_budgeted(
                budgeted,
                #[trigger] comparison_rows(budgeted, records, entries, year, month)[j],
            ) && row_is_expense_record(records, comparison_rows(budgeted, records, entries, year, month)[j]),
    decreases budgeted.len(),
{
    if budgeted.len() > 0 {
        let prev = budgeted.drop_last();
        let before = comparison_rows(prev, records, entries, year, month);
        let rows = comparison_rows(budgeted, records, entries, year, month);
        lemma_rows_budgeted(prev, records, entries, year, month);
        lemma_record_with_id(records, budgeted.last().0);
        assert forall|j: int| 0 <= j < rows.len() implies row_is_budgeted(budgeted, #[trigger] rows[j])
            && row_is_expense_record(records, rows[j]) by {
            if j < before.len() {
                assert(rows[j] == before[j]);
                let b = choose|b: int| 0 <= b < prev.len() && #[trigger] prev[b] == (before[j].0, before[j].3);
                assert(budgeted[b] == prev[b]);
            } else {
                let b = budgeted.len() - 1;
                assert(budgeted[b] == budgeted.last());
                let i = record_with_id(records, budgeted.last().0)->0;
                assert(records[i].id == rows[j].0);
            }
        }
    }
}

proof fn lemma_rows_complete(
    budgeted: Seq<(i64, Amount)>,
    records: Seq<CategoryRecord>,
    entries: Seq<CategoryTotals>,
    year: i32,
    month: u32,
    b: int,
)
    requires
        0 <= b < budgeted.len(),
        exists|r: int| 0 <= r < records.len() && (#[trigger] records[r]).id == budgeted[b].0,
        records[record_with_id(records, budgeted[b].0)->0].transaction_type == TransactionType::Expense,
    ensures
        exists|j: int|
            0 <= j < comparison_rows(budgeted, records, entries, year, month).len() && (#[trigger] comparison_rows(
                budgeted,
                records,
                entries,
                year,
                month,
            )[j]).0 == budgeted[b].0 && comparison_rows(budgeted, records, entries, year, month)[j].3
                == budgeted[b].1,
    decreases budgeted.len(),
{
    let prev = budgeted.drop_last();
    let before = comparison_rows(prev, records, entries, year, month);
    let rows = comparison_rows(budgeted, records, entries, year, month);
    lemma_record_with_id(records, budgeted[b].0);
    if b == budgeted.len() - 1 {
        assert(rows[rows.len() - 1].0 == budgeted[b].0);
    } else {
        assert(prev[b] == budgeted[b]);
        lemma_rows_complete(prev, records, entries, year, month, b);
        let j = choose|j: int| 0 <= j < before.len() && (#[trigger] before[j]).0 == prev[b].0 && before[j].3 == prev[b].1;
        assert(rows[j] == before[j]);
    }
}

/// The budget table has a row for exactly the budgeted expense categories: every row shows a
/// budgeted id with the budget it was given, for an expense category record under its trimmed
/// names; and every budgeted id whose (first) record is an expense category has a row with its
/// budget. Income categories and ids without a record get no row.
pub proof fn lemma_comparisons_are_budgeted_expenses(
    budgeted: Seq<(i64, Amount)>,
    records: Seq<CategoryRecord>,
    entries: Seq<CategoryTotals>,
    year: i32,
    month: u32,
)
    ensures
        ({
            let table = stable_sorted(
                comparison_rows(budgeted, records, entries, year, month),
                by_category(),
            );
            &&& forall|j: int|
                0 <= j < table.len() ==> row_is_budgeted(budgeted, #[trigger] table[j])
                    && row_is_expense_record(records, table[j])
            &&& forall|b: int|
                0 <= b < budgeted.len() && (exists|r: int|
                    0 <= r < records.len() && (#[trigger] records[r]).id == budgeted[b].0)
                    && records[record_with_id(records, budgeted[b].0)->0].transaction_type
                    == TransactionType::Expense ==> exists|j: int|
                    0 <= j < table.len() && (#[trigger] table[j]).0 == (#[trigger] budgeted[b]).0
                        && table[j].3 == budgeted[b].1
        }),
{
    broadcast use vstd::seq_lib::group_to_multiset_ensures;
    let rows = comparison_rows(budgeted, records, entries, year, month);
    let table = stable_sorted(rows, by_category());
    lemma_by_category_order();
    lemma_stable_sorted_is_sorted_permutation(rows, by_category());
    lemma_rows_budgeted(budgeted, records, entries, year, month);
    assert forall|j: int| 0 <= j < table.len() implies row_is_budgeted(budgeted, #[trigger] table[j])
        && row_is_expense_record(records, table[j]) by {
        assert(table.contains(table[j]));
        assert(table.to_multiset().contains(table[j]));
        assert(rows.contains(table[j]));
        let k = choose|k: int| 0 <= k < rows.len() && rows[k] == table[j];
        assert(row_is_budgeted(budgeted, rows[k]));
    }
    assert forall|b: int|
        0 <= b < budgeted.len() && (exists|r: int|
            0 <= r < records.len() && (#[trigger] records[r]).id == budgeted[b].0)
            && records[record_with_id(records, budgeted[b].0)->0].transaction_type
            == TransactionType::Expense implies exists|j: int|
            0 <= j < table.len() && (#[trigger] table[j]).0 == (#[trigger] budgeted[b]).0
                && table[j].3 == budgeted[b].1 by {
        lemma_rows_complete(budgeted, records, entries, year, month, b);
        let k = choose|k: int|
            0 <= k < rows.len() && (#[trigger] rows[k]).0 == budgeted[b].0 && rows[k].3
                == budgeted[b].1;
        assert(rows.contains(rows[k]));
        assert(rows.to_multiset().contains(rows[k]));
        assert(table.contains(rows[k]));
        let j = choose|j: int| 0 <= j < table.len() && table[j] == rows[k];
        assert(table[j].0 == budgeted[b].0);
    }
}

fn find_record(records: &[CategoryRecord], id: i64) -> (r: Option<usize>)
    ensures
        r matches Some(i) ==> record_with_id(records@, id) == Some(i as int) && i < records@.len(),
        r is None ==> record_with_id(records@, id) is None,
{
    let mut i: usize = 0;
    while i < records.len()
        invariant
            i <= records@.len(),
            record_with_id(records@.take(i as int), id) is None,
        decreases records@.len() - i,
    {
        proof {
            assert(records@.take(i + 1).drop_last() =~= records@.take(i as int));
        }
        if records[i].id == id {
            proof {
                lemma_record_prefix(records@, id, i + 1);
            }
            return Some(i);
        }
        i = i + 1;
    }
    proof {
        assert(records@.take(records@.len() as int) =~= records@);
    }
    None
}

proof fn lemma_record_prefix(records: Seq<CategoryRecord>, id: i64, n: int)
    requires
        0 <= n <= records.len(),
        record_with_id(records.take(n), id) is Some,
    ensures
        record_with_id(records, id) == record_with_id(records.take(n), id),
    decreases records.len() - n,
{
    if n < records.len() {
        assert(records.take(n + 1).drop_last() =~= records.take(n));
        lemma_record_prefix(records, id, n + 1);
    } else {
        assert(records.take(n) =~= records);
    }
}

fn spent_exec(entries: &[CategoryTotals], year: i32, month: u32, category: &String, subcategory: &String) -> (r: Amount)
    ensures
        r == spent(entries@, year, month, (category@, subcategory@)),
{
    let ghost es = category_entries_view(entries@);
    let ghost k = (year, month, category@, subcategory@);
    let mut j: usize = 0;
    while j < entries.len()
        invariant
            j <= entries@.len(),
            es == category_entries_view(entries@),
            k == (year, month, category@, subcategory@),
            find_key(es.take(j as int), k) is None,
        decreases entries@.len() - j,
    {
        proof {
            assert(es.take(j + 1).drop_last() =~= es.take(j as int));
        }
        let e = &entries[j];
        if e.year == year && e.month == month && text_eq(e.category.as_str(), category.as_str())
            && text_eq(e.subcategory.as_str(), subcategory.as_str()) {
            proof {
                assert(es[j as int].0 == k);
                crate::summary::lemma_find_key_prefix(es, k, j + 1);
            }
            return e.summary.expense;
        }
        j = j + 1;
    }
    proof {
        assert(es.take(es.len() as int) =~= es);
    }
    zero()
}

/// The budget table for a month: a row for each budgeted category (as listed by the schedule)
/// whose record exists and is an expense category, with its budget and what it spent that
/// month, ordered by category and then subcategory.
pub fn budget_category_comparisons(
    budgeted: &[(i64, Amount)],
    records: &[CategoryRecord],
    entries: &[CategoryTotals],
    year: i32,
    month: u32,
) -> (r: Vec<BudgetCategoryComparison>)
    ensures
        r@.map_values(|c: BudgetCategoryComparison| comparison_view(c)) == stable_sorted(
            comparison_rows(budgeted@, records@, entries@, year, month),
            by_category(),
        ),
{
    let mut rows: Vec<BudgetCategoryComparison> = Vec::new();
    let mut i: usize = 0;
    while i < budgeted.len()
        invariant
            i <= budgeted@.len(),
            rows@.map_values(|c: BudgetCategoryComparison| comparison_view(c)) == comparison_rows(
                budgeted@.take(i as int),
                records@,
                entries@,
                year,
                month,
            ),
        decreases budgeted@.len() - i,
    {
        proof {
            assert(budgeted@.take(i + 1).drop_last() =~= budgeted@.take(i as int));
        }
        let (id, budget) = budgeted[i];
        if let Some(ri) = find_record(records, id) {
            let rec = &records[ri];
            if rec.transaction_type == TransactionType::Expense {
                let (category, subcategory) = normalize_budget_key(
                    rec.category.as_str(),
                    rec.subcategory.as_str(),
                );
                let actual_expense = spent_exec(entries, year, month, &category, &subcategory);
                let ghost before = rows@;
                rows.push(BudgetCategoryComparison { id, category, subcategory, budget, actual_expense });
                proof {
                    assert(rows@.map_values(|c: BudgetCategoryComparison| comparison_view(c))
                        =~= before.map_values(|c: BudgetCategoryComparison| comparison_view(c)).push(
                        comparison_view(rows@[rows@.len() - 1]),
                    ));
                }
            }
        }
        i = i + 1;
    }
    proof {
        assert(budgeted@.take(budgeted@.len() as int) =~= budgeted@);
    }
    let less = |a: &BudgetCategoryComparison, b: &BudgetCategoryComparison| -> (r: bool)
        ensures
            r == (by_category())(comparison_view(*a), comparison_view(*b)),
        {
            text_less(a.category.as_str(), b.category.as_str()) || (text_eq(
                a.category.as_str(),
                b.category.as_str(),
            ) && text_less(a.subcategory.as_str(), b.subcategory.as_str()))
        };
    let ghost lt = |a: BudgetCategoryComparison, b: BudgetCategoryComparison|
        (by_category())(comparison_view(a), comparison_view(b));
    let sorted = stable_sort(rows, &less, Ghost(lt), Ghost(|c: BudgetCategoryComparison| true));
    proof {
        lemma_stable_sorted_map(
            rows@,
            |c: BudgetCategoryComparison| comparison_view(c),
            lt,
            by_category(),
        );
    }
    sorted
}

/// What the comparisons' budgets add up to, in table order; `None` when the sum overflows.
pub fn total_allocated_budget(comparisons: &[BudgetCategoryComparison]) -> (r: Option<Amount>)
    requires
        forall|i: int| 0 <= i < comparisons@.len() ==> amount_wf(#[trigger] comparisons@[i].budget),
    ensures
        r == sum_amounts(comparisons@.map_values(|c: BudgetCategoryComparison| c.budget)),
{
    let ghost budgets = comparisons@.map_values(|c: BudgetCategoryComparison| c.budget);
    let mut total = zero();
    let mut i: usize = 0;
    while i < comparisons.len()
        invariant
            i <= comparisons@.len(),
            budgets == comparisons@.map_values(|c: BudgetCategoryComparison| c.budget),
            forall|j: int| 0 <= j < comparisons@.len() ==> amount_wf(#[trigger] comparisons@[j].budget),
            sum_amounts(budgets.take(i as int)) == Some(total),
            amount_wf(total),
        decreases comparisons@.len() - i,
    {
        proof {
            assert(budgets.take(i + 1).drop_last() =~= budgets.take(i as int));
        }
        match checked_add(total, comparisons[i].budget) {
            Some(t) => {
                total = t;
            },
            None => {
                proof {
                    crate::money::lemma_sum_none_extends(budgets, i + 1);
                }
                return None;
            },
        }
        i = i + 1;
    }
    proof {
        assert(budgets.take(budgets.len() as int) =~= budgets);
    }
    Some(total)
}

/// The first month-totals entry for a month.
pub open spec fn month_entry(monthly: Seq<MonthTotals>, year: i32, month: u32) -> Option<int>
    decreases monthly.len(),
{
    if monthly.len() == 0 {
        None
    } else {
        match month_entry(monthly.drop_last(), year, month) {
            Some(i) => Some(i),
            None => if monthly.last().year == year && monthly.last().month == month {
                Some(monthly.len() - 1)
            } else {
                None
            },
        }
    }
}

fn find_month(monthly: &[MonthTotals], year: i32, month: u32) -> (r: Option<usize>)
    ensures
        r matches Some(i) ==> month_entry(monthly@, year, month) == Some(i as int) && i < monthly@.len(),
        r is None ==> month_entry(monthly@, year, month) is None,
{
    let mut i: usize = 0;
    while i < monthly.len()
        invariant
            i <= monthly@.len(),
            month_entry(monthly@.take(i as int), year, month) is None,
        decreases monthly@.len() - i,
    {
        proof {
            assert(monthly@.take(i + 1).drop_last() =~= monthly@.take(i as int));
        }
        if monthly[i].year == year && monthly[i].month == month {
            proof {
                lemma_month_entry_prefix(monthly@, year, month, i + 1);
            }
            return Some(i);
        }
        i = i + 1;
    }
    proof {
        assert(monthly@.take(monthly@.len() as int) =~= monthly@);
    }
    None
}

proof fn lemma_month_entry_prefix(monthly: Seq<MonthTotals>, year: i32, month: u32, n: int)
    requires
        0 <= n <= monthly.len(),
        month_entry(monthly.take(n), year, month) is Some,
    ensures
        month_entry(monthly, year, month) == month_entry(monthly.take(n), year, month),
    decreases monthly.len() - n,
{
    if n < monthly.len() {
        assert(monthly.take(n + 1).drop_last() =~= monthly.take(n));
        lemma_month_entry_prefix(monthly, year, month, n + 1);
    } else {
        assert(monthly.take(n) =~= monthly);
    }
}

/// What was spent in a month by the monthly totals, zero for a month without any.
pub fn budget_month_expense(monthly: &[MonthTotals], year: i32, month: u32) -> (r: Amount)
    ensures
        r == (match month_entry(monthly@, year, month) {
            Some(i) => monthly@[i].summary.expense,
            None => zero_amount(),
        }),
{
    match find_month(monthly, year, month) {
        Some(i) => monthly[i].summary.expense,
        None => zero(),
    }
}

/// The months from January to `upto` that have monthly totals, each with what the category
/// spent in it (zero where it has no entry).
pub open spec fn category_month_expenses(
    monthly: Seq<MonthTotals>,
    entries: Seq<CategoryTotals>,
    year: i32,
    key: (Seq<char>, Seq<char>),
    upto: nat,
) -> Seq<(u32, Amount)>
    decreases upto,
{
    if upto == 0 {
        Seq::empty()
    } else {
        let before = category_month_expenses(monthly, entries, year, key, (upto - 1) as nat);
        if month_entry(monthly, year, upto as u32) is Some {
            before.push((upto as u32, spent(entries, year, upto as u32, key)))
        } else {
            before
        }
    }
}

/// For each month of `year` with totals, in calendar order, what the compared category spent.
pub fn budget_category_monthly_expenses(
    year: i32,
    comparison: &BudgetCategoryComparison,
    monthly: &[MonthTotals],
    entries: &[CategoryTotals],
) -> (r: Vec<(u32, Amount)>)
    ensures
        r@ == category_month_expenses(
            monthly@,
            entries@,
            year,
            (comparison.category@, comparison.subcategory@),
            12,
        ),
{
    let ghost key = (comparison.category@, comparison.subcategory@);
    let mut out: Vec<(u32, Amount)> = Vec::new();
    let mut month: u32 = 1;
    while month <= 12
        invariant
            1 <= month <= 13,
            key == (comparison.category@, comparison.subcategory@),
            out@ == category_month_expenses(monthly@, entries@, year, key, (month - 1) as nat),
        decreases 13 - month,
    {
        if find_month(monthly, year, month).is_some() {
            let expense = spent_exec(entries, year, month, &comparison.category, &comparison.subcategory);
            out.push((month, expense));
        }
        month = month + 1;
    }
    out
}

} // verus!
