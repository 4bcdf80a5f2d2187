//! Income and expense totals of the rows the filter shows: per calendar month, and per month,
//! category and subcategory. Each total adds its rows in table order with `Decimal` addition;
//! where an addition would overflow (and `Decimal`'s `+` would panic) the result is `None`.
use crate::category_view::{entry_key, keys_distinct};
use crate::model::{default_category, MonthlySummary, Transaction, TransactionType};
use crate::money::{amount_wf, checked_add, decimal_checked_add, sum_amounts, zero, zero_amount, Amount};
use crate::text::{text_eq, trim, trim_spec};
use vstd::prelude::*;

verus! {

/// The rows at `indices` that exist, in the order of `indices`.
pub open spec fn selected_rows(txs: Seq<Transaction>, indices: Seq<usize>) -> Seq<Transaction>
    decreases indices.len(),
{
    if indices.len() == 0 {
        Seq::empty()
    } else {
        let before = selected_rows(txs, indices.drop_last());
        let i = indices.last();
        if i < txs.len() {
            before.push(txs[i as int])
        } else {
            before
        }
    }
}

/// Both totals zero (`MonthlySummary::default()`).
pub open spec fn empty_summary() -> MonthlySummary {
    MonthlySummary { income: zero_amount(), expense: zero_amount() }
}

/// `s` with the row's amount added to its income or expense total, by the row's type.
pub open spec fn add_row(s: MonthlySummary, tx: Transaction) -> Option<MonthlySummary> {
    match tx.transaction_type {
        TransactionType::Income => match decimal_checked_add(s.income, tx.amount) {
            Some(i) => Some(MonthlySummary { income: i, expense: s.expense }),
            None => None,
        },
        TransactionType::Expense => match decimal_checked_add(s.expense, tx.amount) {
            Some(e) => Some(MonthlySummary { income: s.income, expense: e }),
            None => None,
        },
    }
}

/// The position of the entry for `k`, searching from the front.
pub open spec fn find_key<K>(entries: Seq<(K, MonthlySummary)>, k: K) -> Option<int>
    decreases entries.len(),
{
    if entries.len() == 0 {
        None
    } else {
        match find_key(entries.drop_last(), k) {
            Some(i) => Some(i),
            None => if entries.last().0 == k {
                Some(entries.len() - 1)
            } else {
                None
            },
        }
    }
}

/// The totals after adding one more row: it adds to its key's entry, or starts a new entry
/// (after the existing ones) for a key not seen before. `None` when the addition overflows.
pub open spec fn fold_step<K>(es: Seq<(K, MonthlySummary)>, tx: Transaction, k: K) -> Option<
    Seq<(K, MonthlySummary)>,
> {
    match find_key(es, k) {
        Some(j) => match add_row(es[j].1, tx) {
            Some(s) => Some(es.update(j, (k, s))),
            None => None,
        },
        None => match add_row(empty_summary(), tx) {
            Some(s) => Some(es.push((k, s))),
            None => None,
        },
    }
}

/// Totals per key, built by adding the rows in order; `None` as soon as an addition
/// overflows.
pub open spec fn summary_fold<K>(rows: Seq<Transaction>, key: spec_fn(Transaction) -> K) -> Option<
    Seq<(K, MonthlySummary)>,
>
    decreases rows.len(),
{
    if rows.len() == 0 {
        Some(Seq::empty())
    } else {
        match summary_fold(rows.drop_last(), key) {
            None => None,
            Some(es) => fold_step(es, rows.last(), key(rows.last())),
        }
    }
}

/// The calendar month of a row.
pub open spec fn month_key(tx: Transaction) -> (i32, u32) {
    (tx.date.year, tx.date.month)
}

/// The totals of one calendar month.
#[derive(Clone, Copy, Debug, PartialEq, Eq, Structural)]
pub struct MonthTotals {
    pub year: i32,
    pub month: u32,
    pub summary: MonthlySummary,
}

pub open spec fn month_entries_view(es: Seq<MonthTotals>) -> Seq<((i32, u32), MonthlySummary)> {
    es.map_values(|e: MonthTotals| ((e.year, e.month), e.summary))
}

fn add_row_exec(s: MonthlySummary, tx: &Transaction) -> (r: Option<MonthlySummary>)
    requires
        amount_wf(s.income),
        amount_wf(s.expense),
        amount_wf(tx.amount),
    ensures
        r == add_row(s, *tx),
        r matches Some(t) ==> amount_wf(t.income) && amount_wf(t.expense),
{
    match tx.transaction_type {
        TransactionType::Income => match checked_add(s.income, tx.amount) {
            Some(i) => Some(MonthlySummary { income: i, expense: s.expense }),
            None => None,
        },
        TransactionType::Expense => match checked_add(s.expense, tx.amount) {
            Some(e) => Some(MonthlySummary { income: s.income, expense: e }),
            None => None,
        },
    }
}

proof fn lemma_selected_step(txs: Seq<Transaction>, indices: Seq<usize>, k: int)
    requires
        0 <= k < indices.len(),
    ensures
        selected_rows(txs, indices.take(k + 1)) == (if indices[k] < txs.len() {
            selected_rows(txs, indices.take(k)).push(txs[indices[k] as int])
        } else {
            selected_rows(txs, indices.take(k))
        }),
{
    assert(indices.take(k + 1).drop_last() =~= indices.take(k));
}

/// Every total of the entries is an amount a `Decimal` holds.
pub open spec fn month_entries_wf(es: Seq<MonthTotals>) -> bool {
    forall|q: int|
        0 <= q < es.len() ==> amount_wf(#[trigger] es[q].summary.income) && amount_wf(
            es[q].summary.expense,
        )
}

/// Adds one row to the month totals.
fn add_month_row(entries: &mut Vec<MonthTotals>, tx: &Transaction) -> (ok: bool)
    requires
        month_entries_wf(old(entries)@),
        amount_wf(tx.amount),
    ensures
        ok ==> month_entries_wf(final(entries)@) && fold_step(
            month_entries_view(old(entries)@),
            *tx,
            month_key(*tx),
        ) == Some(month_entries_view(final(entries)@)),
        !ok ==> fold_step(month_entries_view(old(entries)@), *tx, month_key(*tx)) is None,
{
    let ghost es = month_entries_view(entries@);
    let y = tx.date.year;
    let m = tx.date.month;
    let mut j: usize = 0;
    while j < entries.len() && !(entries[j].year == y && entries[j].month == m)
        invariant
            j <= entries@.len(),
            es == month_entries_view(entries@),
            find_key(es.take(j as int), (y, m)) is None,
        decreases entries@.len() - j,
    {
        proof {
            assert(es.take(j + 1).drop_last() =~= es.take(j as int));
        }
        j = j + 1;
    }
    let ghost before = entries@;
    if j < entries.len() {
        proof {
            assert(es.take(j + 1).drop_last() =~= es.take(j as int));
            lemma_find_key_prefix(es, (y, m), j + 1);
        }
        let e = entries[j];
        match add_row_exec(e.summary, tx) {
            Some(s) => {
                entries.set(j, MonthTotals { year: y, month: m, summary: s });
                proof {
                    assert(month_entries_view(entries@) =~= es.update(j as int, ((y, m), s)));
                    assert forall|q: int| 0 <= q < entries@.len() implies amount_wf(
                        #[trigger] entries@[q].summary.income,
                    ) && amount_wf(entries@[q].summary.expense) by {
                        if q != j {
                            assert(entries@[q] == before[q]);
                        }
                    }
                }
                true
            },
            None => false,
        }
    } else {
        proof {
            assert(es.take(j as int) =~= es);
        }
        let empty = MonthlySummary { income: zero(), expense: zero() };
        match add_row_exec(empty, tx) {
            Some(s) => {
                entries.push(MonthTotals { year: y, month: m, summary: s });
                proof {
                    assert(month_entries_view(entries@) =~= es.push(((y, m), s)));
                    assert forall|q: int| 0 <= q < entries@.len() implies amount_wf(
                        #[trigger] entries@[q].summary.income,
                    ) && amount_wf(entries@[q].summary.expense) by {
                        if q < before.len() {
                            assert(entries@[q] == before[q]);
                        }
                    }
                }
                true
            },
            None => false,
        }
    }
}

/// Income and expense per calendar month of the rows at `indices` (positions past the end
/// are skipped), months in the order they first occur; `None` when a total overflows.
pub fn monthly_summaries(transactions: &[Transaction], indices: &[usize]) -> (r: Option<
    Vec<MonthTotals>,
>)
    requires
        forall|i: int| 0 <= i < transactions@.len() ==> amount_wf(#[trigger] transactions@[i].amount),
    ensures
        match r {
            Some(es) => summary_fold(selected_rows(transactions@, indices@), |t: Transaction| month_key(t))
                == Some(month_entries_view(es@)),
            None => summary_fold(selected_rows(transactions@, indices@), |t: Transaction| month_key(t))
                is None,
        },
{
    let ghost key = |t: Transaction| month_key(t);
    let mut entries: Vec<MonthTotals> = Vec::new();
    let mut k: usize = 0;
    while k < indices.len()
        invariant
            k <= indices@.len(),
            key == (|t: Transaction| month_key(t)),
            forall|i: int| 0 <= i < transactions@.len() ==> amount_wf(#[trigger] transactions@[i].amount),
            summary_fold(selected_rows(transactions@, indices@.take(k as int)), key) == Some(
                month_entries_view(entries@),
            ),
            month_entries_wf(entries@),
        decreases indices@.len() - k,
    {
        let ghost rows = selected_rows(transactions@, indices@.take(k as int));
        proof {
            lemma_selected_step(transactions@, indices@, k as int);
        }
        let idx = indices[k];
        if idx < transactions.len() {
            proof {
                assert(rows.push(transactions@[idx as int]).drop_last() =~= rows);
            }
            if !add_month_row(&mut entries, &transactions[idx]) {
                proof {
                    lemma_fold_none_extends(transactions@, indices@, key, k + 1);
                }
                return None;
            }
        }
        k = k + 1;
    }
    proof {
        assert(indices@.take(indices@.len() as int) =~= indices@);
    }
    Some(entries)
}

/// The category a row is counted under: its trimmed category, or "Uncategorized" when that is
/// empty; and its trimmed subcategory.
pub open spec fn budget_key(category: Seq<char>, subcategory: Seq<char>) -> (Seq<char>, Seq<char>) {
    let c = trim_spec(category);
    (if c.len() == 0 {
        "Uncategorized"@
    } else {
        c
    }, trim_spec(subcategory))
}

/// Trims the category and subcategory, naming an empty category "Uncategorized".
pub fn normalize_budget_key(category: &str, subcategory: &str) -> (r: (String, String))
    ensures
        (r.0@, r.1@) == budget_key(category@, subcategory@),
{
    let c = trim(category);
    let sub = trim(subcategory);
    let normalized = if c.as_str().unicode_len() == 0 {
        default_category()
    } else {
        c
    };
    (normalized, sub)
}

/// The month, category and subcategory a row is counted under.
pub open spec fn category_key(tx: Transaction) -> (i32, u32, Seq<char>, Seq<char>) {
    let k = budget_key(tx.category@, tx.subcategory@);
    (tx.date.year, tx.date.month, k.0, k.1)
}

/// The totals of one category and subcategory in one calendar month.
#[derive(Debug)]
pub struct CategoryTotals {
    pub year: i32,
    pub month: u32,
    pub category: String,
    pub subcategory: String,
    pub summary: MonthlySummary,
}

pub open spec fn category_entry_view(e: CategoryTotals) -> ((i32, u32, Seq<char>, Seq<char>), MonthlySummary) {
    ((e.year, e.month, e.category@, e.subcategory@), e.summary)
}

pub open spec fn category_entries_view(es: Seq<CategoryTotals>) -> Seq<
    ((i32, u32, Seq<char>, Seq<char>), MonthlySummary),
> {
    es.map_values(|e: CategoryTotals| category_entry_view(e))
}

pub open spec fn category_entries_wf(es: Seq<CategoryTotals>) -> bool {
    forall|q: int|
        0 <= q < es.len() ==> amount_wf(#[trigger] es[q].summary.income) && amount_wf(
            es[q].summary.expense,
        )
}

/// Adds one row to the category totals.
fn add_category_row(entries: &mut Vec<CategoryTotals>, tx: &Transaction) -> (ok: bool)
    requires
        category_entries_wf(old(entries)@),
        amount_wf(tx.amount),
    ensures
        ok ==> category_entries_wf(final(entries)@) && fold_step(
            category_entries_view(old(entries)@),
            *tx,
            category_key(*tx),
        ) == Some(category_entries_view(final(entries)@)),
        !ok ==> fold_step(category_entries_view(old(entries)@), *tx, category_key(*tx)) is None,
{
    let ghost es = category_entries_view(entries@);
    let y = tx.date.year;
    let m = tx.date.month;
    let (c, sub) = normalize_budget_key(tx.category.as_str(), tx.subcategory.as_str());
    let ghost k = (y, m, c@, sub@);
    let mut j: usize = 0;
    while j < entries.len() && !(entries[j].year == y && entries[j].month == m && text_eq(
        entries[j].category.as_str(),
        c.as_str(),
    ) && text_eq(entries[j].subcategory.as_str(), sub.as_str()))
        invariant
            j <= entries@.len(),
            es == category_entries_view(entries@),
            k == (y, m, c@, sub@),
            find_key(es.take(j as int), k) is None,
        decreases entries@.len() - j,
    {
        proof {
            assert(es.take(j + 1).drop_last() =~= es.take(j as int));
        }
        j = j + 1;
    }
    let ghost before = entries@;
    if j < entries.len() {
        proof {
            assert(es.take(j + 1).drop_last() =~= es.take(j as int));
            assert(es[j as int].0 == k);
            lemma_find_key_prefix(es, k, j + 1);
        }
        let current = entries[j].summary;
        match add_row_exec(current, tx) {
            Some(s) => {
                entries.set(j, CategoryTotals { year: y, month: m, category: c, subcategory: sub, summary: s });
                proof {
                    assert(category_entries_view(entries@) =~= es.update(j as int, (k, s)));
                    assert forall|q: int| 0 <= q < entries@.len() implies amount_wf(
                        #[trigger] entries@[q].summary.income,
                    ) && amount_wf(entries@[q].summary.expense) by {
                        if q != j {
                            assert(entries@[q] == before[q]);
                        }
                    }
                }
                true
            },
            None => false,
        }
    } else {
        proof {
            assert(es.take(j as int) =~= es);
        }
        let empty = MonthlySummary { income: zero(), expense: zero() };
        match add_row_exec(empty, tx) {
            Some(s) => {
                entries.push(CategoryTotals { year: y, month: m, category: c, subcategory: sub, summary: s });
                proof {
                    assert(category_entries_view(entries@) =~= es.push((k, s)));
                    assert forall|q: int| 0 <= q < entries@.len() implies amount_wf(
                        #[trigger] entries@[q].summary.income,
                    ) && amount_wf(entries@[q].summary.expense) by {
                        if q < before.len() {
                            assert(entries@[q] == before[q]);
                        }
                    }
                }
                true
            },
            None => false,
        }
    }
}

/// Income and expense per calendar month, category and subcategory of the rows at `indices`
/// (each of which must be a row), in the order each key first occurs; `None` when a total
/// overflows.
pub fn category_summaries(transactions: &[Transaction], indices: &[usize]) -> (r: Option<
    Vec<CategoryTotals>,
>)
    requires
        forall|i: int| 0 <= i < transactions@.len() ==> amount_wf(#[trigger] transactions@[i].amount),
        forall|k: int| 0 <= k < indices@.len() ==> #[trigger] indices@[k] < transactions@.len(),
    ensures
        match r {
            Some(es) => summary_fold(selected_rows(transactions@, indices@), |t: Transaction| category_key(t))
                == Some(category_entries_view(es@)),
            None => summary_fold(selected_rows(transactions@, indices@), |t: Transaction| category_key(t))
                is None,
        },
        r matches Some(es) ==> category_entries_wf(es@) && keys_distinct(es@),
{
    let ghost key = |t: Transaction| category_key(t);
    let mut entries: Vec<CategoryTotals> = Vec::new();
    let mut k: usize = 0;
    while k < indices.len()
        invariant
            k <= indices@.len(),
            key == (|t: Transaction| category_key(t)),
            forall|i: int| 0 <= i < transactions@.len() ==> amount_wf(#[trigger] transactions@[i].amount),
            forall|q: int| 0 <= q < indices@.len() ==> #[trigger] indices@[q] < transactions@.len(),
            summary_fold(selected_rows(transactions@, indices@.take(k as int)), key) == Some(
                category_entries_view(entries@),
            ),
            category_entries_wf(entries@),
        decreases indices@.len() - k,
    {
        let ghost rows = selected_rows(transactions@, indices@.take(k as int));
        proof {
            lemma_selected_step(transactions@, indices@, k as int);
        }
        let idx = indices[k];
        proof {
            assert(rows.push(transactions@[idx as int]).drop_last() =~= rows);
        }
        if !add_category_row(&mut entries, &transactions[idx]) {
            proof {
                lemma_fold_none_extends(transactions@, indices@, key, k + 1);
            }
            return None;
        }
        k = k + 1;
    }
    proof {
        assert(indices@.take(indices@.len() as int) =~= indices@);
        let rows = selected_rows(transactions@, indices@);
        lemma_totals_are_sums(rows, key);
        let view = category_entries_view(entries@);
        assert forall|i: int, j: int| 0 <= i < j < entries@.len() implies !(
        #[trigger] entries@[i].year == #[trigger] entries@[j].year && entries@[i].month
            == entries@[j].month && entry_key(entries@[i]) == entry_key(entries@[j])) by {
            assert(view[i].0 != view[j].0);
            assert(view[i] == category_entry_view(entries@[i]));
            assert(view[j] == category_entry_view(entries@[j]));
        }
    }
    Some(entries)
}

/// The amounts, in row order, of the rows of type `t` whose key is `k`.
pub open spec fn typed_amounts<K>(
    rows: Seq<Transaction>,
    key: spec_fn(Transaction) -> K,
    k: K,
    t: TransactionType,
) -> Seq<Amount>
    decreases rows.len(),
{
    if rows.len() == 0 {
        Seq::empty()
    } else {
        let before = typed_amounts(rows.drop_last(), key, k, t);
        if key(rows.last()) == k && rows.last().transaction_type == t {
            before.push(rows.last().amount)
        } else {
            before
        }
    }
}

proof fn lemma_find_key<K>(es: Seq<(K, MonthlySummary)>, k: K)
    ensures
        find_key(es, k) matches Some(j) ==> 0 <= j < es.len() && es[j].0 == k,
        find_key(es, k) is None ==> forall|j: int| 0 <= j < es.len() ==> es[j].0 != k,
    decreases es.len(),
{
    if es.len() > 0 {
        lemma_find_key(es.drop_last(), k);
        if find_key(es.drop_last(), k) is None {
            assert forall|j: int| 0 <= j < es.len() - 1 implies es[j].0 != k by {
                assert(es[j] == es.drop_last()[j]);
            }
        }
    }
}

/// No two entries share a key.
pub open spec fn keys_unique<K>(es: Seq<(K, MonthlySummary)>) -> bool {
    forall|a: int, b: int| 0 <= a < b < es.len() ==> es[a].0 != es[b].0
}

/// Every row's key has an entry, and every entry's key is some row's.
pub open spec fn keys_cover<K>(
    rows: Seq<Transaction>,
    key: spec_fn(Transaction) -> K,
    es: Seq<(K, MonthlySummary)>,
) -> bool {
    &&& forall|i: int|
        #![trigger rows[i]]
        0 <= i < rows.len() ==> exists|j: int|
            #![trigger es[j]]
            0 <= j < es.len() && es[j].0 == key(rows[i])
    &&& forall|j: int|
        #![trigger es[j]]
        0 <= j < es.len() ==> exists|i: int|
            #![trigger rows[i]]
            0 <= i < rows.len() && key(rows[i]) == es[j].0
}

/// Each entry's income and expense are the sums, in row order, of the amounts of its key's
/// income and expense rows.
pub open spec fn totals_match<K>(
    rows: Seq<Transaction>,
    key: spec_fn(Transaction) -> K,
    es: Seq<(K, MonthlySummary)>,
) -> bool {
    forall|j: int|
        #![trigger es[j]]
        0 <= j < es.len() ==> sum_amounts(typed_amounts(rows, key, es[j].0, TransactionType::Income))
            == Some(es[j].1.income) && sum_amounts(
            typed_amounts(rows, key, es[j].0, TransactionType::Expense),
        ) == Some(es[j].1.expense)
}

proof fn lemma_fold_keys_unique<K>(rows: Seq<Transaction>, key: spec_fn(Transaction) -> K)
    requires
        summary_fold(rows, key) is Some,
    ensures
        keys_unique(summary_fold(rows, key)->0),
    decreases rows.len(),
{
    if rows.len() > 0 {
        let prev = rows.drop_last();
        let tx = rows.last();
        let k = key(tx);
        lemma_fold_keys_unique(prev, key);
        let es0 = summary_fold(prev, key)->0;
        let es = summary_fold(rows, key)->0;
        lemma_find_key(es0, k);
        assert forall|a: int, b: int| 0 <= a < b < es.len() implies es[a].0 != es[b].0 by {
            if b < es0.len() {
                assert(es[a].0 == es0[a].0 || find_key(es0, k) == Some(a));
                assert(es[b].0 == es0[b].0 || find_key(es0, k) == Some(b));
            }
        }
    }
}

/// The keys after one step: old entries keep their keys, and the row's key gets an entry (the
/// existing one, or one new entry at the end, when no old entry has it).
proof fn lemma_step_keys<K>(es0: Seq<(K, MonthlySummary)>, tx: Transaction, k: K)
    requires
        fold_step(es0, tx, k) is Some,
    ensures
        ({
            let es = fold_step(es0, tx, k)->0;
            &&& es.len() == es0.len() || es.len() == es0.len() + 1
            &&& forall|j: int| 0 <= j < es0.len() ==> (#[trigger] es[j]).0 == es0[j].0
            &&& forall|j: int| es0.len() <= j < es.len() ==> (#[trigger] es[j]).0 == k
            &&& exists|j: int| #![trigger es[j]] 0 <= j < es.len() && es[j].0 == k
            &&& (es.len() == es0.len() + 1 ==> forall|j: int|
                0 <= j < es0.len() ==> (#[trigger] es0[j]).0 != k)
        }),
{
    lemma_find_key(es0, k);
    let es = fold_step(es0, tx, k)->0;
    match find_key(es0, k) {
        Some(j0) => {
            assert(es[j0].0 == k);
        },
        None => {
            assert(es[es0.len() as int].0 == k);
        },
    }
}

/// The totals after one step, when the keys were distinct: only the row's key's entry
/// changes, by the row's amount.
proof fn lemma_step_totals<K>(es0: Seq<(K, MonthlySummary)>, tx: Transaction, k: K)
    requires
        fold_step(es0, tx, k) is Some,
        keys_unique(es0),
    ensures
        ({
            let es = fold_step(es0, tx, k)->0;
            &&& forall|j: int|
                0 <= j < es.len() && (#[trigger] es[j]).0 != k ==> j < es0.len() && es[j].1
                    == es0[j].1
            &&& forall|j: int|
                0 <= j < es.len() && (#[trigger] es[j]).0 == k ==> Some(es[j].1) == add_row(
                    if j < es0.len() {
                        es0[j].1
                    } else {
                        empty_summary()
                    },
                    tx,
                )
        }),
{
    lemma_find_key(es0, k);
}

proof fn lemma_fold_covers_rows<K>(rows: Seq<Transaction>, key: spec_fn(Transaction) -> K)
    requires
        summary_fold(rows, key) is Some,
    ensures
        forall|i: int|
            #![trigger rows[i]]
            0 <= i < rows.len() ==> exists|j: int|
                #![trigger summary_fold(rows, key)->0[j]]
                0 <= j < summary_fold(rows, key)->0.len() && summary_fold(rows, key)->0[j].0 == key(
                    rows[i],
                ),
    decreases rows.len(),
{
    if rows.len() > 0 {
        let prev = rows.drop_last();
        let tx = rows.last();
        let k = key(tx);
        lemma_fold_covers_rows(prev, key);
        let es0 = summary_fold(prev, key)->0;
        let es = summary_fold(rows, key)->0;
        lemma_step_keys(es0, tx, k);
        assert forall|i: int| #![trigger rows[i]] 0 <= i < rows.len() implies exists|j: int|
            #![trigger es[j]]
            0 <= j < es.len() && es[j].0 == key(rows[i]) by {
            if i < prev.len() {
                assert(rows[i] == prev[i]);
                let j = choose|j: int| #![trigger es0[j]] 0 <= j < es0.len() && es0[j].0 == key(prev[i]);
                assert(es[j].0 == es0[j].0);
            }
        }
    }
}

proof fn lemma_fold_covers_entries<K>(rows: Seq<Transaction>, key: spec_fn(Transaction) -> K)
    requires
        summary_fold(rows, key) is Some,
    ensures
        forall|j: int|
            #![trigger summary_fold(rows, key)->0[j]]
            0 <= j < summary_fold(rows, key)->0.len() ==> exists|i: int|
                #![trigger rows[i]]
                0 <= i < rows.len() && key(rows[i]) == summary_fold(rows, key)->0[j].0,
    decreases rows.len(),
{
    if rows.len() > 0 {
        let prev = rows.drop_last();
        let tx = rows.last();
        let k = key(tx);
        lemma_fold_covers_entries(prev, key);
        let es0 = summary_fold(prev, key)->0;
        let es = summary_fold(rows, key)->0;
        lemma_step_keys(es0, tx, k);
        assert forall|j: int| #![trigger es[j]] 0 <= j < es.len() implies exists|i: int|
            #![trigger rows[i]]
            0 <= i < rows.len() && key(rows[i]) == es[j].0 by {
            if j < es0.len() && es[j].0 != k {
                let i = choose|i: int| #![trigger prev[i]] 0 <= i < prev.len() && key(prev[i]) == es0[j].0;
                assert(rows[i] == prev[i]);
            } else {
                assert(rows[rows.len() - 1] == tx);
            }
        }
    }
}

proof fn lemma_fold_covers<K>(rows: Seq<Transaction>, key: spec_fn(Transaction) -> K)
    requires
        summary_fold(rows, key) is Some,
    ensures
        keys_cover(rows, key, summary_fold(rows, key)->0),
{
    lemma_fold_covers_rows(rows, key);
    lemma_fold_covers_entries(rows, key);
}

proof fn lemma_fold_sums<K>(rows: Seq<Transaction>, key: spec_fn(Transaction) -> K)
    requires
        summary_fold(rows, key) is Some,
    ensures
        totals_match(rows, key, summary_fold(rows, key)->0),
    decreases rows.len(),
{
    if rows.len() > 0 {
        let prev = rows.drop_last();
        let tx = rows.last();
        let k = key(tx);
        lemma_fold_sums(prev, key);
        lemma_fold_keys_unique(prev, key);
        let es0 = summary_fold(prev, key)->0;
        let es = summary_fold(rows, key)->0;
        lemma_step_keys(es0, tx, k);
        lemma_step_totals(es0, tx, k);
        if es.len() == es0.len() + 1 {
            lemma_fold_covers(prev, key);
            assert forall|i: int| 0 <= i < prev.len() implies key(#[trigger] prev[i]) != k by {
                let j = choose|j: int| #![trigger es0[j]] 0 <= j < es0.len() && es0[j].0 == key(prev[i]);
            }
            lemma_no_amounts(prev, key, k, TransactionType::Income);
            lemma_no_amounts(prev, key, k, TransactionType::Expense);
        }
        assert forall|j: int| #![trigger es[j]] 0 <= j < es.len() implies sum_amounts(
            typed_amounts(rows, key, es[j].0, TransactionType::Income),
        ) == Some(es[j].1.income) && sum_amounts(
            typed_amounts(rows, key, es[j].0, TransactionType::Expense),
        ) == Some(es[j].1.expense) by {
            let kj = es[j].0;
            let inc = typed_amounts(prev, key, kj, TransactionType::Income);
            let exp = typed_amounts(prev, key, kj, TransactionType::Expense);
            assert(inc.push(tx.amount).drop_last() =~= inc);
            assert(exp.push(tx.amount).drop_last() =~= exp);
            if kj == k {
                if j < es0.len() {
                    assert(es0[j].0 == k);
                    assert(sum_amounts(inc) == Some(es0[j].1.income));
                }
            } else {
                assert(es0[j].0 == kj);
            }
        }
    }
}

/// What the totals say, whenever no addition overflowed: every key has one entry; every row's
/// key has an entry and every entry's key is some row's; and each entry's income and expense
/// are the sums, in row order, of the amounts of its key's income and expense rows.
pub proof fn lemma_totals_are_sums<K>(rows: Seq<Transaction>, key: spec_fn(Transaction) -> K)
    requires
        summary_fold(rows, key) is Some,
    ensures
        keys_unique(summary_fold(rows, key)->0),
        keys_cover(rows, key, summary_fold(rows, key)->0),
        totals_match(rows, key, summary_fold(rows, key)->0),
{
    lemma_fold_keys_unique(rows, key);
    lemma_fold_covers(rows, key);
    lemma_fold_sums(rows, key);
}

/// The totals fail exactly when some key's running income or expense sum overflows.
pub proof fn lemma_totals_fail_only_on_overflow<K>(rows: Seq<Transaction>, key: spec_fn(Transaction) -> K)
    ensures
        summary_fold(rows, key) is None <==> exists|i: int, t: TransactionType|
            0 <= i < rows.len() && sum_amounts(#[trigger] typed_amounts(rows, key, key(rows[i]), t))
                is None,
    decreases rows.len(),
{
    if summary_fold(rows, key) is Some {
        lemma_totals_are_sums(rows, key);
        let es = summary_fold(rows, key)->0;
        assert forall|i: int, t: TransactionType|
            0 <= i < rows.len() implies sum_amounts(#[trigger] typed_amounts(rows, key, key(rows[i]), t))
            is Some by {
            let j = choose|j: int| #![trigger es[j]] 0 <= j < es.len() && es[j].0 == key(rows[i]);
            match t {
                TransactionType::Income => {},
                TransactionType::Expense => {},
            }
        }
    } else if rows.len() > 0 {
        let prev = rows.drop_last();
        let tx = rows.last();
        let k = key(tx);
        let last = rows.len() - 1;
        assert(rows[last] == tx);
        if summary_fold(prev, key) is None {
            lemma_totals_fail_only_on_overflow(prev, key);
            let (i, t) = choose|i: int, t: TransactionType|
                0 <= i < prev.len() && sum_amounts(#[trigger] typed_amounts(prev, key, key(prev[i]), t))
                    is None;
            assert(rows[i] == prev[i]);
            let before = typed_amounts(prev, key, key(prev[i]), t);
            assert(before.push(tx.amount).drop_last() =~= before);
            assert(sum_amounts(typed_amounts(rows, key, key(rows[i]), t)) is None);
        } else {
            let es0 = summary_fold(prev, key)->0;
            lemma_totals_are_sums(prev, key);
            lemma_find_key(es0, k);
            let t = tx.transaction_type;
            let before = typed_amounts(prev, key, k, t);
            assert(before.push(tx.amount).drop_last() =~= before);
            match find_key(es0, k) {
                Some(j0) => {
                    assert(es0[j0].0 == k);
                    match t {
                        TransactionType::Income => {
                            assert(sum_amounts(before) == Some(es0[j0].1.income));
                        },
                        TransactionType::Expense => {
                            assert(sum_amounts(before) == Some(es0[j0].1.expense));
                        },
                    }
                },
                None => {
                    assert forall|i: int| 0 <= i < prev.len() implies key(#[trigger] prev[i]) != k by {
                        let j = choose|j: int| #![trigger es0[j]] 0 <= j < es0.len() && es0[j].0 == key(prev[i]);
                    }
                    lemma_no_amounts(prev, key, k, t);
                },
            }
            assert(sum_amounts(typed_amounts(rows, key, key(rows[last]), t)) is None);
        }
    }
}

/// A key no row has gathers no amounts.
proof fn lemma_no_amounts<K>(rows: Seq<Transaction>, key: spec_fn(Transaction) -> K, k: K, t: TransactionType)
    requires
        forall|i: int| 0 <= i < rows.len() ==> key(#[trigger] rows[i]) != k,
    ensures
        typed_amounts(rows, key, k, t) == Seq::<Amount>::empty(),
    decreases rows.len(),
{
    if rows.len() > 0 {
        assert forall|i: int| 0 <= i < rows.len() - 1 implies key(#[trigger] rows.drop_last()[i]) != k by {
            assert(rows.drop_last()[i] == rows[i]);
        }
        lemma_no_amounts(rows.drop_last(), key, k, t);
        assert(key(rows[rows.len() - 1]) != k);
    }
}

/// Rows counted in the totals: every row, or those of one year.
pub open spec fn in_year(year_filter: Option<i32>) -> spec_fn(Transaction) -> bool {
    |t: Transaction|
        match year_filter {
            Some(y) => t.date.year == y,
            None => true,
        }
}

/// Total income and total expense of the rows at `indices` (positions past the end are
/// skipped), optionally only those dated in one year; `None` when a total overflows.
pub fn calculate_totals(transactions: &[Transaction], indices: &[usize], year_filter: Option<i32>) -> (r:
    Option<(Amount, Amount)>)
    requires
        forall|i: int| 0 <= i < transactions@.len() ==> amount_wf(#[trigger] transactions@[i].amount),
    ensures
        ({
            let rows = selected_rows(transactions@, indices@);
            let inc = sum_amounts(typed_amounts(rows, in_year(year_filter), true, TransactionType::Income));
            let exp = sum_amounts(typed_amounts(rows, in_year(year_filter), true, TransactionType::Expense));
            r == (match (inc, exp) {
                (Some(a), Some(b)) => Some((a, b)),
                _ => None::<(Amount, Amount)>,
            })
        }),
{
    let ghost key = in_year(year_filter);
    let mut income = zero();
    let mut expense = zero();
    let mut k: usize = 0;
    while k < indices.len()
        invariant
            k <= indices@.len(),
            key == in_year(year_filter),
            forall|i: int| 0 <= i < transactions@.len() ==> amount_wf(#[trigger] transactions@[i].amount),
            sum_amounts(typed_amounts(selected_rows(transactions@, indices@.take(k as int)), key, true, TransactionType::Income))
                == Some(income),
            sum_amounts(typed_amounts(selected_rows(transactions@, indices@.take(k as int)), key, true, TransactionType::Expense))
                == Some(expense),
            amount_wf(income),
            amount_wf(expense),
        decreases indices@.len() - k,
    {
        let ghost rows = selected_rows(transactions@, indices@.take(k as int));
        let ghost inc = typed_amounts(rows, key, true, TransactionType::Income);
        let ghost exp = typed_amounts(rows, key, true, TransactionType::Expense);
        proof {
            lemma_selected_step(transactions@, indices@, k as int);
        }
        let idx = indices[k];
        if idx < transactions.len() {
            let tx = &transactions[idx];
            proof {
                assert(rows.push(*tx).drop_last() =~= rows);
                assert(inc.push(tx.amount).drop_last() =~= inc);
                assert(exp.push(tx.amount).drop_last() =~= exp);
                assert(amount_wf(transactions@[idx as int].amount));
            }
            let counted = match year_filter {
                Some(y) => tx.date.year == y,
                None => true,
            };
            if counted {
                match tx.transaction_type {
                    TransactionType::Income => match checked_add(income, tx.amount) {
                        Some(v) => {
                            income = v;
                        },
                        None => {
                            proof {
                                lemma_typed_sum_none_extends(transactions@, indices@, key, TransactionType::Income, k + 1);
                            }
                            return None;
                        },
                    },
                    TransactionType::Expense => match checked_add(expense, tx.amount) {
                        Some(v) => {
                            expense = v;
                        },
                        None => {
                            proof {
                                lemma_typed_sum_none_extends(transactions@, indices@, key, TransactionType::Expense, k + 1);
                            }
                            return None;
                        },
                    },
                }
            }
        }
        k = k + 1;
    }
    proof {
        assert(indices@.take(indices@.len() as int) =~= indices@);
    }
    Some((income, expense))
}

proof fn lemma_typed_sum_none_extends(
    txs: Seq<Transaction>,
    indices: Seq<usize>,
    key: spec_fn(Transaction) -> bool,
    t: TransactionType,
    n: int,
)
    requires
        0 <= n <= indices.len(),
        sum_amounts(typed_amounts(selected_rows(txs, indices.take(n)), key, true, t)) is None,
    ensures
        sum_amounts(typed_amounts(selected_rows(txs, indices), key, true, t)) is None,
    decreases indices.len() - n,
{
    if n < indices.len() {
        lemma_selected_step(txs, indices, n);
        let rows = selected_rows(txs, indices.take(n));
        let before = typed_amounts(rows, key, true, t);
        if indices[n] < txs.len() {
            let tx = txs[indices[n] as int];
            assert(rows.push(tx).drop_last() =~= rows);
            assert(before.push(tx.amount).drop_last() =~= before);
        }
        lemma_typed_sum_none_extends(txs, indices, key, t, n + 1);
    } else {
        assert(indices.take(n) =~= indices);
    }
}

/// Inserts `x` into an ascending list of distinct years, unless it is already there.
fn insert_year(v: &mut Vec<i32>, x: i32)
    requires
        forall|a: int, b: int| 0 <= a < b < old(v).len() ==> old(v)[a] < old(v)[b],
    ensures
        forall|a: int, b: int| 0 <= a < b < final(v).len() ==> final(v)[a] < final(v)[b],
        forall|y: i32| final(v)@.contains(y) <==> (old(v)@.contains(y) || y == x),
{
    let mut j: usize = 0;
    while j < v.len() && v[j] < x
        invariant
            j <= v.len(),
            v@ == old(v)@,
            forall|a: int, b: int| 0 <= a < b < v.len() ==> v[a] < v[b],
            forall|a: int| 0 <= a < j ==> v[a] < x,
        decreases v.len() - j,
    {
        j = j + 1;
    }
    if j < v.len() && v[j] == x {
        return;
    }
    v.insert(j, x);
    proof {
        assert forall|y: i32| v@.contains(y) <==> (old(v)@.contains(y) || y == x) by {
            if v@.contains(y) {
                let w = choose|w: int| 0 <= w < v.len() && v@[w] == y;
                if w < j {
                    assert(old(v)@[w] == y);
                } else if w > j {
                    assert(old(v)@[w - 1] == y);
                }
            }
            if old(v)@.contains(y) {
                let w = choose|w: int| 0 <= w < old(v).len() && old(v)@[w] == y;
                if w < j {
                    assert(v@[w] == y);
                } else {
                    assert(v@[w + 1] == y);
                }
            }
            if y == x {
                assert(v@[j as int] == x);
            }
        }
    }
}

/// The years of the rows at `indices` (positions past the end are skipped), ascending and
/// without repeats.
pub fn summary_years(transactions: &[Transaction], indices: &[usize]) -> (r: Vec<i32>)
    ensures
        forall|a: int, b: int| 0 <= a < b < r@.len() ==> r@[a] < r@[b],
        forall|y: i32|
            r@.contains(y) <==> exists|i: int|
                0 <= i < selected_rows(transactions@, indices@).len() && (#[trigger] selected_rows(
                    transactions@,
                    indices@,
                )[i]).date.year == y,
{
    let mut years: Vec<i32> = Vec::new();
    let mut k: usize = 0;
    while k < indices.len()
        invariant
            k <= indices@.len(),
            forall|a: int, b: int| 0 <= a < b < years@.len() ==> years@[a] < years@[b],
            forall|y: i32|
                years@.contains(y) <==> exists|i: int|
                    0 <= i < selected_rows(transactions@, indices@.take(k as int)).len() && (
                    #[trigger] selected_rows(transactions@, indices@.take(k as int))[i]).date.year
                        == y,
        decreases indices@.len() - k,
    {
        let ghost rows = selected_rows(transactions@, indices@.take(k as int));
        let ghost next = selected_rows(transactions@, indices@.take(k + 1));
        proof {
            lemma_selected_step(transactions@, indices@, k as int);
        }
        let idx = indices[k];
        if idx < transactions.len() {
            let ghost before = years@;
            insert_year(&mut years, transactions[idx].date.year);
            proof {
                assert forall|y: i32| years@.contains(y) <==> exists|i: int|
                    0 <= i < next.len() && (#[trigger] next[i]).date.year == y by {
                    if years@.contains(y) {
                        if before.contains(y) {
                            let i = choose|i: int| 0 <= i < rows.len() && (#[trigger] rows[i]).date.year == y;
                            assert(next[i] == rows[i]);
                        } else {
                            assert(next[rows.len() as int] == transactions@[idx as int]);
                        }
                    }
                    if exists|i: int| 0 <= i < next.len() && (#[trigger] next[i]).date.year == y {
                        let i = choose|i: int| 0 <= i < next.len() && (#[trigger] next[i]).date.year == y;
                        if i < rows.len() {
                            assert(next[i] == rows[i]);
                        }
                    }
                }
            }
        }
        k = k + 1;
    }
    proof {
        assert(indices@.take(indices@.len() as int) =~= indices@);
    }
    years
}

pub proof fn lemma_find_key_prefix<K>(es: Seq<(K, MonthlySummary)>, k: K, n: int)
    requires
        0 <= n <= es.len(),
        find_key(es.take(n), k) is Some,
    ensures
        find_key(es, k) == find_key(es.take(n), k),
    decreases es.len() - n,
{
    if n < es.len() {
        assert(es.take(n + 1).drop_last() =~= es.take(n));
        lemma_find_key_prefix(es, k, n + 1);
    } else {
        assert(es.take(n) =~= es);
    }
}

proof fn lemma_fold_none_extends<K>(
    txs: Seq<Transaction>,
    indices: Seq<usize>,
    key: spec_fn(Transaction) -> K,
    n: int,
)
    requires
        0 <= n <= indices.len(),
        summary_fold(selected_rows(txs, indices.take(n)), key) is None,
    ensures
        summary_fold(selected_rows(txs, indices), key) is None,
    decreases indices.len() - n,
{
    if n < indices.len() {
        lemma_selected_step(txs, indices, n);
        let rows = selected_rows(txs, indices.take(n));
        if indices[n] < txs.len() {
            assert(rows.push(txs[indices[n] as int]).drop_last() =~= rows);
        }
        lemma_fold_none_extends(txs, indices, key, n + 1);
    } else {
        assert(indices.take(n) =~= indices);
    }
}

} // verus!
