//! Sorting the transaction table, and the simple and advanced filters over it.
use crate::calendar::{chrono_parse_date, date_before, date_le, date_lt, parse_date, Date};
use crate::model::{
    transaction_type_rank, SortColumn, SortOrder, Transaction, TransactionType, DATE_FORMAT,
};
use crate::money::{
    amount_less, amount_wf, decimal_parse, less_than, parse_amount,
    lemma_amount_order, Amount,
};
use crate::sorting::{
    is_sorted_by, lemma_stable_sorted_is_sorted_permutation, not_before_transitive, stable_sort,
    stable_sorted,
};
use crate::text::{
    contains_spec, eq_ignore_ascii_case_spec, text_contains, text_eq_ignore_ascii_case, text_less,
    text_lt, to_lowercase, trim, trim_spec, unicode_lowercase, lemma_text_lt_total,
};
use vstd::prelude::*;

verus! {

/// `a` sorts strictly before `b` by the key of `column`, ascending.
pub open spec fn key_less(column: SortColumn, a: Transaction, b: Transaction) -> bool {
    match column {
        SortColumn::Date => date_lt(a.date, b.date),
        SortColumn::Description => text_lt(a.description@, b.description@),
        SortColumn::Amount => amount_less(a.amount, b.amount),
        SortColumn::Type => transaction_type_rank(a.transaction_type) < transaction_type_rank(
            b.transaction_type,
        ),
        SortColumn::Category => text_lt(a.category@, b.category@),
        SortColumn::Subcategory => text_lt(a.subcategory@, b.subcategory@),
    }
}

/// The order of the transaction table: by the column's key, reversed when descending.
pub open spec fn transaction_before(column: SortColumn, order: SortOrder) -> spec_fn(
    Transaction,
    Transaction,
) -> bool {
    |a: Transaction, b: Transaction|
        if order == SortOrder::Descending {
            key_less(column, b, a)
        } else {
            key_less(column, a, b)
        }
}

/// Every amount of the rows is one a `Decimal` holds.
pub open spec fn amounts_valid(txs: Seq<Transaction>) -> bool {
    forall|i: int| 0 <= i < txs.len() ==> amount_wf(#[trigger] txs[i].amount)
}

fn key_less_exec(column: SortColumn, a: &Transaction, b: &Transaction) -> (r: bool)
    requires
        amount_wf(a.amount),
        amount_wf(b.amount),
    ensures
        r == key_less(column, *a, *b),
{
    match column {
        SortColumn::Date => date_before(&a.date, &b.date),
        SortColumn::Description => text_less(a.description.as_str(), b.description.as_str()),
        SortColumn::Amount => less_than(a.amount, b.amount),
        SortColumn::Type => a.transaction_type.sorts_before(b.transaction_type),
        SortColumn::Category => text_less(a.category.as_str(), b.category.as_str()),
        SortColumn::Subcategory => text_less(a.subcategory.as_str(), b.subcategory.as_str()),
    }
}

/// Sorts transactions by the selected column and order. The sort is stable: rows with equal
/// keys keep their order.
pub fn sort_transactions_impl(
    transactions: &mut Vec<Transaction>,
    sort_by: SortColumn,
    sort_order: SortOrder,
)
    requires
        amounts_valid(old(transactions)@),
    ensures
        final(transactions)@ == stable_sorted(
            old(transactions)@,
            transaction_before(sort_by, sort_order),
        ),
{
    let descending = sort_order == SortOrder::Descending;
    let less = |a: &Transaction, b: &Transaction| -> (r: bool)
        requires
            amount_wf(a.amount),
            amount_wf(b.amount),
        ensures
            r == (if descending {
                key_less(sort_by, *b, *a)
            } else {
                key_less(sort_by, *a, *b)
            }),
        {
            if descending {
                key_less_exec(sort_by, b, a)
            } else {
                key_less_exec(sort_by, a, b)
            }
        };
    let ghost lt = transaction_before(sort_by, sort_order);
    let mut rows: Vec<Transaction> = Vec::new();
    std::mem::swap(&mut rows, transactions);
    let sorted = stable_sort(rows, &less, Ghost(lt), Ghost(|t: Transaction| amount_wf(t.amount)));
    *transactions = sorted;
}

/// The positions, in increasing order, of the rows `keep` accepts.
pub open spec fn matching_indices(txs: Seq<Transaction>, keep: spec_fn(Transaction) -> bool) -> Seq<
    usize,
>
    decreases txs.len(),
{
    if txs.len() == 0 {
        Seq::empty()
    } else {
        let before = matching_indices(txs.drop_last(), keep);
        if keep(txs.last()) {
            before.push((txs.len() - 1) as usize)
        } else {
            before
        }
    }
}

/// The simple filter: an empty query shows everything, otherwise the rows whose description
/// contains the query, both compared in lower case.
pub open spec fn simple_match(query: Seq<char>, tx: Transaction) -> bool {
    let q = unicode_lowercase(query);
    q.len() == 0 || contains_spec(unicode_lowercase(tx.description@), q)
}

/// The positions of the rows the simple filter shows for `query`.
pub fn filter_indices(transactions: &[Transaction], query: &str) -> (r: Vec<usize>)
    ensures
        r@ == matching_indices(transactions@, |t: Transaction| simple_match(query@, t)),
{
    let ghost keep = |t: Transaction| simple_match(query@, t);
    let q = to_lowercase(query);
    let mut out: Vec<usize> = Vec::new();
    let mut i: usize = 0;
    while i < transactions.len()
        invariant
            i <= transactions@.len(),
            q@ == unicode_lowercase(query@),
            keep == (|t: Transaction| simple_match(query@, t)),
            out@ == matching_indices(transactions@.take(i as int), keep),
        decreases transactions@.len() - i,
    {
        proof {
            assert(transactions@.take(i + 1).drop_last() =~= transactions@.take(i as int));
        }
        let shown = if q.as_str().unicode_len() == 0 {
            true
        } else {
            let d = to_lowercase(transactions[i].description.as_str());
            text_contains(d.as_str(), q.as_str())
        };
        if shown {
            out.push(i);
        }
        i = i + 1;
    }
    proof {
        assert(transactions@.take(transactions@.len() as int) =~= transactions@);
    }
    out
}

/// The criteria of the advanced filter, read from its fields: an inclusive date range, texts
/// the description, category and subcategory must contain, a transaction type, and an
/// inclusive amount range. A field that does not parse sets no bound.
pub struct AdvancedFilter {
    pub date_from: Option<Date>,
    pub date_to: Option<Date>,
    pub description: String,
    pub category: String,
    pub subcategory: String,
    pub type_query: String,
    pub amount_from: Option<Amount>,
    pub amount_to: Option<Amount>,
}

/// The filter the eight advanced-filter fields describe (date from, date to, description,
/// category, subcategory, type, amount from, amount to).
pub open spec fn advanced_filter_spec(fields: Seq<String>) -> (
    Option<Date>,
    Option<Date>,
    Seq<char>,
    Seq<char>,
    Seq<char>,
    Seq<char>,
    Option<Amount>,
    Option<Amount>,
) {
    (
        chrono_parse_date(fields[0]@, DATE_FORMAT@),
        chrono_parse_date(fields[1]@, DATE_FORMAT@),
        unicode_lowercase(fields[2]@),
        unicode_lowercase(fields[3]@),
        unicode_lowercase(fields[4]@),
        trim_spec(fields[5]@),
        decimal_parse(fields[6]@),
        decimal_parse(fields[7]@),
    )
}

/// The text criterion `q` (already lower case) accepts `text`.
pub open spec fn text_criterion(q: Seq<char>, text: Seq<char>) -> bool {
    q.len() == 0 || contains_spec(unicode_lowercase(text), q)
}

/// The advanced filter shows `tx`.
pub open spec fn advanced_match(f: AdvancedFilter, tx: Transaction) -> bool {
    &&& (f.date_from matches Some(d) ==> !date_lt(tx.date, d))
    &&& (f.date_to matches Some(d) ==> !date_lt(d, tx.date))
    &&& text_criterion(f.description@, tx.description@)
    &&& text_criterion(f.category@, tx.category@)
    &&& text_criterion(f.subcategory@, tx.subcategory@)
    &&& (eq_ignore_ascii_case_spec(f.type_query@, "Income"@) ==> tx.transaction_type
        == TransactionType::Income)
    &&& (eq_ignore_ascii_case_spec(f.type_query@, "Expense"@) ==> tx.transaction_type
        == TransactionType::Expense)
    &&& (f.amount_from matches Some(a) ==> !amount_less(tx.amount, a))
    &&& (f.amount_to matches Some(a) ==> !amount_less(a, tx.amount))
}

fn text_criterion_exec(q: &String, text: &String) -> (r: bool)
    ensures
        r == text_criterion(q@, text@),
{
    if q.as_str().unicode_len() == 0 {
        true
    } else {
        let t = to_lowercase(text.as_str());
        text_contains(t.as_str(), q.as_str())
    }
}

impl AdvancedFilter {
    /// The amounts it compares against are ones a `Decimal` holds.
    pub open spec fn amounts_ok(&self) -> bool {
        &&& (self.amount_from matches Some(a) ==> amount_wf(a))
        &&& (self.amount_to matches Some(a) ==> amount_wf(a))
    }

    /// Reads the criteria from the eight advanced-filter fields.
    pub fn from_fields(fields: &[String]) -> (r: AdvancedFilter)
        requires
            fields@.len() == 8,
        ensures
            (r.date_from, r.date_to, r.description@, r.category@, r.subcategory@, r.type_query@,
            r.amount_from, r.amount_to) == advanced_filter_spec(fields@),
            r.amounts_ok(),
    {
        AdvancedFilter {
            date_from: parse_date(fields[0].as_str(), DATE_FORMAT),
            date_to: parse_date(fields[1].as_str(), DATE_FORMAT),
            description: to_lowercase(fields[2].as_str()),
            category: to_lowercase(fields[3].as_str()),
            subcategory: to_lowercase(fields[4].as_str()),
            type_query: trim(fields[5].as_str()),
            amount_from: parse_amount(fields[6].as_str()),
            amount_to: parse_amount(fields[7].as_str()),
        }
    }

    /// Whether the filter shows `tx`.
    pub fn matches(&self, tx: &Transaction) -> (r: bool)
        requires
            self.amounts_ok(),
            amount_wf(tx.amount),
        ensures
            r == advanced_match(*self, *tx),
    {
        if let Some(d) = self.date_from {
            if date_before(&tx.date, &d) {
                return false;
            }
        }
        if let Some(d) = self.date_to {
            if date_before(&d, &tx.date) {
                return false;
            }
        }
        if !text_criterion_exec(&self.description, &tx.description) {
            return false;
        }
        if !text_criterion_exec(&self.category, &tx.category) {
            return false;
        }
        if !text_criterion_exec(&self.subcategory, &tx.subcategory) {
            return false;
        }
        if text_eq_ignore_ascii_case(self.type_query.as_str(), "Income")
            && tx.transaction_type != TransactionType::Income {
            return false;
        }
        if text_eq_ignore_ascii_case(self.type_query.as_str(), "Expense")
            && tx.transaction_type != TransactionType::Expense {
            return false;
        }
        if let Some(f) = self.amount_from {
            if less_than(tx.amount, f) {
                return false;
            }
        }
        if let Some(t) = self.amount_to {
            if less_than(t, tx.amount) {
                return false;
            }
        }
        true
    }
}

/// The positions of the rows the advanced filter shows.
pub fn advanced_filter_indices(transactions: &[Transaction], filter: &AdvancedFilter) -> (r: Vec<
    usize,
>)
    requires
        amounts_valid(transactions@),
        filter.amounts_ok(),
    ensures
        r@ == matching_indices(transactions@, |t: Transaction| advanced_match(*filter, t)),
{
    let ghost keep = |t: Transaction| advanced_match(*filter, t);
    let mut out: Vec<usize> = Vec::new();
    let mut i: usize = 0;
    while i < transactions.len()
        invariant
            i <= transactions@.len(),
            amounts_valid(transactions@),
            filter.amounts_ok(),
            keep == (|t: Transaction| advanced_match(*filter, t)),
            out@ == matching_indices(transactions@.take(i as int), keep),
        decreases transactions@.len() - i,
    {
        proof {
            assert(transactions@.take(i + 1).drop_last() =~= transactions@.take(i as int));
        }
        if filter.matches(&transactions[i]) {
            out.push(i);
        }
        i = i + 1;
    }
    proof {
        assert(transactions@.take(transactions@.len() as int) =~= transactions@);
    }
    out
}

proof fn lemma_key_order(column: SortColumn, a: Transaction, b: Transaction, c: Transaction)
    ensures
        key_less(column, a, b) ==> !key_less(column, b, a),
        !key_less(column, a, b) && !key_less(column, b, c) ==> !key_less(column, a, c),
{
    match column {
        SortColumn::Description => {
            lemma_text_lt_total(a.description@, b.description@, c.description@);
            lemma_text_lt_total(b.description@, c.description@, a.description@);
            lemma_text_lt_total(c.description@, a.description@, b.description@);
            lemma_text_lt_total(c.description@, b.description@, a.description@);
        },
        SortColumn::Category => {
            lemma_text_lt_total(a.category@, b.category@, c.category@);
            lemma_text_lt_total(b.category@, c.category@, a.category@);
            lemma_text_lt_total(c.category@, a.category@, b.category@);
            lemma_text_lt_total(c.category@, b.category@, a.category@);
        },
        SortColumn::Subcategory => {
            lemma_text_lt_total(a.subcategory@, b.subcategory@, c.subcategory@);
            lemma_text_lt_total(b.subcategory@, c.subcategory@, a.subcategory@);
            lemma_text_lt_total(c.subcategory@, a.subcategory@, b.subcategory@);
            lemma_text_lt_total(c.subcategory@, b.subcategory@, a.subcategory@);
        },
        SortColumn::Amount => {
            lemma_amount_order(a.amount, b.amount, c.amount);
        },
        _ => {},
    }
}

proof fn lemma_table_order(column: SortColumn, order: SortOrder)
    ensures
        not_before_transitive(transaction_before(column, order)),
{
    let lt = transaction_before(column, order);
    assert forall|a: Transaction, b: Transaction| #[trigger] lt(a, b) implies !lt(b, a) by {
        lemma_key_order(column, a, b, a);
        lemma_key_order(column, b, a, b);
    }
    assert forall|a: Transaction, b: Transaction, c: Transaction|
        #![trigger lt(a, b), lt(b, c)]
        !lt(a, b) && !lt(b, c) implies !lt(a, c) by {
        if order == SortOrder::Descending {
            lemma_key_order(column, c, b, a);
        } else {
            lemma_key_order(column, a, b, c);
        }
    }
}

/// Sorting the table leaves its rows ordered by the chosen column (no row sorts strictly before
/// an earlier one, in the chosen direction) and holding exactly the rows it held before.
pub proof fn lemma_sorted_table(rows: Seq<Transaction>, column: SortColumn, order: SortOrder)
    ensures
        is_sorted_by(
            stable_sorted(rows, transaction_before(column, order)),
            transaction_before(column, order),
        ),
        stable_sorted(rows, transaction_before(column, order)).to_multiset() == rows.to_multiset(),
{
    lemma_table_order(column, order);
    lemma_stable_sorted_is_sorted_permutation(rows, transaction_before(column, order));
}

/// The filter with its date range removed, every other criterion kept.
pub open spec fn without_date_range(f: AdvancedFilter) -> AdvancedFilter {
    AdvancedFilter {
        date_from: None,
        date_to: None,
        description: f.description,
        category: f.category,
        subcategory: f.subcategory,
        type_query: f.type_query,
        amount_from: f.amount_from,
        amount_to: f.amount_to,
    }
}

/// The date range is inclusive at both ends: a transaction dated from the first bound through
/// the last (either bound itself included) is shown exactly when the other criteria show it,
/// and one dated before the first bound or after the last is hidden.
pub proof fn lemma_date_range_inclusive(f: AdvancedFilter, tx: Transaction)
    ensures
        advanced_match(f, tx) == (advanced_match(without_date_range(f), tx) && (f.date_from matches Some(
            from,
        ) ==> date_le(from, tx.date)) && (f.date_to matches Some(to) ==> date_le(tx.date, to))),
        f.date_to == Some(tx.date) && f.date_from is None ==> advanced_match(f, tx)
            == advanced_match(without_date_range(f), tx),
        f.date_from == Some(tx.date) && f.date_to is None ==> advanced_match(f, tx)
            == advanced_match(without_date_range(f), tx),
{
}

/// Where a column's key does not tell two rows apart the table keeps them as they were;
/// otherwise each column is ordered by its natural order: dates earliest first, texts (the
/// description, category, subcategory) in `str` order, Income before Expense, and amounts by
/// value, ascending; descending reverses it. Holds for every row, not only neighbours.
pub proof fn lemma_columns_sort_naturally(rows: Seq<Transaction>, column: SortColumn, order: SortOrder)
    ensures
        ({
            let t = stable_sorted(rows, transaction_before(column, order));
            forall|i: int, j: int|
                #![trigger t[i], t[j]]
                0 <= i < j < t.len() ==> {
                    let (x, y) = if order == SortOrder::Ascending {
                        (t[i], t[j])
                    } else {
                        (t[j], t[i])
                    };
                    match column {
                        SortColumn::Date => date_le(x.date, y.date),
                        SortColumn::Description => !text_lt(y.description@, x.description@),
                        SortColumn::Category => !text_lt(y.category@, x.category@),
                        SortColumn::Subcategory => !text_lt(y.subcategory@, x.subcategory@),
                        SortColumn::Type => !(y.transaction_type == TransactionType::Income
                            && x.transaction_type == TransactionType::Expense),
                        SortColumn::Amount => !amount_less(y.amount, x.amount),
                    }
                }
        }),
        stable_sorted(rows, transaction_before(column, order)).to_multiset() == rows.to_multiset(),
{
    lemma_sorted_table(rows, column, order);
    let t = stable_sorted(rows, transaction_before(column, order));
    let lt = transaction_before(column, order);
    assert forall|i: int, j: int| #![trigger t[i], t[j]] 0 <= i < j < t.len() implies {
        let (x, y) = if order == SortOrder::Ascending {
            (t[i], t[j])
        } else {
            (t[j], t[i])
        };
        match column {
            SortColumn::Date => date_le(x.date, y.date),
            SortColumn::Description => !text_lt(y.description@, x.description@),
            SortColumn::Category => !text_lt(y.category@, x.category@),
            SortColumn::Subcategory => !text_lt(y.subcategory@, x.subcategory@),
            SortColumn::Type => !(y.transaction_type == TransactionType::Income
                && x.transaction_type == TransactionType::Expense),
            SortColumn::Amount => !amount_less(y.amount, x.amount),
        }
    } by {
        assert(!lt(t[j], t[i]));
    }
}

/// An advanced filter with no criterion set shows every transaction; a type criterion of
/// "income" or "expense" (in any ASCII case) hides the transactions of the other type; and an
/// amount range is inclusive at both ends.
pub proof fn lemma_filter_criteria(f: AdvancedFilter, tx: Transaction)
    ensures
        f.date_from is None && f.date_to is None && f.description@.len() == 0 && f.category@.len()
            == 0 && f.subcategory@.len() == 0 && f.type_query@.len() == 0 && f.amount_from is None
            && f.amount_to is None ==> advanced_match(f, tx),
        eq_ignore_ascii_case_spec(f.type_query@, "income"@) && tx.transaction_type
            == TransactionType::Expense ==> !advanced_match(f, tx),
        eq_ignore_ascii_case_spec(f.type_query@, "expense"@) && tx.transaction_type
            == TransactionType::Income ==> !advanced_match(f, tx),
        f.amount_from == Some(tx.amount) && f.amount_to == Some(tx.amount) ==> advanced_match(f, tx)
            == advanced_match(
            AdvancedFilter {
                date_from: f.date_from,
                date_to: f.date_to,
                description: f.description,
                category: f.category,
                subcategory: f.subcategory,
                type_query: f.type_query,
                amount_from: None,
                amount_to: None,
            },
            tx,
        ),
{
    reveal_strlit("income");
    reveal_strlit("Income");
    reveal_strlit("expense");
    reveal_strlit("Expense");
    reveal_strlit("");
    assert("Income"@.len() == 6 && "income"@.len() == 6);
    assert("Expense"@.len() == 7 && "expense"@.len() == 7);
    if eq_ignore_ascii_case_spec(f.type_query@, "income"@) {
        assert forall|i: int| 0 <= i < 6 implies crate::text::ascii_lower(f.type_query@[i])
            == crate::text::ascii_lower("Income"@[i]) by {
            assert(crate::text::ascii_lower(f.type_query@[i]) == crate::text::ascii_lower("income"@[i]));
        }
        assert(eq_ignore_ascii_case_spec(f.type_query@, "Income"@));
    }
    if eq_ignore_ascii_case_spec(f.type_query@, "expense"@) {
        assert forall|i: int| 0 <= i < 7 implies crate::text::ascii_lower(f.type_query@[i])
            == crate::text::ascii_lower("Expense"@[i]) by {
            assert(crate::text::ascii_lower(f.type_query@[i]) == crate::text::ascii_lower("expense"@[i]));
        }
        assert(eq_ignore_ascii_case_spec(f.type_query@, "Expense"@));
    }
    crate::money::lemma_amount_order(tx.amount, tx.amount, tx.amount);
}

} // verus!
