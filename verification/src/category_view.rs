//! The rows of the category summary for one year: a row per month with its totals, in month
//! order, and under each opened month a row per category and subcategory, in name order.
//! Rows with no subcategory count toward their month's totals but get no row of their own.
use crate::model::MonthlySummary;
use crate::money::{amount_wf, checked_add, decimal_checked_add};
use crate::summary::{category_entries_wf, empty_summary, CategoryTotals};
use crate::text::{lemma_text_lt_total, text_eq, text_less, text_lt};
use vstd::prelude::*;

verus! {

/// One row of the category summary.
#[derive(Debug)]
pub enum CategorySummaryItem {
    /// A month and its totals.
    Month(u32, MonthlySummary),
    /// A month, category, subcategory and their totals.
    Subcategory(u32, String, String, MonthlySummary),
}

/// A row as plain values: month, the category and subcategory (none for a month row), totals.
pub open spec fn item_view(i: CategorySummaryItem) -> (u32, Option<(Seq<char>, Seq<char>)>, MonthlySummary) {
    match i {
        CategorySummaryItem::Month(m, s) => (m, None, s),
        CategorySummaryItem::Subcategory(m, c, sc, s) => (m, Some((c@, sc@)), s),
    }
}

pub open spec fn items_view(items: Seq<CategorySummaryItem>) -> Seq<
    (u32, Option<(Seq<char>, Seq<char>)>, MonthlySummary),
> {
    items.map_values(|i: CategorySummaryItem| item_view(i))
}

/// Name order of (category, subcategory) pairs: by category, then subcategory.
pub open spec fn pair_lt(a: (Seq<char>, Seq<char>), b: (Seq<char>, Seq<char>)) -> bool {
    text_lt(a.0, b.0) || (a.0 == b.0 && text_lt(a.1, b.1))
}

/// Row order: by month; within a month the month row first, then the pairs in name order.
pub open spec fn item_lt(
    a: (u32, Option<(Seq<char>, Seq<char>)>, MonthlySummary),
    b: (u32, Option<(Seq<char>, Seq<char>)>, MonthlySummary),
) -> bool {
    a.0 < b.0 || (a.0 == b.0 && match (a.1, b.1) {
        (None, Some(_)) => true,
        (Some(p), Some(q)) => pair_lt(p, q),
        _ => false,
    })
}

pub open spec fn in_month(e: CategoryTotals, year: i32, month: u32) -> bool {
    e.year == year && e.month == month
}

pub open spec fn entry_key(e: CategoryTotals) -> (Seq<char>, Seq<char>) {
    (e.category@, e.subcategory@)
}

/// `t` with `s` added: income to income, expense to expense; `None` on overflow.
pub open spec fn add_summary(t: MonthlySummary, s: MonthlySummary) -> Option<MonthlySummary> {
    match decimal_checked_add(t.income, s.income) {
        None => None,
        Some(i) => match decimal_checked_add(t.expense, s.expense) {
            None => None,
            Some(e) => Some(MonthlySummary { income: i, expense: e }),
        },
    }
}

/// The totals of a month: its rows' totals added in order from zero; `None` on overflow.
pub open spec fn month_total(es: Seq<CategoryTotals>, year: i32, month: u32) -> Option<MonthlySummary>
    decreases es.len(),
{
    if es.len() == 0 {
        Some(empty_summary())
    } else {
        match month_total(es.drop_last(), year, month) {
            None => None,
            Some(t) => if in_month(es.last(), year, month) {
                add_summary(t, es.last().summary)
            } else {
                Some(t)
            },
        }
    }
}

/// Some row falls in the month.
pub open spec fn has_month(es: Seq<CategoryTotals>, year: i32, month: u32) -> bool {
    exists|i: int| 0 <= i < es.len() && #[trigger] in_month(es[i], year, month)
}

/// The row is shown: its month is open, it has a subcategory, and it is one of the totals.
pub open spec fn shown_row(
    es: Seq<CategoryTotals>,
    year: i32,
    expanded: Seq<u32>,
    month: u32,
    key: (Seq<char>, Seq<char>),
    summary: MonthlySummary,
) -> bool {
    &&& expanded.contains(month)
    &&& key.1.len() > 0
    &&& exists|i: int|
        0 <= i < es.len() && #[trigger] in_month(es[i], year, month) && entry_key(es[i]) == key
            && es[i].summary == summary
}

/// The row belongs in the summary.
pub open spec fn expected_item(
    es: Seq<CategoryTotals>,
    year: i32,
    expanded: Seq<u32>,
    x: (u32, Option<(Seq<char>, Seq<char>)>, MonthlySummary),
) -> bool {
    match x.1 {
        None => has_month(es, year, x.0) && month_total(es, year, x.0) == Some(x.2),
        Some(p) => shown_row(es, year, expanded, x.0, p, x.2),
    }
}

/// No two totals share a month, category and subcategory (they come from a map).
pub open spec fn keys_distinct(es: Seq<CategoryTotals>) -> bool {
    forall|i: int, j: int|
        0 <= i < j < es.len() ==> !(#[trigger] es[i].year == #[trigger] es[j].year && es[i].month
            == es[j].month && entry_key(es[i]) == entry_key(es[j]))
}

proof fn lemma_pair_order(a: (Seq<char>, Seq<char>), b: (Seq<char>, Seq<char>), c: (Seq<char>, Seq<char>))
    ensures
        !pair_lt(a, a),
        pair_lt(a, b) ==> !pair_lt(b, a),
        a != b ==> pair_lt(a, b) || pair_lt(b, a),
        pair_lt(a, b) && pair_lt(b, c) ==> pair_lt(a, c),
{
    lemma_text_lt_total(a.0, b.0, c.0);
    lemma_text_lt_total(a.1, b.1, c.1);
    lemma_text_lt_total(b.0, a.0, c.0);
    lemma_text_lt_total(b.1, a.1, c.1);
    lemma_text_lt_total(a.0, c.0, b.0);
    lemma_text_lt_total(b.0, c.0, a.0);
}

fn pair_less(a: &CategoryTotals, b: &CategoryTotals) -> (r: bool)
    ensures
        r == pair_lt(entry_key(*a), entry_key(*b)),
{
    text_less(a.category.as_str(), b.category.as_str()) || (text_eq(
        a.category.as_str(),
        b.category.as_str(),
    ) && text_less(a.subcategory.as_str(), b.subcategory.as_str()))
}

fn contains_month(v: &[u32], m: u32) -> (r: bool)
    ensures
        r == v@.contains(m),
{
    let mut i: usize = 0;
    while i < v.len()
        invariant
            i <= v@.len(),
            forall|j: int| 0 <= j < i ==> v@[j] != m,
        decreases v@.len() - i,
    {
        if v[i] == m {
            assert(v@[i as int] == m);
            return true;
        }
        i = i + 1;
    }
    false
}

/// Adds `m` to a strictly increasing list of months, keeping it strictly increasing.
fn insert_month(v: &mut Vec<u32>, m: u32)
    requires
        forall|a: int, b: int| 0 <= a < b < old(v)@.len() ==> old(v)@[a] < old(v)@[b],
    ensures
        forall|a: int, b: int| 0 <= a < b < final(v)@.len() ==> final(v)@[a] < final(v)@[b],
        forall|x: u32| final(v)@.contains(x) <==> (old(v)@.contains(x) || x == m),
{
    let mut p: usize = 0;
    while p < v.len() && v[p] < m
        invariant
            p <= v@.len(),
            forall|a: int| 0 <= a < p ==> v@[a] < m,
        decreases v@.len() - p,
    {
        p = p + 1;
    }
    if p < v.len() && v[p] == m {
        assert(v@.contains(m)) by {
            assert(v@[p as int] == m);
        }
        return;
    }
    let ghost before = v@;
    v.insert(p, m);
    assert forall|x: u32| v@.contains(x) <==> (before.contains(x) || x == m) by {
        if v@.contains(x) {
            let i = choose|i: int| 0 <= i < v@.len() && v@[i] == x;
            if i < p {
                assert(before[i] == x);
            } else if i > p {
                assert(before[i - 1] == x);
            }
        }
        if before.contains(x) {
            let i = choose|i: int| 0 <= i < before.len() && before[i] == x;
            if i < p {
                assert(v@[i] == x);
            } else {
                assert(v@[i + 1] == x);
            }
        }
        if x == m {
            assert(v@[p as int] == x);
        }
    }
}

/// The months of `year` that some row falls in, in increasing order.
fn months_of_year(entries: &[CategoryTotals], year: i32) -> (r: Vec<u32>)
    ensures
        forall|a: int, b: int| 0 <= a < b < r@.len() ==> r@[a] < r@[b],
        forall|m: u32| r@.contains(m) <==> has_month(entries@, year, m),
{
    let mut months: Vec<u32> = Vec::new();
    let mut i: usize = 0;
    while i < entries.len()
        invariant
            i <= entries@.len(),
            forall|a: int, b: int| 0 <= a < b < months@.len() ==> months@[a] < months@[b],
            forall|m: u32|
                months@.contains(m) <==> exists|j: int| 0 <= j < i && #[trigger] in_month(entries@[j], year, m),
        decreases entries@.len() - i,
    {
        if entries[i].year == year {
            insert_month(&mut months, entries[i].month);
        }
        proof {
            assert forall|m: u32|
                months@.contains(m) <==> exists|j: int|
                    0 <= j < i + 1 && #[trigger] in_month(entries@[j], year, m) by {
                if in_month(entries@[i as int], year, m) {
                    assert(months@.contains(m));
                }
            }
        }
        i = i + 1;
    }
    months
}

/// A month's totals.
fn month_total_exec(entries: &[CategoryTotals], year: i32, month: u32) -> (r: Option<MonthlySummary>)
    requires
        category_entries_wf(entries@),
    ensures
        r == month_total(entries@, year, month),
        r matches Some(t) ==> amount_wf(t.income) && amount_wf(t.expense),
{
    let mut acc: Option<MonthlySummary> = Some(
        MonthlySummary { income: crate::money::zero(), expense: crate::money::zero() },
    );
    let mut i: usize = 0;
    assert(entries@.take(0) =~= Seq::<CategoryTotals>::empty());
    while i < entries.len()
        invariant
            i <= entries@.len(),
            category_entries_wf(entries@),
            acc == month_total(entries@.take(i as int), year, month),
            acc matches Some(t) ==> amount_wf(t.income) && amount_wf(t.expense),
        decreases entries@.len() - i,
    {
        assert(entries@.take(i + 1).drop_last() =~= entries@.take(i as int));
        assert(entries@.take(i + 1).last() == entries@[i as int]);
        assert(amount_wf(entries@[i as int].summary.income));
        let e = &entries[i];
        assert(amount_wf(e.summary.income) && amount_wf(e.summary.expense));
        acc = match acc {
            None => None,
            Some(t) => if e.year == year && e.month == month {
                match checked_add(t.income, e.summary.income) {
                    None => None,
                    Some(inc) => match checked_add(t.expense, e.summary.expense) {
                        None => None,
                        Some(exp) => Some(MonthlySummary { income: inc, expense: exp }),
                    },
                }
            } else {
                Some(t)
            },
        };
        i = i + 1;
    }
    assert(entries@.take(entries@.len() as int) =~= entries@);
    acc
}

/// The positions of a month's rows that have a subcategory, in name order.
fn month_rows(entries: &[CategoryTotals], year: i32, month: u32) -> (r: Vec<usize>)
    requires
        keys_distinct(entries@),
    ensures
        forall|k: int| 0 <= k < r@.len() ==> r@[k] < entries@.len(),
        forall|j: usize|
            r@.contains(j) <==> (j < entries@.len() && in_month(entries@[j as int], year, month)
                && entries@[j as int].subcategory@.len() > 0),
        forall|a: int, b: int|
            0 <= a < b < r@.len() ==> pair_lt(
                entry_key(entries@[r@[a] as int]),
                entry_key(entries@[r@[b] as int]),
            ),
{
    let mut rows: Vec<usize> = Vec::new();
    let mut i: usize = 0;
    while i < entries.len()
        invariant
            i <= entries@.len(),
            keys_distinct(entries@),
            forall|k: int| 0 <= k < rows@.len() ==> rows@[k] < i,
            forall|j: usize|
                rows@.contains(j) <==> (j < i && in_month(entries@[j as int], year, month)
                    && entries@[j as int].subcategory@.len() > 0),
            forall|a: int, b: int|
                0 <= a < b < rows@.len() ==> pair_lt(
                    entry_key(entries@[rows@[a] as int]),
                    entry_key(entries@[rows@[b] as int]),
                ),
        decreases entries@.len() - i,
    {
        let e = &entries[i];
        if e.year == year && e.month == month && e.subcategory.as_str().unicode_len() > 0 {
            let mut q: usize = 0;
            while q < rows.len() && pair_less(&entries[rows[q]], e)
                invariant
                    q <= rows@.len(),
                    forall|k: int| 0 <= k < rows@.len() ==> rows@[k] < i,
                    i < entries@.len(),
                    *e == entries@[i as int],
                    forall|a: int|
                        0 <= a < q ==> pair_lt(
                            entry_key(entries@[rows@[a] as int]),
                            entry_key(entries@[i as int]),
                        ),
                decreases rows@.len() - q,
            {
                q = q + 1;
            }
            let ghost before = rows@;
            let ghost ne = entry_key(entries@[i as int]);
            proof {
                if q < before.len() {
                    let j = before[q as int];
                    assert(before.contains(j));
                    assert(in_month(entries@[j as int], year, month));
                    assert(!(entries@[j as int].year == entries@[i as int].year
                        && entries@[j as int].month == entries@[i as int].month && entry_key(
                        entries@[j as int],
                    ) == entry_key(entries@[i as int])));
                    lemma_pair_order(entry_key(entries@[j as int]), ne, ne);
                    assert(pair_lt(ne, entry_key(entries@[j as int])));
                    assert forall|b: int| q <= b < before.len() implies pair_lt(
                        ne,
                        entry_key(entries@[before[b] as int]),
                    ) by {
                        if b > q {
                            lemma_pair_order(
                                ne,
                                entry_key(entries@[j as int]),
                                entry_key(entries@[before[b] as int]),
                            );
                        }
                    }
                }
            }
            rows.insert(q, i);
            proof {
                assert forall|a: int, b: int| 0 <= a < b < rows@.len() implies pair_lt(
                    entry_key(entries@[rows@[a] as int]),
                    entry_key(entries@[rows@[b] as int]),
                ) by {
                    if b < q {
                        assert(rows@[a] == before[a] && rows@[b] == before[b]);
                    } else if b == q {
                        assert(rows@[a] == before[a]);
                    } else if a < q {
                        assert(rows@[a] == before[a] && rows@[b] == before[b - 1]);
                        lemma_pair_order(
                            entry_key(entries@[before[a] as int]),
                            ne,
                            entry_key(entries@[before[b - 1] as int]),
                        );
                    } else if a == q {
                        assert(rows@[b] == before[b - 1]);
                    } else {
                        assert(rows@[a] == before[a - 1] && rows@[b] == before[b - 1]);
                    }
                }
                assert forall|j: usize|
                    rows@.contains(j) <==> (j < i + 1 && in_month(entries@[j as int], year, month)
                        && entries@[j as int].subcategory@.len() > 0) by {
                    if rows@.contains(j) {
                        let k = choose|k: int| 0 <= k < rows@.len() && rows@[k] == j;
                        if k < q {
                            assert(before[k] == j);
                            assert(before.contains(j));
                        } else if k > q {
                            assert(before[k - 1] == j);
                            assert(before.contains(j));
                        }
                    }
                    if j < i && before.contains(j) {
                        let k = choose|k: int| 0 <= k < before.len() && before[k] == j;
                        if k < q {
                            assert(rows@[k] == j);
                        } else {
                            assert(rows@[k + 1] == j);
                        }
                    }
                    if j == i {
                        assert(rows@[q as int] == j);
                    }
                }
                assert forall|k: int| 0 <= k < rows@.len() implies rows@[k] < i + 1 by {
                    if k < q {
                        assert(rows@[k] == before[k]);
                    } else if k > q {
                        assert(rows@[k] == before[k - 1]);
                    }
                }
            }
        } else {
            proof {
                assert forall|j: usize|
                    rows@.contains(j) <==> (j < i + 1 && in_month(entries@[j as int], year, month)
                        && entries@[j as int].subcategory@.len() > 0) by {
                    if rows@.contains(j) {
                        let k = choose|k: int| 0 <= k < rows@.len() && rows@[k] == j;
                        assert(rows@[k] < i);
                    }
                }
            }
        }
        i = i + 1;
    }
    rows
}

/// The rows of the category summary for `year` (none without a year), with the months in
/// `expanded` opened; `None` when a month's totals overflow.
pub fn visible_category_items(entries: &[CategoryTotals], year: Option<i32>, expanded: &[u32]) -> (r:
    Option<Vec<CategorySummaryItem>>)
    requires
        category_entries_wf(entries@),
        keys_distinct(entries@),
    ensures
        year is None ==> (r matches Some(v) && v@.len() == 0),
        year matches Some(y) ==> match r {
            None => exists|m: u32| has_month(entries@, y, m) && month_total(entries@, y, m) is None,
            Some(v) => {
                &&& forall|m: u32| has_month(entries@, y, m) ==> month_total(entries@, y, m) is Some
                &&& forall|a: int, b: int|
                    0 <= a < b < v@.len() ==> item_lt(item_view(v@[a]), item_view(v@[b]))
                &&& forall|x: (u32, Option<(Seq<char>, Seq<char>)>, MonthlySummary)|
                    items_view(v@).contains(x) <==> expected_item(entries@, y, expanded@, x)
            },
        },
{
    let y = match year {
        None => {
            return Some(Vec::new());
        },
        Some(y) => y,
    };
    let months = months_of_year(entries, y);
    let n = entries.len();
    let mut items: Vec<CategorySummaryItem> = Vec::new();
    let mut k: usize = 0;
    while k < months.len()
        invariant
            year == Some(y),
            n == entries@.len(),
            k <= months@.len(),
            category_entries_wf(entries@),
            keys_distinct(entries@),
            forall|a: int, b: int| 0 <= a < b < months@.len() ==> months@[a] < months@[b],
            forall|m: u32| months@.contains(m) <==> has_month(entries@, y, m),
            forall|a: int, b: int|
                0 <= a < b < items@.len() ==> item_lt(item_view(items@[a]), item_view(items@[b])),
            forall|a: int|
                0 <= a < items@.len() ==> months@.take(k as int).contains(
                    #[trigger] item_view(items@[a]).0,
                ),
            forall|x: (u32, Option<(Seq<char>, Seq<char>)>, MonthlySummary)|
                months@.take(k as int).contains(x.0) ==> (items_view(items@).contains(x)
                    <==> expected_item(entries@, y, expanded@, x)),
            forall|j: int| 0 <= j < k ==> month_total(entries@, y, #[trigger] months@[j]) is Some,
        decreases months@.len() - k,
    {
        let m = months[k];
        proof {
            assert(months@.contains(m)) by {
                assert(months@[k as int] == m);
            }
        }
        let total = match month_total_exec(entries, y, m) {
            Some(t) => t,
            None => {
                return None;
            },
        };
        let ghost prev = items@;
        let ghost start = items@.len() as int;
        items.push(CategorySummaryItem::Month(m, total));
        let open = contains_month(expanded, m);
        let rows = if open {
            month_rows(entries, y, m)
        } else {
            Vec::new()
        };
        let mut t: usize = 0;
        while t < rows.len()
            invariant
                t <= rows@.len(),
                start == prev.len(),
                items@.len() == start + 1 + t,
                forall|a: int| 0 <= a < start ==> items@[a] == prev[a],
                item_view(items@[start]) == (m, None::<(Seq<char>, Seq<char>)>, total),
                forall|u: int|
                    0 <= u < t ==> item_view(#[trigger] items@[start + 1 + u]) == (
                        m,
                        Some(entry_key(entries@[rows@[u] as int])),
                        entries@[rows@[u] as int].summary,
                    ),
                forall|q: int| 0 <= q < rows@.len() ==> rows@[q] < entries@.len(),
            decreases rows@.len() - t,
        {
            let e = &entries[rows[t]];
            let item = CategorySummaryItem::Subcategory(m, e.category.clone(), e.subcategory.clone(), e.summary);
            items.push(item);
            proof {
                assert(item_view(items@[start + 1 + t]) == (
                    m,
                    Some(entry_key(entries@[rows@[t as int] as int])),
                    entries@[rows@[t as int] as int].summary,
                ));
            }
            t = t + 1;
        }
        proof {
            let v = items@;
            let below = months@.take(k as int);
            let upto = months@.take(k + 1);
            assert(upto =~= below.push(m));
            // Every earlier row's month comes before this one.
            assert forall|a: int| 0 <= a < start implies item_view(#[trigger] prev[a]).0 < m by {
                assert(below.contains(item_view(prev[a]).0));
                let j = choose|j: int| 0 <= j < below.len() && below[j] == item_view(prev[a]).0;
                assert(months@[j] < months@[k as int]);
            }
            assert(!below.contains(m)) by {
                if below.contains(m) {
                    let j = choose|j: int| 0 <= j < below.len() && below[j] == m;
                    assert(months@[j] < months@[k as int]);
                }
            }
            // The rows are in order.
            assert forall|a: int, b: int| 0 <= a < b < v.len() implies item_lt(
                item_view(v[a]),
                item_view(v[b]),
            ) by {
                if b < start {
                    assert(v[a] == prev[a] && v[b] == prev[b]);
                } else if a < start {
                    assert(v[a] == prev[a]);
                    assert(item_view(prev[a]).0 < m);
                    if b > start {
                        assert(item_view(v[start + 1 + (b - start - 1)]).0 == m);
                    }
                } else if a == start {
                    assert(item_view(v[start + 1 + (b - start - 1)]).0 == m);
                } else {
                    let ua = a - start - 1;
                    let ub = b - start - 1;
                    assert(item_view(v[start + 1 + ua]).1 == Some(entry_key(entries@[rows@[ua] as int])));
                    assert(item_view(v[start + 1 + ub]).1 == Some(entry_key(entries@[rows@[ub] as int])));
                }
            }
            // Every row's month is one handled so far.
            assert forall|a: int| 0 <= a < v.len() implies upto.contains(
                #[trigger] item_view(v[a]).0,
            ) by {
                if a < start {
                    assert(v[a] == prev[a]);
                    assert(below.contains(item_view(prev[a]).0));
                    let j = choose|j: int| 0 <= j < below.len() && below[j] == item_view(prev[a]).0;
                    assert(upto[j] == below[j]);
                } else if a == start {
                    assert(upto[k as int] == m);
                } else {
                    assert(item_view(v[start + 1 + (a - start - 1)]).0 == m);
                    assert(upto[k as int] == m);
                }
            }
            // The rows of each handled month are exactly the expected ones.
            assert forall|x: (u32, Option<(Seq<char>, Seq<char>)>, MonthlySummary)|
                upto.contains(x.0) implies (items_view(v).contains(x) <==> expected_item(
                entries@,
                y,
                expanded@,
                x,
            )) by {
                if x.0 != m {
                    assert(below.contains(x.0)) by {
                        let j = choose|j: int| 0 <= j < upto.len() && upto[j] == x.0;
                        assert(j < k);
                        assert(below[j] == x.0);
                    }
                    if items_view(v).contains(x) {
                        let a = choose|a: int| 0 <= a < items_view(v).len() && items_view(v)[a] == x;
                        if a >= start {
                            if a > start {
                                assert(item_view(v[start + 1 + (a - start - 1)]).0 == m);
                            }
                        }
                        assert(a < start);
                        assert(items_view(prev)[a] == x);
                    }
                    if items_view(prev).contains(x) {
                        let a = choose|a: int| 0 <= a < items_view(prev).len() && items_view(prev)[a] == x;
                        assert(items_view(v)[a] == x);
                    }
                } else {
                    if items_view(v).contains(x) {
                        let a = choose|a: int| 0 <= a < items_view(v).len() && items_view(v)[a] == x;
                        if a < start {
                            assert(item_view(prev[a]).0 < m);
                        } else if a == start {
                        } else {
                            let u = a - start - 1;
                            assert(item_view(v[start + 1 + u]) == x);
                            assert(open);
                            let i = rows@[u];
                            assert(rows@.contains(i));
                            assert(in_month(entries@[i as int], y, m));
                        }
                    }
                    if expected_item(entries@, y, expanded@, x) {
                        match x.1 {
                            None => {
                                assert(items_view(v)[start] == x);
                            },
                            Some(p) => {
                                assert(open);
                                let i = choose|i: int|
                                    0 <= i < entries@.len() && #[trigger] in_month(entries@[i], y, m)
                                        && entry_key(entries@[i]) == p && entries@[i].summary == x.2;
                                assert((i as usize) as int == i);
                                assert(rows@.contains(i as usize));
                                let u = choose|u: int| 0 <= u < rows@.len() && rows@[u] == i as usize;
                                assert(items_view(v)[start + 1 + u] == x);
                            },
                        }
                    }
                }
            }
            assert forall|j: int| 0 <= j < k + 1 implies month_total(entries@, y, #[trigger] months@[j])
                is Some by {
                if j == k {
                    assert(months@[j] == m);
                }
            }
        }
        k = k + 1;
    }
    proof {
        assert(months@.take(months@.len() as int) =~= months@);
        assert forall|m: u32| has_month(entries@, y, m) implies month_total(entries@, y, m) is Some by {
            assert(months@.contains(m));
            let j = choose|j: int| 0 <= j < months@.len() && months@[j] == m;
        }
        assert forall|x: (u32, Option<(Seq<char>, Seq<char>)>, MonthlySummary)|
            items_view(items@).contains(x) <==> expected_item(entries@, y, expanded@, x) by {
            if items_view(items@).contains(x) {
                let a = choose|a: int| 0 <= a < items_view(items@).len() && items_view(items@)[a] == x;
                assert(months@.contains(item_view(items@[a]).0));
            }
            if expected_item(entries@, y, expanded@, x) {
                match x.1 {
                    None => {},
                    Some(p) => {
                        let i = choose|i: int|
                            0 <= i < entries@.len() && #[trigger] in_month(entries@[i], y, x.0)
                                && entry_key(entries@[i]) == p && entries@[i].summary == x.2;
                        assert(has_month(entries@, y, x.0));
                    },
                }
                assert(months@.contains(x.0));
            }
        }
    }
    Some(items)
}

} // verus!
