//! Effective-dated budgets: each period applies from its start month until a later period of
//! the same budget replaces it.
use crate::model::{
    month_before, month_on_or_before, next_month_spec, BudgetEditScope, BudgetMonth,
    BudgetPeriod, BudgetWrite, beginning_spec,
};
use crate::money::Amount;
use crate::sorting::{
    is_sorted_by, lemma_stable_sorted_is_sorted_permutation, not_before_transitive, stable_sort,
    stable_sorted,
};
use vstd::prelude::*;

verus! {

/// Periods ordered by start month.
pub open spec fn by_start() -> spec_fn(BudgetPeriod, BudgetPeriod) -> bool {
    |a: BudgetPeriod, b: BudgetPeriod| month_before(a.start, b.start)
}

/// A period of budget `category_id` that is in force in `month`.
pub open spec fn applies(p: BudgetPeriod, category_id: Option<i64>, month: BudgetMonth) -> bool {
    p.category_id == category_id && month_on_or_before(p.start, month)
}

/// The amount of the last period (in schedule order) of budget `category_id` starting on or
/// before `month`; `None` when there is none or that period clears the budget.
pub open spec fn latest_amount(
    ps: Seq<BudgetPeriod>,
    category_id: Option<i64>,
    month: BudgetMonth,
) -> Option<Amount>
    decreases ps.len(),
{
    if ps.len() == 0 {
        None
    } else if applies(ps.last(), category_id, month) {
        ps.last().amount
    } else {
        latest_amount(ps.drop_last(), category_id, month)
    }
}

/// Number of periods belonging to budget `category_id`.
pub open spec fn count_periods(ps: Seq<BudgetPeriod>, category_id: Option<i64>) -> nat
    decreases ps.len(),
{
    if ps.len() == 0 {
        0
    } else {
        count_periods(ps.drop_last(), category_id) + if ps.last().category_id == category_id {
            1nat
        } else {
            0nat
        }
    }
}

/// The writes an edit resolves to.
pub open spec fn plan_edit_spec(
    ps: Seq<BudgetPeriod>,
    category_id: Option<i64>,
    start: BudgetMonth,
    amount: Option<Amount>,
    scope: BudgetEditScope,
) -> Seq<BudgetWrite> {
    match scope {
        BudgetEditScope::FromThisMonth => seq![BudgetWrite::Assign(start, amount)],
        BudgetEditScope::ThisMonthOnly => seq![
            BudgetWrite::Assign(start, amount),
            BudgetWrite::Assign(
                next_month_spec(start),
                latest_amount(ps, category_id, next_month_spec(start)),
            ),
        ],
        BudgetEditScope::ReplaceAllMonths => seq![
            BudgetWrite::RemoveAll,
            BudgetWrite::Assign(beginning_spec(), amount),
        ],
        BudgetEditScope::RemoveChange => seq![BudgetWrite::Remove(start)],
    }
}

/// Owns the rule for reading a value out of the periods, so callers never walk them.
pub struct BudgetSchedule {
    periods: Vec<BudgetPeriod>,
}

impl BudgetSchedule {
    #[verifier::type_invariant]
    spec fn sorted(self) -> bool {
        is_sorted_by(self.periods@, by_start())
    }

    /// The periods in schedule order (by start month, ties in the order given).
    pub closed spec fn periods(&self) -> Seq<BudgetPeriod> {
        self.periods@
    }

    /// Orders the periods by start month, keeping the given order among equal starts.
    pub fn new(periods: Vec<BudgetPeriod>) -> (r: Self)
        ensures
            r.periods() == stable_sorted(periods@, by_start()),
            is_sorted_by(r.periods(), by_start()),
            r.periods().to_multiset() == periods@.to_multiset(),
    {
        let less = |a: &BudgetPeriod, b: &BudgetPeriod| -> (r: bool)
            ensures
                r == month_before(a.start, b.start),
            { a.start.is_before(b.start) };
        let ghost lt = by_start();
        let sorted = stable_sort(periods, &less, Ghost(lt), Ghost(|p: BudgetPeriod| true));
        proof {
            lemma_by_start_order();
            lemma_stable_sorted_is_sorted_permutation(periods@, lt);
        }
        BudgetSchedule { periods: sorted }
    }

    /// A schedule with no periods.
    pub fn empty() -> (r: Self)
        ensures
            r.periods() == Seq::<BudgetPeriod>::empty(),
    {
        BudgetSchedule { periods: Vec::new() }
    }

    /// The latest period starting on or before `month`. `None` means no budget, whether
    /// none was ever set or one cleared it.
    pub fn amount_for(&self, category_id: Option<i64>, month: BudgetMonth) -> (r: Option<Amount>)
        ensures
            r == latest_amount(self.periods(), category_id, month),
    {
        let mut i = self.periods.len();
        assert(self.periods@.take(i as int) =~= self.periods@);
        while i > 0
            invariant
                i <= self.periods.len(),
                latest_amount(self.periods@, category_id, month) == latest_amount(
                    self.periods@.take(i as int),
                    category_id,
                    month,
                ),
            decreases i,
        {
            let p = self.periods[i - 1];
            assert(self.periods@.take(i as int).drop_last() =~= self.periods@.take(i - 1));
            if p.category_id == category_id && (p.start.is_before(month) || p.start == month) {
                return p.amount;
            }
            i = i - 1;
        }
        None
    }

    pub fn monthly_budget(&self, month: BudgetMonth) -> (r: Option<Amount>)
        ensures
            r == latest_amount(self.periods(), None, month),
    {
        self.amount_for(None, month)
    }

    pub fn category_budget(&self, category_id: i64, month: BudgetMonth) -> (r: Option<Amount>)
        ensures
            r == latest_amount(self.periods(), Some(category_id), month),
    {
        self.amount_for(Some(category_id), month)
    }

    /// Resolve an edit into the writes that carry it out. `ThisMonthOnly` reads what the next
    /// month inherits before anything is written, so that month keeps its value.
    pub fn plan_edit(
        &self,
        category_id: Option<i64>,
        start: BudgetMonth,
        amount: Option<Amount>,
        scope: BudgetEditScope,
    ) -> (r: Vec<BudgetWrite>)
        requires
            scope == BudgetEditScope::ThisMonthOnly && start.month >= 12 ==> start.year
                < i32::MAX,
        ensures
            r@ == plan_edit_spec(self.periods(), category_id, start, amount, scope),
    {
        match scope {
            BudgetEditScope::FromThisMonth => vec![BudgetWrite::Assign(start, amount)],
            BudgetEditScope::ThisMonthOnly => {
                let following = start.next();
                let inherited = self.amount_for(category_id, following);
                vec![BudgetWrite::Assign(start, amount), BudgetWrite::Assign(following, inherited)]
            },
            BudgetEditScope::ReplaceAllMonths => {
                vec![BudgetWrite::RemoveAll, BudgetWrite::Assign(BudgetMonth::beginning(), amount)]
            },
            BudgetEditScope::RemoveChange => vec![BudgetWrite::Remove(start)],
        }
    }

    /// The years in which some period starts, ascending and without repeats, leaving out the
    /// seeded beginning (year 0 and before).
    pub fn years(&self) -> (r: Vec<i32>)
        ensures
            forall|i: int, j: int| 0 <= i < j < r.len() ==> r[i] < r[j],
            forall|y: i32|
                r@.contains(y) <==> (y > 0 && exists|k: int|
                    0 <= k < self.periods().len() && #[trigger] self.periods()[k].start.year
                        == y),
    {
        proof {
            use_type_invariant(self);
        }
        let mut out: Vec<i32> = Vec::new();
        let mut i: usize = 0;
        while i < self.periods.len()
            invariant
                i <= self.periods.len(),
                is_sorted_by(self.periods@, by_start()),
                forall|a: int, b: int| 0 <= a < b < out.len() ==> out[a] < out[b],
                forall|a: int| 0 <= a < out.len() ==> out[a] > 0,
                out.len() > 0 ==> exists|k: int|
                    0 <= k < i && self.periods@[k].start.year == out[out.len() - 1],
                forall|k: int|
                    0 <= k < i && self.periods@[k].start.year > 0 ==> out.len() > 0 && out[out.len()
                        - 1] >= #[trigger] self.periods@[k].start.year,
                forall|y: i32|
                    out@.contains(y) <==> (y > 0 && exists|k: int|
                        0 <= k < i && #[trigger] self.periods@[k].start.year == y),
            decreases self.periods.len() - i,
        {
            let year = self.periods[i].start.year;
            proof {
                if out.len() > 0 {
                    let k = choose|k: int|
                        0 <= k < i && self.periods@[k].start.year == out[out.len() - 1];
                    assert(!month_before(self.periods@[i as int].start, self.periods@[k].start));
                }
            }
            let ghost before = out@;
            if year > 0 && (out.len() == 0 || out[out.len() - 1] != year) {
                out.push(year);
            }
            proof {
                assert forall|y: i32|
                    out@.contains(y) <==> (y > 0 && exists|k: int|
                        0 <= k < i + 1 && #[trigger] self.periods@[k].start.year == y) by {
                    if out@.contains(y) {
                        if before.contains(y) {
                            let k = choose|k: int|
                                0 <= k < i && #[trigger] self.periods@[k].start.year == y;
                            assert(0 <= k < i + 1 && self.periods@[k].start.year == y);
                        } else {
                            let w = choose|w: int| 0 <= w < out.len() && out@[w] == y;
                            if w < before.len() {
                                assert(before[w] == y);
                            }
                            assert(y == year);
                            assert(self.periods@[i as int].start.year == y);
                        }
                    }
                    if y > 0 && exists|k: int|
                        0 <= k < i + 1 && #[trigger] self.periods@[k].start.year == y {
                        let k = choose|k: int|
                            0 <= k < i + 1 && #[trigger] self.periods@[k].start.year == y;
                        if k < i {
                            assert(before.contains(y));
                            let w = choose|w: int| 0 <= w < before.len() && before[w] == y;
                            assert(out@[w] == y);
                        } else {
                            assert(y == year);
                            assert(out@[out.len() - 1] == y);
                        }
                    }
                }
            }
            i = i + 1;
        }
        out
    }

    /// Lets a destructive edit report how much it replaced.
    pub fn period_count(&self, category_id: Option<i64>) -> (r: usize)
        ensures
            r == count_periods(self.periods(), category_id),
    {
        let mut count: usize = 0;
        let mut i: usize = 0;
        while i < self.periods.len()
            invariant
                i <= self.periods.len(),
                count == count_periods(self.periods@.take(i as int), category_id),
                count <= i,
            decreases self.periods.len() - i,
        {
            assert(self.periods@.take(i + 1).drop_last() =~= self.periods@.take(i as int));
            if self.periods[i].category_id == category_id {
                count = count + 1;
            }
            i = i + 1;
        }
        assert(self.periods@.take(i as int) =~= self.periods@);
        count
    }

    /// Only a period starting exactly here can be removed.
    pub fn starts_at(&self, category_id: Option<i64>, month: BudgetMonth) -> (r: bool)
        ensures
            r == exists|k: int|
                0 <= k < self.periods().len() && #[trigger] self.periods()[k].category_id
                    == category_id && self.periods()[k].start == month,
    {
        let mut i: usize = 0;
        while i < self.periods.len()
            invariant
                i <= self.periods.len(),
                forall|k: int|
                    0 <= k < i ==> !(#[trigger] self.periods@[k].category_id == category_id
                        && self.periods@[k].start == month),
            decreases self.periods.len() - i,
        {
            let p = self.periods[i];
            if p.category_id == category_id && p.start == month {
                return true;
            }
            i = i + 1;
        }
        false
    }

    /// Every category with a budget in force in `month`, by ascending id, with that budget.
    pub fn budgeted_categories(&self, month: BudgetMonth) -> (r: Vec<(i64, Amount)>)
        ensures
            forall|i: int, j: int| 0 <= i < j < r.len() ==> r[i].0 < r[j].0,
            forall|id: i64, a: Amount|
                r@.contains((id, a)) <==> ((exists|k: int|
                    0 <= k < self.periods().len() && #[trigger] self.periods()[k].category_id
                        == Some(id)) && latest_amount(self.periods(), Some(id), month) == Some(
                    a,
                )),
    {
        let ids = self.category_ids();
        let mut out: Vec<(i64, Amount)> = Vec::new();
        let mut i: usize = 0;
        while i < ids.len()
            invariant
                i <= ids.len(),
                forall|a: int, b: int| 0 <= a < b < ids.len() ==> ids[a] < ids[b],
                forall|id: i64|
                    ids@.contains(id) <==> exists|k: int|
                        0 <= k < self.periods().len() && #[trigger] self.periods()[k].category_id
                            == Some(id),
                forall|a: int, b: int| 0 <= a < b < out.len() ==> out[a].0 < out[b].0,
                i < ids.len() ==> forall|a: int| 0 <= a < out.len() ==> #[trigger] out@[a].0 < ids@[i as int],
                forall|id: i64, amt: Amount|
                    out@.contains((id, amt)) <==> (exists|c: int| 0 <= c < i && ids[c] == id)
                        && latest_amount(self.periods(), Some(id), month) == Some(amt),
            decreases ids.len() - i,
        {
            let id = ids[i];
            match self.category_budget(id, month) {
                Some(amount) => {
                    proof {
                        assert forall|a: int| 0 <= a < out.len() implies out[a].0 < id by {
                            assert(out@[a].0 < ids@[i as int]);
                        }
                    }
                    let ghost before = out@;
                    out.push((id, amount));
                    proof {
                        assert forall|idx: i64, amt: Amount|
                            out@.contains((idx, amt)) <==> (exists|c: int| 0 <= c < i + 1 && ids[c] == idx)
                                && latest_amount(self.periods(), Some(idx), month) == Some(amt) by {
                            if out@.contains((idx, amt)) && idx != id {
                                let w = choose|w: int| 0 <= w < out.len() && out@[w] == (idx, amt);
                                assert(w < out.len() - 1);
                                assert(before.contains((idx, amt))) by {
                                    assert(out@[w] == before[w]);
                                }
                            }
                            if (exists|c: int| 0 <= c < i + 1 && ids[c] == idx) && latest_amount(
                                self.periods(),
                                Some(idx),
                                month,
                            ) == Some(amt) {
                                if idx == id {
                                    assert(out@[out.len() - 1] == (idx, amt));
                                } else {
                                    let c = choose|c: int| 0 <= c < i + 1 && ids[c] == idx;
                                    assert(c < i);
                                    assert(before.contains((idx, amt)));
                                    let w = choose|w: int| 0 <= w < before.len() && before[w] == (idx, amt);
                                    assert(out@[w] == (idx, amt));
                                }
                            }
                        }
                    }
                },
                None => {
                    proof {
                        assert forall|idx: i64, amt: Amount|
                            out@.contains((idx, amt)) <==> (exists|c: int| 0 <= c < i + 1 && ids[c] == idx)
                                && latest_amount(self.periods(), Some(idx), month) == Some(amt) by {
                            if (exists|c: int| 0 <= c < i + 1 && ids[c] == idx) && idx != id {
                                let c = choose|c: int| 0 <= c < i + 1 && ids[c] == idx;
                                assert(c < i);
                            }
                        }
                    }
                },
            }
            i = i + 1;
        }
        proof {
            assert forall|id: i64, a: Amount|
                out@.contains((id, a)) <==> ((exists|k: int|
                    0 <= k < self.periods().len() && #[trigger] self.periods()[k].category_id
                        == Some(id)) && latest_amount(self.periods(), Some(id), month) == Some(
                    a,
                )) by {
                if exists|k: int|
                    0 <= k < self.periods().len() && #[trigger] self.periods()[k].category_id
                        == Some(id) {
                    assert(ids@.contains(id));
                    let c = choose|c: int| 0 <= c < ids.len() && ids@[c] == id;
                    assert(ids[c] == id);
                }
                if exists|c: int| 0 <= c < i && ids[c] == id {
                    let c = choose|c: int| 0 <= c < i && ids[c] == id;
                    assert(ids@.contains(id));
                }
            }
        }
        out
    }

    /// The distinct category ids that have periods, ascending.
    fn category_ids(&self) -> (r: Vec<i64>)
        ensures
            forall|a: int, b: int| 0 <= a < b < r.len() ==> r[a] < r[b],
            forall|id: i64|
                r@.contains(id) <==> exists|k: int|
                    0 <= k < self.periods().len() && #[trigger] self.periods()[k].category_id
                        == Some(id),
    {
        let mut ids: Vec<i64> = Vec::new();
        let mut i: usize = 0;
        while i < self.periods.len()
            invariant
                i <= self.periods.len(),
                forall|a: int, b: int| 0 <= a < b < ids.len() ==> ids[a] < ids[b],
                forall|id: i64|
                    ids@.contains(id) <==> exists|k: int|
                        0 <= k < i && #[trigger] self.periods@[k].category_id == Some(id),
            decreases self.periods.len() - i,
        {
            if let Some(id) = self.periods[i].category_id {
                insert_sorted_unique(&mut ids, id);
            }
            proof {
                assert forall|id: i64|
                    ids@.contains(id) <==> exists|k: int|
                        0 <= k < i + 1 && #[trigger] self.periods@[k].category_id == Some(id) by {
                    if ids@.contains(id) && self.periods@[i as int].category_id != Some(id) {
                        let k = choose|k: int|
                            0 <= k < i && #[trigger] self.periods@[k].category_id == Some(id);
                    }
                    if self.periods@[i as int].category_id == Some(id) {
                        assert(ids@.contains(id));
                    }
                }
            }
            i = i + 1;
        }
        ids
    }
}

impl Default for BudgetSchedule {
    fn default() -> (r: Self)
        ensures
            r.periods() == Seq::<BudgetPeriod>::empty(),
    {
        BudgetSchedule::empty()
    }
}

/// Inserts `x` into an ascending list of distinct ids, unless it is already there.
fn insert_sorted_unique(v: &mut Vec<i64>, x: i64)
    requires
        forall|a: int, b: int| 0 <= a < b < old(v).len() ==> old(v)[a] < old(v)[b],
    ensures
        forall|a: int, b: int| 0 <= a < b < final(v).len() ==> final(v)[a] < final(v)[b],
        forall|y: i64| final(v)@.contains(y) <==> (old(v)@.contains(y) || y == x),
{
    let mut j: usize = 0;
    while j < v.len() && v[j] < x
        invariant
            j <= v.len(),
            v@ == old(v)@,
            forall|a: int, b: int| 0 <= a < b < v.len() ==> v[a] < v[b],
            forall|a: int| 0 <= a < j ==> v[a] < x,
        decreases v.len() - j,
    {
        j = j + 1;
    }
    if j < v.len() && v[j] == x {
        return;
    }
    v.insert(j, x);
    proof {
        assert forall|y: i64| v@.contains(y) <==> (old(v)@.contains(y) || y == x) by {
            if v@.contains(y) {
                let w = choose|w: int| 0 <= w < v.len() && v@[w] == y;
                if w < j {
                    assert(old(v)@[w] == y);
                } else if w > j {
                    assert(old(v)@[w - 1] == y);
                }
            }
            if old(v)@.contains(y) {
                let w = choose|w: int| 0 <= w < old(v).len() && old(v)@[w] == y;
                if w < j {
                    assert(v@[w] == y);
                } else {
                    assert(v@[w + 1] == y);
                }
            }
            if y == x {
                assert(v@[j as int] == x);
            }
        }
    }
}

/// In a schedule sorted by start, the amount read for a month is that of an applicable period
/// with the latest start: no applicable period starts after it. With no applicable period the
/// month has no budget.
pub proof fn lemma_latest_amount_is_latest_start(
    ps: Seq<BudgetPeriod>,
    category_id: Option<i64>,
    month: BudgetMonth,
)
    requires
        is_sorted_by(ps, by_start()),
    ensures
        (forall|k: int| 0 <= k < ps.len() ==> !applies(#[trigger] ps[k], category_id, month))
            ==> latest_amount(ps, category_id, month) is None,
        (exists|k: int| 0 <= k < ps.len() && applies(#[trigger] ps[k], category_id, month))
            ==> exists|k: int|
            0 <= k < ps.len() && applies(#[trigger] ps[k], category_id, month) && latest_amount(
                ps,
                category_id,
                month,
            ) == ps[k].amount && forall|j: int|
                0 <= j < ps.len() && applies(#[trigger] ps[j], category_id, month)
                    ==> month_on_or_before(ps[j].start, ps[k].start),
    decreases ps.len(),
{
    if ps.len() > 0 {
        let t = ps.drop_last();
        assert(is_sorted_by(t, by_start()));
        lemma_latest_amount_is_latest_start(t, category_id, month);
        let n = ps.len() - 1;
        if applies(ps[n], category_id, month) {
            assert forall|j: int|
                0 <= j < ps.len() && applies(#[trigger] ps[j], category_id, month)
                    implies month_on_or_before(ps[j].start, ps[n].start) by {
                if j < n {
                    assert(!month_before(ps[n].start, ps[j].start));
                }
            }
        } else {
            if exists|k: int| 0 <= k < ps.len() && applies(#[trigger] ps[k], category_id, month) {
                let k0 = choose|k: int| 0 <= k < ps.len() && applies(#[trigger] ps[k], category_id, month);
                assert(t[k0] == ps[k0]);
                let k = choose|k: int|
                    0 <= k < t.len() && applies(#[trigger] t[k], category_id, month) && latest_amount(
                        t,
                        category_id,
                        month,
                    ) == t[k].amount && forall|j: int|
                        0 <= j < t.len() && applies(#[trigger] t[j], category_id, month)
                            ==> month_on_or_before(t[j].start, t[k].start);
                assert(ps[k] == t[k]);
                assert forall|j: int|
                    0 <= j < ps.len() && applies(#[trigger] ps[j], category_id, month)
                        implies month_on_or_before(ps[j].start, ps[k].start) by {
                    assert(j < n);
                    assert(t[j] == ps[j]);
                }
            } else {
                assert forall|k: int| 0 <= k < t.len() implies !applies(#[trigger] t[k], category_id, month) by {
                    assert(t[k] == ps[k]);
                }
            }
        }
    }
}

/// Start months are totally ordered, so a stable sort by them yields sorted periods.
pub proof fn lemma_by_start_order()
    ensures
        not_before_transitive(by_start()),
{
}

} // verus!
