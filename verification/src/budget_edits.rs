//! What the writes of a budget edit do to the budgets in force, month by month: the store
//! replaces, removes or clears periods, and the schedule read back from it answers each month
//! with its latest period.
use crate::model::{
    beginning_spec, month_before, month_on_or_before, next_month_spec, BudgetEditScope, BudgetMonth,
    BudgetPeriod, BudgetWrite,
};
use crate::money::Amount;
use crate::schedule::{
    applies, by_start, latest_amount, lemma_by_start_order, lemma_latest_amount_is_latest_start,
    plan_edit_spec,
};
use crate::sorting::{lemma_stable_sorted_is_sorted_permutation, stable_sorted};
use vstd::prelude::*;

verus! {

/// The period of budget `category_id` starting in `start`.
pub open spec fn at_start(p: BudgetPeriod, category_id: Option<i64>, start: BudgetMonth) -> bool {
    p.category_id == category_id && p.start == start
}

/// The stored periods after one write for budget `category_id`, as the store carries it out:
/// `Assign` replaces the period starting in its month with a new one (id `fresh`) holding its
/// amount, `Remove` deletes that period, `RemoveAll` deletes every period of the budget.
/// Periods of other budgets are untouched.
pub open spec fn apply_write(
    ps: Seq<BudgetPeriod>,
    category_id: Option<i64>,
    w: BudgetWrite,
    fresh: i64,
) -> Seq<BudgetPeriod> {
    match w {
        BudgetWrite::Assign(start, amount) => ps.filter(
            |p: BudgetPeriod| !at_start(p, category_id, start),
        ).push(BudgetPeriod { id: fresh, category_id, start, amount }),
        BudgetWrite::Remove(start) => ps.filter(|p: BudgetPeriod| !at_start(p, category_id, start)),
        BudgetWrite::RemoveAll => ps.filter(|p: BudgetPeriod| p.category_id != category_id),
    }
}

/// The stored periods after the writes, in order.
pub open spec fn apply_writes(
    ps: Seq<BudgetPeriod>,
    category_id: Option<i64>,
    ws: Seq<BudgetWrite>,
    fresh: i64,
) -> Seq<BudgetPeriod>
    decreases ws.len(),
{
    if ws.len() == 0 {
        ps
    } else {
        apply_write(apply_writes(ps, category_id, ws.drop_last(), fresh), category_id, ws.last(), fresh)
    }
}

/// The budget in force for `category_id` in `month`, read from the stored periods as the app
/// reads them back (a schedule of the periods, by start month).
pub open spec fn in_force(ps: Seq<BudgetPeriod>, category_id: Option<i64>, month: BudgetMonth) -> Option<
    Amount,
> {
    latest_amount(stable_sorted(ps, by_start()), category_id, month)
}

/// At most one stored period per budget and start month, as the store's unique index keeps it.
pub open spec fn one_per_start(ps: Seq<BudgetPeriod>) -> bool {
    forall|p: BudgetPeriod, q: BudgetPeriod|
        #![trigger ps.contains(p), ps.contains(q)]
        ps.contains(p) && ps.contains(q) && p.category_id == q.category_id && p.start == q.start
            ==> p == q
}

/// `p` is a stored period of the budget in force in `month` with the latest start.
pub open spec fn latest_applicable(
    ps: Seq<BudgetPeriod>,
    category_id: Option<i64>,
    month: BudgetMonth,
    p: BudgetPeriod,
) -> bool {
    &&& ps.contains(p)
    &&& applies(p, category_id, month)
    &&& forall|q: BudgetPeriod|
        #![trigger ps.contains(q)]
        ps.contains(q) && applies(q, category_id, month) ==> month_on_or_before(q.start, p.start)
}

proof fn lemma_month_order()
    ensures
        forall|a: BudgetMonth, b: BudgetMonth|
            #![trigger month_on_or_before(a, b), month_on_or_before(b, a)]
            month_on_or_before(a, b) && month_on_or_before(b, a) ==> a == b,
        forall|a: BudgetMonth, b: BudgetMonth, c: BudgetMonth|
            #![trigger month_on_or_before(a, b), month_on_or_before(b, c)]
            month_on_or_before(a, b) && month_on_or_before(b, c) ==> month_on_or_before(a, c),
        forall|a: BudgetMonth, b: BudgetMonth|
            #![trigger month_on_or_before(a, b)]
            month_on_or_before(a, b) || month_before(b, a),
{
}

/// The budget in force is the amount of the latest applicable period, and none when no period
/// applies.
proof fn lemma_in_force(ps: Seq<BudgetPeriod>, category_id: Option<i64>, month: BudgetMonth)
    requires
        one_per_start(ps),
    ensures
        (forall|q: BudgetPeriod| #![trigger ps.contains(q)] ps.contains(q) ==> !applies(q, category_id, month))
            ==> in_force(ps, category_id, month) is None,
        forall|p: BudgetPeriod|
            #![trigger latest_applicable(ps, category_id, month, p)]
            latest_applicable(ps, category_id, month, p) ==> in_force(ps, category_id, month)
                == p.amount,
{
    let s = stable_sorted(ps, by_start());
    lemma_by_start_order();
    lemma_stable_sorted_is_sorted_permutation(ps, by_start());
    lemma_latest_amount_is_latest_start(s, category_id, month);
    lemma_month_order();
    assert forall|x: BudgetPeriod| #[trigger] s.contains(x) <==> ps.contains(x) by {
        vstd::seq_lib::to_multiset_contains(s, x);
        vstd::seq_lib::to_multiset_contains(ps, x);
    }
    if forall|q: BudgetPeriod| #![trigger ps.contains(q)] ps.contains(q) ==> !applies(q, category_id, month) {
        assert forall|k: int| 0 <= k < s.len() implies !applies(#[trigger] s[k], category_id, month) by {
            assert(s.contains(s[k]));
        }
    }
    assert forall|p: BudgetPeriod|
        #![trigger latest_applicable(ps, category_id, month, p)]
        latest_applicable(ps, category_id, month, p) implies in_force(ps, category_id, month)
            == p.amount by {
        assert(s.contains(p));
        let i = choose|i: int| 0 <= i < s.len() && s[i] == p;
        assert(applies(s[i], category_id, month));
        let k = choose|k: int|
            0 <= k < s.len() && applies(#[trigger] s[k], category_id, month) && latest_amount(
                s,
                category_id,
                month,
            ) == s[k].amount && forall|j: int|
                0 <= j < s.len() && applies(#[trigger] s[j], category_id, month)
                    ==> month_on_or_before(s[j].start, s[k].start);
        assert(s.contains(s[k]));
        assert(ps.contains(s[k]));
        assert(month_on_or_before(s[i].start, s[k].start));
        assert(month_on_or_before(s[k].start, p.start));
        assert(s[k] == p);
    }
}

proof fn lemma_filter_contains_iff(ps: Seq<BudgetPeriod>, keep: spec_fn(BudgetPeriod) -> bool)
    ensures
        forall|x: BudgetPeriod|
            #![trigger ps.filter(keep).contains(x)]
            ps.filter(keep).contains(x) <==> ps.contains(x) && keep(x),
{
    assert forall|x: BudgetPeriod|
        #![trigger ps.filter(keep).contains(x)]
        ps.filter(keep).contains(x) <==> ps.contains(x) && keep(x) by {
        if ps.filter(keep).contains(x) {
            ps.lemma_filter_contains_rev(keep, x);
            let i = choose|i: int| 0 <= i < ps.filter(keep).len() && ps.filter(keep)[i] == x;
            ps.lemma_filter_pred(keep, i);
        }
        if ps.contains(x) && keep(x) {
            let i = choose|i: int| 0 <= i < ps.len() && ps[i] == x;
            ps.lemma_filter_contains(keep, i);
        }
    }
}

proof fn lemma_push_contains(ps: Seq<BudgetPeriod>, p: BudgetPeriod)
    ensures
        forall|x: BudgetPeriod|
            #![trigger ps.push(p).contains(x)]
            ps.push(p).contains(x) <==> ps.contains(x) || x == p,
{
    assert forall|x: BudgetPeriod|
        #![trigger ps.push(p).contains(x)]
        ps.push(p).contains(x) <==> ps.contains(x) || x == p by {
        if ps.contains(x) {
            let i = choose|i: int| 0 <= i < ps.len() && ps[i] == x;
            assert(ps.push(p)[i] == x);
        }
        if x == p {
            assert(ps.push(p)[ps.len() as int] == x);
        }
        if ps.push(p).contains(x) && x != p {
            let i = choose|i: int| 0 <= i < ps.push(p).len() && ps.push(p)[i] == x;
            assert(i < ps.len());
            assert(ps[i] == x);
        }
    }
}

/// When some stored period of the budget applies in `month`, one of them has the latest start.
proof fn lemma_exists_latest(ps: Seq<BudgetPeriod>, category_id: Option<i64>, month: BudgetMonth)
    requires
        exists|q: BudgetPeriod| #![trigger ps.contains(q)] ps.contains(q) && applies(q, category_id, month),
    ensures
        exists|p: BudgetPeriod| #[trigger] latest_applicable(ps, category_id, month, p),
{
    let s = stable_sorted(ps, by_start());
    lemma_by_start_order();
    lemma_stable_sorted_is_sorted_permutation(ps, by_start());
    lemma_latest_amount_is_latest_start(s, category_id, month);
    assert forall|x: BudgetPeriod| #[trigger] s.contains(x) <==> ps.contains(x) by {
        vstd::seq_lib::to_multiset_contains(s, x);
        vstd::seq_lib::to_multiset_contains(ps, x);
    }
    let q = choose|q: BudgetPeriod| #![trigger ps.contains(q)] ps.contains(q) && applies(q, category_id, month);
    assert(s.contains(q));
    let qi = choose|i: int| 0 <= i < s.len() && s[i] == q;
    assert(applies(s[qi], category_id, month));
    let k = choose|k: int|
        0 <= k < s.len() && applies(#[trigger] s[k], category_id, month) && latest_amount(
            s,
            category_id,
            month,
        ) == s[k].amount && forall|j: int|
            0 <= j < s.len() && applies(#[trigger] s[j], category_id, month) ==> month_on_or_before(
                s[j].start,
                s[k].start,
            );
    assert(s.contains(s[k]));
    assert forall|r: BudgetPeriod|
        #![trigger ps.contains(r)]
        ps.contains(r) && applies(r, category_id, month) implies month_on_or_before(r.start, s[k].start) by {
        assert(s.contains(r));
        let j = choose|j: int| 0 <= j < s.len() && s[j] == r;
        assert(applies(s[j], category_id, month));
    }
    assert(latest_applicable(ps, category_id, month, s[k]));
}

/// Two stores, and two months, to which the same periods of a budget apply give the same
/// budget.
proof fn lemma_same_applicable(
    ps: Seq<BudgetPeriod>,
    m1: BudgetMonth,
    qs: Seq<BudgetPeriod>,
    m2: BudgetMonth,
    category_id: Option<i64>,
)
    requires
        one_per_start(ps),
        one_per_start(qs),
        forall|x: BudgetPeriod|
            #![trigger ps.contains(x)]
            #![trigger qs.contains(x)]
            (ps.contains(x) && applies(x, category_id, m1)) <==> (qs.contains(x) && applies(
                x,
                category_id,
                m2,
            )),
    ensures
        in_force(ps, category_id, m1) == in_force(qs, category_id, m2),
{
    lemma_in_force(ps, category_id, m1);
    lemma_in_force(qs, category_id, m2);
    if exists|q: BudgetPeriod| #![trigger ps.contains(q)] ps.contains(q) && applies(q, category_id, m1) {
        lemma_exists_latest(ps, category_id, m1);
        let p = choose|p: BudgetPeriod| #[trigger] latest_applicable(ps, category_id, m1, p);
        assert forall|r: BudgetPeriod|
            #![trigger qs.contains(r)]
            qs.contains(r) && applies(r, category_id, m2) implies month_on_or_before(r.start, p.start) by {
            assert(ps.contains(r));
        }
        assert(latest_applicable(qs, category_id, m2, p));
    } else {
        assert forall|q: BudgetPeriod| #![trigger qs.contains(q)] qs.contains(q) implies !applies(
            q,
            category_id,
            m2,
        ) by {
            if applies(q, category_id, m2) {
                assert(ps.contains(q));
            }
        }
    }
}

/// Which periods the store holds after the two writes of a this-month-only edit.
proof fn lemma_this_month_only_contents(
    ps: Seq<BudgetPeriod>,
    category_id: Option<i64>,
    start: BudgetMonth,
    amount: Option<Amount>,
    inherited: Option<Amount>,
    fresh: i64,
)
    ensures
        ({
            let next = next_month_spec(start);
            let p1 = BudgetPeriod { id: fresh, category_id, start, amount };
            let p2 = BudgetPeriod { id: fresh, category_id, start: next, amount: inherited };
            let after = apply_writes(
                ps,
                category_id,
                seq![BudgetWrite::Assign(start, amount), BudgetWrite::Assign(next, inherited)],
                fresh,
            );
            &&& start != next ==> forall|x: BudgetPeriod|
                #![trigger after.contains(x)]
                after.contains(x) <==> ((ps.contains(x) && !at_start(x, category_id, start)
                    && !at_start(x, category_id, next)) || x == p1 || x == p2)
            &&& one_per_start(ps) && start != next ==> one_per_start(after)
        }),
{
    let next = next_month_spec(start);
    let p1 = BudgetPeriod { id: fresh, category_id, start, amount };
    let p2 = BudgetPeriod { id: fresh, category_id, start: next, amount: inherited };
    let ws = seq![BudgetWrite::Assign(start, amount), BudgetWrite::Assign(next, inherited)];
    let k1 = |p: BudgetPeriod| !at_start(p, category_id, start);
    let k2 = |p: BudgetPeriod| !at_start(p, category_id, next);
    let ps1 = ps.filter(k1).push(p1);
    let w1 = seq![BudgetWrite::Assign(start, amount)];
    assert(ws.drop_last() =~= w1);
    assert(ws.last() == BudgetWrite::Assign(next, inherited));
    assert(w1.drop_last() =~= Seq::<BudgetWrite>::empty());
    assert(w1.last() == BudgetWrite::Assign(start, amount));
    assert(apply_writes(ps, category_id, w1.drop_last(), fresh) == ps);
    assert(apply_write(ps, category_id, BudgetWrite::Assign(start, amount), fresh) =~= ps1);
    assert(apply_writes(ps, category_id, w1, fresh) == ps1);
    let after = ps1.filter(k2).push(p2);
    assert(apply_write(ps1, category_id, BudgetWrite::Assign(next, inherited), fresh) =~= after);
    assert(apply_writes(ps, category_id, ws, fresh) == after);
    lemma_filter_contains_iff(ps, k1);
    lemma_filter_contains_iff(ps1, k2);
    lemma_push_contains(ps.filter(k1), p1);
    lemma_push_contains(ps1.filter(k2), p2);
    if start != next {
        assert forall|x: BudgetPeriod|
            #![trigger after.contains(x)]
            after.contains(x) <==> ((ps.contains(x) && !at_start(x, category_id, start)
                && !at_start(x, category_id, next)) || x == p1 || x == p2) by {
            assert(after.contains(x) <==> (ps1.filter(k2).contains(x) || x == p2));
            assert(ps1.contains(x) <==> (ps.filter(k1).contains(x) || x == p1));
            assert(ps1.filter(k2).contains(x) <==> ps1.contains(x) && k2(x));
            assert(ps.filter(k1).contains(x) <==> ps.contains(x) && k1(x));
        }
        if one_per_start(ps) {
            assert forall|p: BudgetPeriod, q: BudgetPeriod|
                #![trigger after.contains(p), after.contains(q)]
                after.contains(p) && after.contains(q) && p.category_id == q.category_id && p.start
                    == q.start implies p == q by {
                if p != p1 && p != p2 && q != p1 && q != p2 {
                    assert(ps.contains(p) && ps.contains(q));
                }
            }
        }
    }
}

/// A month of the calendar, January to December.
pub open spec fn real_month(m: BudgetMonth) -> bool {
    1 <= m.month <= 12
}

/// An edit of this month only: after its writes the edited month has the new amount and every
/// other month, and every other budget, keeps the budget it had.
pub proof fn lemma_this_month_only_changes_one_month(
    ps: Seq<BudgetPeriod>,
    category_id: Option<i64>,
    start: BudgetMonth,
    amount: Option<Amount>,
    fresh: i64,
)
    requires
        one_per_start(ps),
        real_month(start),
        start.year < i32::MAX,
    ensures
        ({
            let ws = plan_edit_spec(
                stable_sorted(ps, by_start()),
                category_id,
                start,
                amount,
                BudgetEditScope::ThisMonthOnly,
            );
            let after = apply_writes(ps, category_id, ws, fresh);
            &&& in_force(after, category_id, start) == amount
            &&& forall|m: BudgetMonth|
                real_month(m) && m != start ==> #[trigger] in_force(after, category_id, m)
                    == in_force(ps, category_id, m)
            &&& forall|other: Option<i64>, m: BudgetMonth|
                other != category_id ==> #[trigger] in_force(after, other, m) == in_force(ps, other, m)
        }),
{
    let next = next_month_spec(start);
    let inherited = in_force(ps, category_id, next);
    let ws = plan_edit_spec(
        stable_sorted(ps, by_start()),
        category_id,
        start,
        amount,
        BudgetEditScope::ThisMonthOnly,
    );
    assert(ws == seq![BudgetWrite::Assign(start, amount), BudgetWrite::Assign(next, inherited)]);
    let after = apply_writes(ps, category_id, ws, fresh);
    let p1 = BudgetPeriod { id: fresh, category_id, start, amount };
    let p2 = BudgetPeriod { id: fresh, category_id, start: next, amount: inherited };
    assert(month_before(start, next));
    lemma_this_month_only_contents(ps, category_id, start, amount, inherited, fresh);
    lemma_month_order();
    // The edited month: the new period is the latest that applies.
    lemma_in_force(after, category_id, start);
    assert(after.contains(p1));
    assert(latest_applicable(after, category_id, start, p1));
    // Other budgets: their periods are untouched.
    assert forall|other: Option<i64>, m: BudgetMonth|
        other != category_id implies #[trigger] in_force(after, other, m) == in_force(ps, other, m) by {
        lemma_same_applicable(after, m, ps, m, other);
    }
    assert forall|m: BudgetMonth|
        real_month(m) && m != start implies #[trigger] in_force(after, category_id, m) == in_force(
            ps,
            category_id,
            m,
        ) by {
        lemma_other_month(ps, category_id, start, amount, fresh, m);
    }
}

proof fn lemma_other_month(
    ps: Seq<BudgetPeriod>,
    category_id: Option<i64>,
    start: BudgetMonth,
    amount: Option<Amount>,
    fresh: i64,
    m: BudgetMonth,
)
    requires
        one_per_start(ps),
        real_month(start),
        start.year < i32::MAX,
        real_month(m),
        m != start,
    ensures
        ({
            let next = next_month_spec(start);
            let inherited = in_force(ps, category_id, next);
            let ws = seq![BudgetWrite::Assign(start, amount), BudgetWrite::Assign(next, inherited)];
            in_force(apply_writes(ps, category_id, ws, fresh), category_id, m) == in_force(
                ps,
                category_id,
                m,
            )
        }),
{
    let next = next_month_spec(start);
    let inherited = in_force(ps, category_id, next);
    let ws = seq![BudgetWrite::Assign(start, amount), BudgetWrite::Assign(next, inherited)];
    let after = apply_writes(ps, category_id, ws, fresh);
    let p1 = BudgetPeriod { id: fresh, category_id, start, amount };
    let p2 = BudgetPeriod { id: fresh, category_id, start: next, amount: inherited };
    assert(month_before(start, next));
    lemma_this_month_only_contents(ps, category_id, start, amount, inherited, fresh);
    lemma_month_order();
    if month_before(m, start) {
        // An earlier month: neither written period applies, nor did the replaced ones.
        lemma_same_applicable(after, m, ps, m, category_id);
    } else {
        // A later month is the following month or after it.
        assert(month_on_or_before(next, m));
        if exists|q: BudgetPeriod|
            #![trigger ps.contains(q)]
            ps.contains(q) && applies(q, category_id, m) && month_before(next, q.start) {
            // A period starting after the following month still decides.
            lemma_exists_latest(ps, category_id, m);
            let p = choose|p: BudgetPeriod| #[trigger] latest_applicable(ps, category_id, m, p);
            let q = choose|q: BudgetPeriod|
                #![trigger ps.contains(q)]
                ps.contains(q) && applies(q, category_id, m) && month_before(next, q.start);
            assert(month_on_or_before(q.start, p.start));
            assert(after.contains(p));
            assert forall|r: BudgetPeriod|
                #![trigger after.contains(r)]
                after.contains(r) && applies(r, category_id, m) implies month_on_or_before(r.start, p.start) by {
                if r != p1 && r != p2 {
                    assert(ps.contains(r));
                }
            }
            assert(latest_applicable(after, category_id, m, p));
            lemma_in_force(after, category_id, m);
            lemma_in_force(ps, category_id, m);
        } else {
            // Otherwise the restored following month decides, with what it inherited.
            assert(after.contains(p2));
            assert forall|r: BudgetPeriod|
                #![trigger after.contains(r)]
                after.contains(r) && applies(r, category_id, m) implies month_on_or_before(r.start, next) by {
                if r != p1 && r != p2 {
                    assert(ps.contains(r));
                }
            }
            assert(latest_applicable(after, category_id, m, p2));
            lemma_in_force(after, category_id, m);
            assert forall|x: BudgetPeriod|
                #![trigger ps.contains(x)]
                #![trigger ps.contains(x)]
                (ps.contains(x) && applies(x, category_id, m)) <==> (ps.contains(x) && applies(
                    x,
                    category_id,
                    next,
                )) by {}
            lemma_same_applicable(ps, m, ps, next, category_id);
        }
    }
}

/// A stored period of the budget starts after `start` and no later than `month`.
pub open spec fn later_change(
    ps: Seq<BudgetPeriod>,
    category_id: Option<i64>,
    start: BudgetMonth,
    month: BudgetMonth,
) -> bool {
    exists|q: BudgetPeriod|
        #![trigger ps.contains(q)]
        ps.contains(q) && q.category_id == category_id && month_before(start, q.start)
            && month_on_or_before(q.start, month)
}

/// Which periods the store holds after one `Assign`.
proof fn lemma_assign_contents(
    ps: Seq<BudgetPeriod>,
    category_id: Option<i64>,
    start: BudgetMonth,
    amount: Option<Amount>,
    fresh: i64,
)
    ensures
        ({
            let p1 = BudgetPeriod { id: fresh, category_id, start, amount };
            let after = apply_writes(ps, category_id, seq![BudgetWrite::Assign(start, amount)], fresh);
            &&& forall|x: BudgetPeriod|
                #![trigger after.contains(x)]
                after.contains(x) <==> ((ps.contains(x) && !at_start(x, category_id, start)) || x == p1)
            &&& one_per_start(ps) ==> one_per_start(after)
        }),
{
    let p1 = BudgetPeriod { id: fresh, category_id, start, amount };
    let w1 = seq![BudgetWrite::Assign(start, amount)];
    let k1 = |p: BudgetPeriod| !at_start(p, category_id, start);
    assert(w1.drop_last() =~= Seq::<BudgetWrite>::empty());
    assert(apply_writes(ps, category_id, w1.drop_last(), fresh) == ps);
    let after = ps.filter(k1).push(p1);
    assert(apply_write(ps, category_id, BudgetWrite::Assign(start, amount), fresh) =~= after);
    assert(apply_writes(ps, category_id, w1, fresh) == after);
    lemma_filter_contains_iff(ps, k1);
    lemma_push_contains(ps.filter(k1), p1);
    assert forall|x: BudgetPeriod|
        #![trigger after.contains(x)]
        after.contains(x) <==> ((ps.contains(x) && !at_start(x, category_id, start)) || x == p1) by {
        assert(ps.filter(k1).contains(x) <==> ps.contains(x) && k1(x));
    }
    if one_per_start(ps) {
        assert forall|p: BudgetPeriod, q: BudgetPeriod|
            #![trigger after.contains(p), after.contains(q)]
            after.contains(p) && after.contains(q) && p.category_id == q.category_id && p.start
                == q.start implies p == q by {
            if p != p1 && q != p1 {
                assert(ps.contains(p) && ps.contains(q));
            }
        }
    }
}

/// Which periods the store holds after one `Remove`.
proof fn lemma_remove_contents(
    ps: Seq<BudgetPeriod>,
    category_id: Option<i64>,
    start: BudgetMonth,
    fresh: i64,
)
    ensures
        ({
            let after = apply_writes(ps, category_id, seq![BudgetWrite::Remove(start)], fresh);
            &&& forall|x: BudgetPeriod|
                #![trigger after.contains(x)]
                after.contains(x) <==> (ps.contains(x) && !at_start(x, category_id, start))
            &&& one_per_start(ps) ==> one_per_start(after)
        }),
{
    let w1 = seq![BudgetWrite::Remove(start)];
    let k1 = |p: BudgetPeriod| !at_start(p, category_id, start);
    assert(w1.drop_last() =~= Seq::<BudgetWrite>::empty());
    assert(apply_writes(ps, category_id, w1.drop_last(), fresh) == ps);
    let after = ps.filter(k1);
    assert(apply_write(ps, category_id, BudgetWrite::Remove(start), fresh) =~= after);
    assert(apply_writes(ps, category_id, w1, fresh) == after);
    lemma_filter_contains_iff(ps, k1);
    assert forall|x: BudgetPeriod|
        #![trigger after.contains(x)]
        after.contains(x) <==> (ps.contains(x) && !at_start(x, category_id, start)) by {
        assert(ps.filter(k1).contains(x) <==> ps.contains(x) && k1(x));
    }
    if one_per_start(ps) {
        assert forall|p: BudgetPeriod, q: BudgetPeriod|
            #![trigger after.contains(p), after.contains(q)]
            after.contains(p) && after.contains(q) && p.category_id == q.category_id && p.start
                == q.start implies p == q by {
            assert(ps.contains(p) && ps.contains(q));
        }
    }
}

/// Which periods the store holds after a replace-all edit: the other budgets' and the new one.
proof fn lemma_replace_contents(
    ps: Seq<BudgetPeriod>,
    category_id: Option<i64>,
    amount: Option<Amount>,
    fresh: i64,
)
    ensures
        ({
            let pb = BudgetPeriod { id: fresh, category_id, start: beginning_spec(), amount };
            let after = apply_writes(
                ps,
                category_id,
                seq![BudgetWrite::RemoveAll, BudgetWrite::Assign(beginning_spec(), amount)],
                fresh,
            );
            &&& forall|x: BudgetPeriod|
                #![trigger after.contains(x)]
                after.contains(x) <==> ((ps.contains(x) && x.category_id != category_id) || x == pb)
            &&& one_per_start(ps) ==> one_per_start(after)
        }),
{
    let pb = BudgetPeriod { id: fresh, category_id, start: beginning_spec(), amount };
    let ws = seq![BudgetWrite::RemoveAll, BudgetWrite::Assign(beginning_spec(), amount)];
    let w1 = seq![BudgetWrite::RemoveAll];
    let k0 = |p: BudgetPeriod| p.category_id != category_id;
    let k1 = |p: BudgetPeriod| !at_start(p, category_id, beginning_spec());
    assert(ws.drop_last() =~= w1);
    assert(w1.drop_last() =~= Seq::<BudgetWrite>::empty());
    assert(apply_writes(ps, category_id, w1.drop_last(), fresh) == ps);
    let ps1 = ps.filter(k0);
    assert(apply_write(ps, category_id, BudgetWrite::RemoveAll, fresh) =~= ps1);
    assert(apply_writes(ps, category_id, w1, fresh) == ps1);
    let after = ps1.filter(k1).push(pb);
    assert(apply_write(ps1, category_id, BudgetWrite::Assign(beginning_spec(), amount), fresh)
        =~= after);
    assert(apply_writes(ps, category_id, ws, fresh) == after);
    lemma_filter_contains_iff(ps, k0);
    lemma_filter_contains_iff(ps1, k1);
    lemma_push_contains(ps1.filter(k1), pb);
    assert forall|x: BudgetPeriod|
        #![trigger after.contains(x)]
        after.contains(x) <==> ((ps.contains(x) && x.category_id != category_id) || x == pb) by {
        assert(ps1.filter(k1).contains(x) <==> ps1.contains(x) && k1(x));
        assert(ps.filter(k0).contains(x) <==> ps.contains(x) && k0(x));
    }
    if one_per_start(ps) {
        assert forall|p: BudgetPeriod, q: BudgetPeriod|
            #![trigger after.contains(p), after.contains(q)]
            after.contains(p) && after.contains(q) && p.category_id == q.category_id && p.start
                == q.start implies p == q by {
            if p != pb && q != pb {
                assert(ps.contains(p) && ps.contains(q));
            }
        }
    }
}

/// An edit from this month on: months before it keep their budget, months from it up to the
/// next change of the budget get the new amount, months from that change on keep theirs, and
/// other budgets are untouched.
pub proof fn lemma_from_this_month_reaches_next_change(
    ps: Seq<BudgetPeriod>,
    category_id: Option<i64>,
    start: BudgetMonth,
    amount: Option<Amount>,
    fresh: i64,
)
    requires
        one_per_start(ps),
    ensures
        ({
            let ws = plan_edit_spec(
                stable_sorted(ps, by_start()),
                category_id,
                start,
                amount,
                BudgetEditScope::FromThisMonth,
            );
            let after = apply_writes(ps, category_id, ws, fresh);
            &&& forall|m: BudgetMonth|
                month_before(m, start) ==> #[trigger] in_force(after, category_id, m) == in_force(
                    ps,
                    category_id,
                    m,
                )
            &&& forall|m: BudgetMonth|
                month_on_or_before(start, m) && !later_change(ps, category_id, start, m)
                    ==> #[trigger] in_force(after, category_id, m) == amount
            &&& forall|m: BudgetMonth|
                later_change(ps, category_id, start, m) ==> #[trigger] in_force(
                    after,
                    category_id,
                    m,
                ) == in_force(ps, category_id, m)
            &&& forall|other: Option<i64>, m: BudgetMonth|
                other != category_id ==> #[trigger] in_force(after, other, m) == in_force(ps, other, m)
        }),
{
    let ws = plan_edit_spec(
        stable_sorted(ps, by_start()),
        category_id,
        start,
        amount,
        BudgetEditScope::FromThisMonth,
    );
    assert(ws == seq![BudgetWrite::Assign(start, amount)]);
    let after = apply_writes(ps, category_id, ws, fresh);
    let p1 = BudgetPeriod { id: fresh, category_id, start, amount };
    lemma_assign_contents(ps, category_id, start, amount, fresh);
    lemma_month_order();
    assert(after.contains(p1));
    assert forall|m: BudgetMonth|
        month_before(m, start) implies #[trigger] in_force(after, category_id, m) == in_force(
            ps,
            category_id,
            m,
        ) by {
        lemma_same_applicable(after, m, ps, m, category_id);
    }
    assert forall|m: BudgetMonth|
        month_on_or_before(start, m) && !later_change(ps, category_id, start, m)
            implies #[trigger] in_force(after, category_id, m) == amount by {
        assert forall|r: BudgetPeriod|
            #![trigger after.contains(r)]
            after.contains(r) && applies(r, category_id, m) implies month_on_or_before(r.start, start) by {
            if r != p1 {
                assert(ps.contains(r));
            }
        }
        assert(latest_applicable(after, category_id, m, p1));
        lemma_in_force(after, category_id, m);
    }
    assert forall|m: BudgetMonth|
        later_change(ps, category_id, start, m) implies #[trigger] in_force(after, category_id, m)
            == in_force(ps, category_id, m) by {
        let q = choose|q: BudgetPeriod|
            #![trigger ps.contains(q)]
            ps.contains(q) && q.category_id == category_id && month_before(start, q.start)
                && month_on_or_before(q.start, m);
        assert(applies(q, category_id, m));
        lemma_exists_latest(ps, category_id, m);
        let p = choose|p: BudgetPeriod| #[trigger] latest_applicable(ps, category_id, m, p);
        assert(month_on_or_before(q.start, p.start));
        assert(after.contains(p));
        assert forall|r: BudgetPeriod|
            #![trigger after.contains(r)]
            after.contains(r) && applies(r, category_id, m) implies month_on_or_before(r.start, p.start) by {
            if r != p1 {
                assert(ps.contains(r));
            }
        }
        assert(latest_applicable(after, category_id, m, p));
        lemma_in_force(after, category_id, m);
        lemma_in_force(ps, category_id, m);
    }
    assert forall|other: Option<i64>, m: BudgetMonth|
        other != category_id implies #[trigger] in_force(after, other, m) == in_force(ps, other, m) by {
        lemma_same_applicable(after, m, ps, m, other);
    }
}

/// An edit of all months: every month from the beginning on has the new amount, and other
/// budgets are untouched.
pub proof fn lemma_replace_all_months_sets_every_month(
    ps: Seq<BudgetPeriod>,
    category_id: Option<i64>,
    start: BudgetMonth,
    amount: Option<Amount>,
    fresh: i64,
)
    requires
        one_per_start(ps),
    ensures
        ({
            let ws = plan_edit_spec(
                stable_sorted(ps, by_start()),
                category_id,
                start,
                amount,
                BudgetEditScope::ReplaceAllMonths,
            );
            let after = apply_writes(ps, category_id, ws, fresh);
            &&& forall|m: BudgetMonth|
                month_on_or_before(beginning_spec(), m) ==> #[trigger] in_force(after, category_id, m)
                    == amount
            &&& forall|other: Option<i64>, m: BudgetMonth|
                other != category_id ==> #[trigger] in_force(after, other, m) == in_force(ps, other, m)
        }),
{
    let ws = plan_edit_spec(
        stable_sorted(ps, by_start()),
        category_id,
        start,
        amount,
        BudgetEditScope::ReplaceAllMonths,
    );
    assert(ws == seq![BudgetWrite::RemoveAll, BudgetWrite::Assign(beginning_spec(), amount)]);
    let after = apply_writes(ps, category_id, ws, fresh);
    let pb = BudgetPeriod { id: fresh, category_id, start: beginning_spec(), amount };
    lemma_replace_contents(ps, category_id, amount, fresh);
    lemma_month_order();
    assert(after.contains(pb));
    assert forall|m: BudgetMonth|
        month_on_or_before(beginning_spec(), m) implies #[trigger] in_force(after, category_id, m)
            == amount by {
        assert forall|r: BudgetPeriod|
            #![trigger after.contains(r)]
            after.contains(r) && applies(r, category_id, m) implies month_on_or_before(
            r.start,
            beginning_spec(),
        ) by {}
        assert(latest_applicable(after, category_id, m, pb));
        lemma_in_force(after, category_id, m);
    }
    assert forall|other: Option<i64>, m: BudgetMonth|
        other != category_id implies #[trigger] in_force(after, other, m) == in_force(ps, other, m) by {
        lemma_same_applicable(after, m, ps, m, other);
    }
}

/// Removing the change at a month: months before it and months from the next change on keep
/// their budget, other budgets are untouched, and removing a change that an edit from this
/// month on had just made gives every month of every budget back the budget it had.
pub proof fn lemma_remove_change_undoes_edit(
    ps: Seq<BudgetPeriod>,
    category_id: Option<i64>,
    start: BudgetMonth,
    amount: Option<Amount>,
    fresh: i64,
)
    requires
        one_per_start(ps),
    ensures
        ({
            let rm = plan_edit_spec(
                stable_sorted(ps, by_start()),
                category_id,
                start,
                None,
                BudgetEditScope::RemoveChange,
            );
            let after = apply_writes(ps, category_id, rm, fresh);
            &&& forall|m: BudgetMonth|
                month_before(m, start) ==> #[trigger] in_force(after, category_id, m) == in_force(
                    ps,
                    category_id,
                    m,
                )
            &&& forall|m: BudgetMonth|
                later_change(ps, category_id, start, m) ==> #[trigger] in_force(
                    after,
                    category_id,
                    m,
                ) == in_force(ps, category_id, m)
            &&& forall|other: Option<i64>, m: BudgetMonth|
                other != category_id ==> #[trigger] in_force(after, other, m) == in_force(ps, other, m)
        }),
        ({
            let set = plan_edit_spec(
                stable_sorted(ps, by_start()),
                category_id,
                start,
                amount,
                BudgetEditScope::FromThisMonth,
            );
            let edited = apply_writes(ps, category_id, set, fresh);
            let rm = plan_edit_spec(
                stable_sorted(edited, by_start()),
                category_id,
                start,
                None,
                BudgetEditScope::RemoveChange,
            );
            let undone = apply_writes(edited, category_id, rm, fresh);
            (forall|q: BudgetPeriod| #![trigger ps.contains(q)] ps.contains(q) ==> !at_start(q, category_id, start))
                ==> forall|c: Option<i64>, m: BudgetMonth|
                #[trigger] in_force(undone, c, m) == in_force(ps, c, m)
        }),
{
    let rm = seq![BudgetWrite::Remove(start)];
    let after = apply_writes(ps, category_id, rm, fresh);
    lemma_remove_contents(ps, category_id, start, fresh);
    lemma_month_order();
    assert forall|m: BudgetMonth|
        month_before(m, start) implies #[trigger] in_force(after, category_id, m) == in_force(
            ps,
            category_id,
            m,
        ) by {
        lemma_same_applicable(after, m, ps, m, category_id);
    }
    assert forall|m: BudgetMonth|
        later_change(ps, category_id, start, m) implies #[trigger] in_force(after, category_id, m)
            == in_force(ps, category_id, m) by {
        let q = choose|q: BudgetPeriod|
            #![trigger ps.contains(q)]
            ps.contains(q) && q.category_id == category_id && month_before(start, q.start)
                && month_on_or_before(q.start, m);
        assert(applies(q, category_id, m));
        lemma_exists_latest(ps, category_id, m);
        let p = choose|p: BudgetPeriod| #[trigger] latest_applicable(ps, category_id, m, p);
        assert(month_on_or_before(q.start, p.start));
        assert(after.contains(p));
        assert forall|r: BudgetPeriod|
            #![trigger after.contains(r)]
            after.contains(r) && applies(r, category_id, m) implies month_on_or_before(r.start, p.start) by {
            assert(ps.contains(r));
        }
        assert(latest_applicable(after, category_id, m, p));
        lemma_in_force(after, category_id, m);
        lemma_in_force(ps, category_id, m);
    }
    assert forall|other: Option<i64>, m: BudgetMonth|
        other != category_id implies #[trigger] in_force(after, other, m) == in_force(ps, other, m) by {
        lemma_same_applicable(after, m, ps, m, other);
    }
    let set = seq![BudgetWrite::Assign(start, amount)];
    let edited = apply_writes(ps, category_id, set, fresh);
    lemma_assign_contents(ps, category_id, start, amount, fresh);
    let undone = apply_writes(edited, category_id, rm, fresh);
    lemma_remove_contents(edited, category_id, start, fresh);
    if forall|q: BudgetPeriod| #![trigger ps.contains(q)] ps.contains(q) ==> !at_start(q, category_id, start) {
        assert forall|c: Option<i64>, m: BudgetMonth| #[trigger] in_force(undone, c, m) == in_force(ps, c, m) by {
            assert forall|x: BudgetPeriod| #[trigger] undone.contains(x) <==> ps.contains(x) by {}
            lemma_same_applicable(undone, m, ps, m, c);
        }
    }
}

} // verus!
