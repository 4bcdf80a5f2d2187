//! Stable sorting by a "strictly before" relation: equal elements keep their input order,
//! as with `slice::sort_by`.
use vstd::prelude::*;

verus! {

/// `x` inserted into `s` after every element it does not strictly precede, scanning from the
/// back: the insertion step of a stable insertion sort.
pub open spec fn insert_from_back<T>(s: Seq<T>, x: T, lt: spec_fn(T, T) -> bool) -> Seq<T>
    decreases s.len(),
{
    if s.len() == 0 || !lt(x, s.last()) {
        s.push(x)
    } else {
        insert_from_back(s.drop_last(), x, lt).push(s.last())
    }
}

/// The stable sort of `s`: elements in `lt` order, equal ones in their input order.
pub open spec fn stable_sorted<T>(s: Seq<T>, lt: spec_fn(T, T) -> bool) -> Seq<T>
    decreases s.len(),
{
    if s.len() == 0 {
        Seq::empty()
    } else {
        insert_from_back(stable_sorted(s.drop_last(), lt), s.last(), lt)
    }
}

/// No element is strictly before an earlier one.
pub open spec fn is_sorted_by<T>(s: Seq<T>, lt: spec_fn(T, T) -> bool) -> bool {
    forall|i: int, j: int| 0 <= i < j < s.len() ==> !lt(s[j], s[i])
}

/// `lt` is asymmetric and "not before" is transitive, as for the order of a sort key.
pub open spec fn not_before_transitive<T>(lt: spec_fn(T, T) -> bool) -> bool {
    &&& forall|a: T, b: T| #[trigger] lt(a, b) ==> !lt(b, a)
    &&& forall|a: T, b: T, c: T| #![trigger lt(a, b), lt(b, c)] !lt(a, b) && !lt(b, c) ==> !lt(a, c)
}

proof fn lemma_insert_at<T>(s: Seq<T>, x: T, lt: spec_fn(T, T) -> bool, j: int)
    requires
        0 <= j <= s.len(),
        forall|k: int| j <= k < s.len() ==> lt(x, #[trigger] s[k]),
        j > 0 ==> !lt(x, s[j - 1]),
    ensures
        insert_from_back(s, x, lt) == s.insert(j, x),
    decreases s.len(),
{
    if s.len() == j {
        assert(s.push(x) =~= s.insert(j, x));
    } else {
        let t = s.drop_last();
        assert forall|k: int| j <= k < t.len() implies lt(x, #[trigger] t[k]) by {
            assert(t[k] == s[k]);
        }
        if j > 0 {
            assert(t[j - 1] == s[j - 1]);
        }
        lemma_insert_at(t, x, lt, j);
        assert(t.insert(j, x).push(s.last()) =~= s.insert(j, x));
    }
}

/// Sorts `v` stably by `less`, whose answers are those of the relation `lt`.
/// `less` may be called on any two elements satisfying `valid`, which every element of `v` does.
pub(crate) fn stable_sort<T, F: Fn(&T, &T) -> bool>(
    v: Vec<T>,
    less: &F,
    Ghost(lt): Ghost<spec_fn(T, T) -> bool>,
    Ghost(valid): Ghost<spec_fn(T) -> bool>,
) -> (r: Vec<T>)
    requires
        forall|i: int| 0 <= i < v@.len() ==> valid(#[trigger] v@[i]),
        forall|a: &T, b: &T| valid(*a) && valid(*b) ==> #[trigger] less.requires((a, b)),
        forall|a: &T, b: &T, r: bool| less.ensures((a, b), r) ==> r == lt(*a, *b),
    ensures
        r@ == stable_sorted(v@, lt),
{
    let ghost orig = v@;
    let mut input = v;
    let mut out: Vec<T> = Vec::new();
    let ghost mut done: int = 0;
    while input.len() > 0
        invariant
            forall|i: int| 0 <= i < input@.len() ==> valid(#[trigger] input@[i]),
            forall|i: int| 0 <= i < out@.len() ==> valid(#[trigger] out@[i]),
            forall|a: &T, b: &T| valid(*a) && valid(*b) ==> #[trigger] less.requires((a, b)),
            forall|a: &T, b: &T, r: bool| less.ensures((a, b), r) ==> r == lt(*a, *b),
            0 <= done <= orig.len(),
            input@ == orig.skip(done),
            out@ == stable_sorted(orig.take(done), lt),
        decreases input.len(),
    {
        assert(valid(input@[0]));
        let x = input.remove(0);
        let mut j = out.len();
        while j > 0 && less(&x, &out[j - 1])
            invariant
                valid(x),
                forall|i: int| 0 <= i < out@.len() ==> valid(#[trigger] out@[i]),
                forall|a: &T, b: &T| valid(*a) && valid(*b) ==> #[trigger] less.requires((a, b)),
                forall|a: &T, b: &T, r: bool| less.ensures((a, b), r) ==> r == lt(*a, *b),
                j <= out.len(),
                forall|k: int| j <= k < out.len() ==> lt(x, #[trigger] out@[k]),
            decreases j,
        {
            j = j - 1;
        }
        proof {
            lemma_insert_at(out@, x, lt, j as int);
            assert(orig.take(done + 1).drop_last() =~= orig.take(done));
            assert(orig.take(done + 1).last() == x);
        }
        out.insert(j, x);
        proof {
            done = done + 1;
            assert(input@ =~= orig.skip(done));
        }
    }
    assert(orig.take(done) =~= orig);
    out
}

proof fn lemma_insert_sorted<T>(s: Seq<T>, x: T, lt: spec_fn(T, T) -> bool)
    requires
        is_sorted_by(s, lt),
        not_before_transitive(lt),
    ensures
        is_sorted_by(insert_from_back(s, x, lt), lt),
        insert_from_back(s, x, lt).to_multiset() == s.to_multiset().insert(x),
    decreases s.len(),
{
    broadcast use vstd::seq_lib::group_to_multiset_ensures;
    if s.len() == 0 || !lt(x, s.last()) {
        let r = s.push(x);
        assert forall|i: int, j: int| 0 <= i < j < r.len() implies !lt(r[j], r[i]) by {
            if j == s.len() {
                if i < s.len() - 1 {
                    assert(!lt(s.last(), s[i]));
                }
            }
        }
    } else {
        let t = s.drop_last();
        assert(is_sorted_by(t, lt));
        lemma_insert_sorted(t, x, lt);
        let u = insert_from_back(t, x, lt);
        let r = u.push(s.last());
        assert(u.to_multiset().contains(x)) by {
            assert(u.to_multiset() == t.to_multiset().insert(x));
        }
        assert forall|k: int| 0 <= k < u.len() implies !lt(s.last(), #[trigger] u[k]) by {
            assert(u.to_multiset().count(u[k]) > 0);
            assert(u.to_multiset() == t.to_multiset().insert(x));
            if u[k] != x {
                assert(t.to_multiset().count(u[k]) > 0);
                assert(t.contains(u[k]));
                let m = choose|m: int| 0 <= m < t.len() && t[m] == u[k];
                assert(t[m] == s[m]);
                assert(!lt(s[s.len() - 1], s[m]));
            } else {
                assert(lt(x, s.last()));
            }
        }
        assert forall|i: int, j: int| 0 <= i < j < r.len() implies !lt(r[j], r[i]) by {
            if j == u.len() {
                assert(r[i] == u[i]);
            } else {
                assert(r[i] == u[i] && r[j] == u[j]);
            }
        }
        assert(s =~= t.push(s.last()));
        assert(s.to_multiset() == t.to_multiset().insert(s.last()));
    }
}

/// A stable sort by a key order yields a sorted rearrangement of its input.
pub proof fn lemma_stable_sorted_is_sorted_permutation<T>(s: Seq<T>, lt: spec_fn(T, T) -> bool)
    requires
        not_before_transitive(lt),
    ensures
        is_sorted_by(stable_sorted(s, lt), lt),
        stable_sorted(s, lt).to_multiset() == s.to_multiset(),
        stable_sorted(s, lt).len() == s.len(),
    decreases s.len(),
{
    broadcast use vstd::seq_lib::group_to_multiset_ensures;
    if s.len() > 0 {
        lemma_stable_sorted_is_sorted_permutation(s.drop_last(), lt);
        lemma_insert_sorted(stable_sorted(s.drop_last(), lt), s.last(), lt);
        assert(s =~= s.drop_last().push(s.last()));
        assert(s.to_multiset() == s.drop_last().to_multiset().insert(s.last()));
        assert(stable_sorted(s, lt).to_multiset().len() == stable_sorted(s, lt).len());
        assert(s.to_multiset().len() == s.len());
    } else {
        assert(s.to_multiset() =~= vstd::multiset::Multiset::empty());
    }
}

proof fn lemma_insert_map<T, U>(
    s: Seq<T>,
    x: T,
    f: spec_fn(T) -> U,
    lt_t: spec_fn(T, T) -> bool,
    lt_u: spec_fn(U, U) -> bool,
)
    requires
        forall|a: T, b: T| #[trigger] lt_t(a, b) == lt_u(f(a), f(b)),
    ensures
        insert_from_back(s, x, lt_t).map_values(f) == insert_from_back(s.map_values(f), f(x), lt_u),
    decreases s.len(),
{
    if s.len() > 0 {
        assert(s.map_values(f).drop_last() =~= s.drop_last().map_values(f));
        assert(s.map_values(f).last() == f(s.last()));
        assert(lt_t(x, s.last()) == lt_u(f(x), f(s.last())));
        if lt_t(x, s.last()) {
            lemma_insert_map(s.drop_last(), x, f, lt_t, lt_u);
            let t = insert_from_back(s.drop_last(), x, lt_t);
            assert(t.push(s.last()).map_values(f) =~= t.map_values(f).push(f(s.last())));
        } else {
            assert(s.push(x).map_values(f) =~= s.map_values(f).push(f(x)));
        }
    } else {
        assert(s.push(x).map_values(f) =~= s.map_values(f).push(f(x)));
    }
}

/// Sorting and then taking a view of each element gives the same as taking the views and
/// sorting them by the order the element order is read through.
pub proof fn lemma_stable_sorted_map<T, U>(
    s: Seq<T>,
    f: spec_fn(T) -> U,
    lt_t: spec_fn(T, T) -> bool,
    lt_u: spec_fn(U, U) -> bool,
)
    requires
        forall|a: T, b: T| #[trigger] lt_t(a, b) == lt_u(f(a), f(b)),
    ensures
        stable_sorted(s, lt_t).map_values(f) == stable_sorted(s.map_values(f), lt_u),
    decreases s.len(),
{
    if s.len() > 0 {
        lemma_stable_sorted_map(s.drop_last(), f, lt_t, lt_u);
        assert(s.map_values(f).drop_last() =~= s.drop_last().map_values(f));
        lemma_insert_map(stable_sorted(s.drop_last(), lt_t), s.last(), f, lt_t, lt_u);
    } else {
        assert(stable_sorted(s, lt_t).map_values(f) =~= Seq::<U>::empty());
    }
}

} // verus!
