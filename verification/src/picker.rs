//! The option lists of the category pickers: the distinct categories (or subcategories) on
//! offer, in text order.
use crate::model::{CategoryInfo, TransactionType};
use crate::text::{
    chars_of, contains_spec, copy_str, eq_ignore_ascii_case_spec, lemma_text_lt_total, text_contains,
    text_eq, text_eq_ignore_ascii_case, text_less, text_lt, to_lowercase, trim, trim_spec,
    unicode_lowercase,
};
use vstd::prelude::*;

verus! {

/// The texts of a list of strings.
pub open spec fn texts(v: Seq<String>) -> Seq<Seq<char>> {
    v.map_values(|s: String| s@)
}

/// Strictly increasing in text order, so also without repeats.
pub open spec fn strictly_sorted(s: Seq<Seq<char>>) -> bool {
    forall|a: int, b: int| 0 <= a < b < s.len() ==> text_lt(s[a], s[b])
}

/// Inserts `x` into a strictly sorted list of texts, unless it is already there.
fn insert_sorted_text(v: &mut Vec<String>, x: String)
    requires
        strictly_sorted(texts(old(v)@)),
    ensures
        strictly_sorted(texts(final(v)@)),
        forall|t: Seq<char>| texts(final(v)@).contains(t) <==> (texts(old(v)@).contains(t) || t == x@),
{
    let ghost old_t = texts(v@);
    let mut j: usize = 0;
    while j < v.len() && text_less(v[j].as_str(), x.as_str())
        invariant
            j <= v@.len(),
            texts(v@) == old_t,
            strictly_sorted(old_t),
            forall|a: int| 0 <= a < j ==> text_lt(old_t[a], x@),
        decreases v@.len() - j,
    {
        j = j + 1;
    }
    if j < v.len() && text_eq(v[j].as_str(), x.as_str()) {
        proof {
            assert(old_t[j as int] == x@);
        }
        return;
    }
    proof {
        if j < old_t.len() {
            lemma_text_lt_total(x@, old_t[j as int], x@);
        }
    }
    let ghost xv = x@;
    v.insert(j, x);
    proof {
        let new_t = texts(v@);
        assert(new_t =~= old_t.insert(j as int, xv));
        let ji = j as int;
        assert forall|a: int, b: int| 0 <= a < b < new_t.len() implies text_lt(new_t[a], new_t[b]) by {
            if b < ji {
                assert(new_t[a] == old_t[a] && new_t[b] == old_t[b]);
            } else if b == ji {
                assert(new_t[a] == old_t[a]);
            } else if a < ji {
                assert(new_t[a] == old_t[a] && new_t[b] == old_t[b - 1]);
                lemma_text_lt_total(old_t[a], xv, old_t[ji]);
                lemma_text_lt_total(old_t[a], old_t[ji], old_t[b - 1]);
                if ji < b - 1 {
                    assert(text_lt(old_t[ji], old_t[b - 1]));
                }
            } else if a == ji {
                assert(new_t[b] == old_t[b - 1]);
                lemma_text_lt_total(xv, old_t[ji], old_t[b - 1]);
                if ji < b - 1 {
                    assert(text_lt(old_t[ji], old_t[b - 1]));
                }
            } else {
                assert(new_t[a] == old_t[a - 1] && new_t[b] == old_t[b - 1]);
            }
        }
        assert forall|t: Seq<char>| new_t.contains(t) <==> (old_t.contains(t) || t == xv) by {
            if new_t.contains(t) {
                let w = choose|w: int| 0 <= w < new_t.len() && new_t[w] == t;
                if w < j {
                    assert(old_t[w] == t);
                } else if w > j {
                    assert(old_t[w - 1] == t);
                }
            }
            if old_t.contains(t) {
                let w = choose|w: int| 0 <= w < old_t.len() && old_t[w] == t;
                if w < j {
                    assert(new_t[w] == t);
                } else {
                    assert(new_t[w + 1] == t);
                }
            }
            if t == xv {
                assert(new_t[j as int] == xv);
            }
        }
    }
}

/// The text a catalog row offers to a picker, if it passes the picker's filters: an optional
/// transaction type, an optional category (compared ignoring ASCII case), and whether the
/// picker lists subcategories (non-empty ones only) or categories.
pub open spec fn offered(
    c: CategoryInfo,
    type_filter: Option<TransactionType>,
    category_filter: Option<Seq<char>>,
    subcategories: bool,
) -> Option<Seq<char>> {
    if type_filter matches Some(t) && c.transaction_type != t {
        None
    } else if category_filter matches Some(q) && !eq_ignore_ascii_case_spec(c.category@, q) {
        None
    } else if subcategories {
        if c.subcategory@.len() == 0 {
            None
        } else {
            Some(c.subcategory@)
        }
    } else {
        Some(c.category@)
    }
}

/// The list holds, in text order and once each, exactly the texts the rows offer.
pub open spec fn lists_offered(
    r: Seq<String>,
    categories: Seq<CategoryInfo>,
    type_filter: Option<TransactionType>,
    category_filter: Option<Seq<char>>,
    subcategories: bool,
) -> bool {
    &&& strictly_sorted(texts(r))
    &&& forall|t: Seq<char>|
        texts(r).contains(t) <==> exists|i: int|
            0 <= i < categories.len() && offered(
                #[trigger] categories[i],
                type_filter,
                category_filter,
                subcategories,
            ) == Some(t)
}

fn collect_offered(
    categories: &[CategoryInfo],
    type_filter: Option<TransactionType>,
    category_filter: Option<&str>,
    subcategories: bool,
) -> (r: Vec<String>)
    ensures
        lists_offered(
            r@,
            categories@,
            type_filter,
            match category_filter {
                Some(q) => Some(q@),
                None => None,
            },
            subcategories,
        ),
{
    let ghost cf = match category_filter {
        Some(q) => Some(q@),
        None => None::<Seq<char>>,
    };
    let mut out: Vec<String> = Vec::new();
    let mut i: usize = 0;
    while i < categories.len()
        invariant
            i <= categories@.len(),
            cf == (match category_filter {
                Some(q) => Some(q@),
                None => None::<Seq<char>>,
            }),
            strictly_sorted(texts(out@)),
            forall|t: Seq<char>|
                texts(out@).contains(t) <==> exists|k: int|
                    0 <= k < i && offered(#[trigger] categories@[k], type_filter, cf, subcategories)
                        == Some(t),
        decreases categories@.len() - i,
    {
        let c = &categories[i];
        let type_ok = match type_filter {
            Some(t) => c.transaction_type == t,
            None => true,
        };
        let category_ok = match category_filter {
            Some(q) => text_eq_ignore_ascii_case(c.category.as_str(), q),
            None => true,
        };
        let ghost before = texts(out@);
        if type_ok && category_ok {
            if subcategories {
                if c.subcategory.as_str().unicode_len() > 0 {
                    insert_sorted_text(&mut out, c.subcategory.clone());
                }
            } else {
                insert_sorted_text(&mut out, c.category.clone());
            }
        }
        proof {
            let o = offered(categories@[i as int], type_filter, cf, subcategories);
            assert forall|t: Seq<char>|
                texts(out@).contains(t) <==> exists|k: int|
                    0 <= k < i + 1 && offered(#[trigger] categories@[k], type_filter, cf, subcategories)
                        == Some(t) by {
                if texts(out@).contains(t) {
                    if before.contains(t) {
                        let k = choose|k: int|
                            0 <= k < i && offered(#[trigger] categories@[k], type_filter, cf, subcategories)
                                == Some(t);
                    } else {
                        assert(o == Some(t));
                    }
                }
                if exists|k: int|
                    0 <= k < i + 1 && offered(#[trigger] categories@[k], type_filter, cf, subcategories)
                        == Some(t) {
                    let k = choose|k: int|
                        0 <= k < i + 1 && offered(#[trigger] categories@[k], type_filter, cf, subcategories)
                            == Some(t);
                    if k == i {
                        assert(o == Some(t));
                    }
                }
            }
        }
        i = i + 1;
    }
    out
}

/// The categories the category picker offers for a transaction type.
pub fn category_options(categories: &[CategoryInfo], transaction_type: TransactionType) -> (r: Vec<
    String,
>)
    ensures
        lists_offered(r@, categories@, Some(transaction_type), None, false),
{
    collect_offered(categories, Some(transaction_type), None, false)
}

/// The first option of a subcategory picker, which clears the subcategory.
pub open spec fn no_subcategory() -> Seq<char> {
    "(None)"@
}

/// The subcategory picker of the transaction form: for a blank or "Uncategorized" category
/// only "(None)"; otherwise "(None)" and then the subcategories of that category (matched
/// ignoring ASCII case) for the transaction type.
pub fn subcategory_options(
    categories: &[CategoryInfo],
    transaction_type: TransactionType,
    current_category: &str,
) -> (r: Vec<String>)
    ensures
        r@.len() >= 1,
        r@[0]@ == no_subcategory(),
        ({
            let c = trim_spec(current_category@);
            if c.len() == 0 || eq_ignore_ascii_case_spec(c, "Uncategorized"@) {
                r@.len() == 1
            } else {
                lists_offered(r@.drop_first(), categories@, Some(transaction_type), Some(c), true)
            }
        }),
{
    let c = trim(current_category);
    let none = copy_str("(None)");
    if c.as_str().unicode_len() == 0 || text_eq_ignore_ascii_case(c.as_str(), "Uncategorized") {
        return vec![none];
    }
    let subs = collect_offered(categories, Some(transaction_type), Some(c.as_str()), true);
    let mut out = vec![none];
    let ghost tail = subs@;
    let mut subs = subs;
    out.append(&mut subs);
    proof {
        assert(out@.drop_first() =~= tail);
    }
    out
}

/// The categories the advanced filter's picker offers: every category of any type.
pub fn filter_category_options(categories: &[CategoryInfo]) -> (r: Vec<String>)
    ensures
        lists_offered(r@, categories@, None, None, false),
{
    collect_offered(categories, None, None, false)
}

/// The advanced filter's subcategory picker: "(None)" and then the subcategories of the
/// filtered category (matched ignoring ASCII case), or of every category when it is blank.
pub fn filter_subcategory_options(categories: &[CategoryInfo], current_category: &str) -> (r: Vec<
    String,
>)
    ensures
        r@.len() >= 1,
        r@[0]@ == no_subcategory(),
        ({
            let c = trim_spec(current_category@);
            lists_offered(
                r@.drop_first(),
                categories@,
                None,
                if c.len() == 0 {
                    None
                } else {
                    Some(c)
                },
                true,
            )
        }),
{
    let c = trim(current_category);
    let subs = if c.as_str().unicode_len() == 0 {
        collect_offered(categories, None, None, true)
    } else {
        collect_offered(categories, None, Some(c.as_str()), true)
    };
    let mut out = vec![copy_str("(None)")];
    let ghost tail = subs@;
    let mut subs = subs;
    out.append(&mut subs);
    proof {
        assert(out@.drop_first() =~= tail);
    }
    out
}

/// How the fuzzy finder lists a category: "Category > Subcategory", or the category alone
/// when it has no subcategory.
pub open spec fn fuzzy_label(c: CategoryInfo) -> Seq<char> {
    if c.subcategory@.len() == 0 {
        c.category@
    } else {
        c.category@ + " > "@ + c.subcategory@
    }
}

/// The finder shows a label when the lower-cased query is empty or occurs in the lower-cased
/// label.
pub open spec fn fuzzy_match(label: Seq<char>, query: Seq<char>) -> bool {
    let q = unicode_lowercase(query);
    q.len() == 0 || contains_spec(unicode_lowercase(label), q)
}

fn label_of(c: &CategoryInfo) -> (r: String)
    ensures
        r@ == fuzzy_label(*c),
{
    if c.subcategory.as_str().unicode_len() == 0 {
        copy_str(c.category.as_str())
    } else {
        let mut s = copy_str(c.category.as_str());
        s.append(" > ");
        s.append(c.subcategory.as_str());
        s
    }
}

/// The fuzzy finder's list: the labels of the categories of the type that match the query,
/// each once, in text order.
pub fn fuzzy_options(categories: &[CategoryInfo], transaction_type: TransactionType, query: &str) -> (r:
    Vec<String>)
    ensures
        strictly_sorted(texts(r@)),
        forall|t: Seq<char>|
            texts(r@).contains(t) <==> exists|i: int|
                0 <= i < categories@.len() && #[trigger] categories@[i].transaction_type
                    == transaction_type && fuzzy_label(categories@[i]) == t && fuzzy_match(t, query@),
{
    let q = to_lowercase(query);
    let mut out: Vec<String> = Vec::new();
    let mut i: usize = 0;
    while i < categories.len()
        invariant
            i <= categories@.len(),
            q@ == unicode_lowercase(query@),
            strictly_sorted(texts(out@)),
            forall|t: Seq<char>|
                texts(out@).contains(t) <==> exists|k: int|
                    0 <= k < i && #[trigger] categories@[k].transaction_type == transaction_type
                        && fuzzy_label(categories@[k]) == t && fuzzy_match(t, query@),
        decreases categories@.len() - i,
    {
        let c = &categories[i];
        if c.transaction_type == transaction_type {
            let label = label_of(c);
            let lower = to_lowercase(label.as_str());
            if q.as_str().unicode_len() == 0 || text_contains(lower.as_str(), q.as_str()) {
                insert_sorted_text(&mut out, label);
            }
        }
        proof {
            assert forall|t: Seq<char>|
                texts(out@).contains(t) <==> exists|k: int|
                    0 <= k < i + 1 && #[trigger] categories@[k].transaction_type == transaction_type
                        && fuzzy_label(categories@[k]) == t && fuzzy_match(t, query@) by {
                if categories@[i as int].transaction_type == transaction_type && fuzzy_label(
                    categories@[i as int],
                ) == t && fuzzy_match(t, query@) {
                    assert(texts(out@).contains(t));
                }
            }
        }
        i = i + 1;
    }
    out
}

/// `p` occurs in `s` at position `i`.
pub open spec fn occurs_at(s: Seq<char>, p: Seq<char>, i: int) -> bool {
    0 <= i && i + p.len() <= s.len() && s.subrange(i, i + p.len()) == p
}

/// The first position at or after `from` where `p` occurs in `s`.
pub open spec fn first_occurrence(s: Seq<char>, p: Seq<char>, from: int) -> Option<int>
    decreases s.len() + 1 - from,
{
    if from < 0 || from + p.len() > s.len() {
        None
    } else if occurs_at(s, p, from) {
        Some(from)
    } else {
        first_occurrence(s, p, from + 1)
    }
}

/// The category and subcategory a finder label names: the text before the first " > ", and
/// the text after it up to the next " > " (empty when the label has none).
pub open spec fn label_parts(label: Seq<char>) -> (Seq<char>, Seq<char>) {
    match first_occurrence(label, " > "@, 0) {
        None => (label, Seq::empty()),
        Some(i) => (label.subrange(0, i), match first_occurrence(label, " > "@, i + 3) {
            None => label.subrange(i + 3, label.len() as int),
            Some(j) => label.subrange(i + 3, j),
        }),
    }
}

proof fn lemma_sep_len()
    ensures
        " > "@.len() == 3,
        " > "@ == seq![' ', '>', ' '],
{
    reveal_strlit(" > ");
}

/// The first occurrence of " > " in `s` at or after `from`.
fn find_separator(s: &Vec<char>, from: usize) -> (r: Option<usize>)
    requires
        from <= s@.len(),
    ensures
        match r {
            Some(i) => first_occurrence(s@, " > "@, from as int) == Some(i as int) && from <= i
                && i + 3 <= s@.len(),
            None => first_occurrence(s@, " > "@, from as int) is None,
        },
{
    proof {
        lemma_sep_len();
    }
    let n = s.len();
    let mut i = from;
    while i < n && n - i >= 3
        invariant
            from <= i <= n,
            n == s@.len(),
            " > "@ == seq![' ', '>', ' '],
            first_occurrence(s@, " > "@, from as int) == first_occurrence(s@, " > "@, i as int),
        decreases n - i,
    {
        if s[i] == ' ' && s[i + 1] == '>' && s[i + 2] == ' ' {
            proof {
                assert(s@.subrange(i as int, i + 3) =~= seq![' ', '>', ' ']);
            }
            return Some(i);
        }
        proof {
            if s@.subrange(i as int, i + 3) == seq![' ', '>', ' '] {
                assert(s@.subrange(i as int, i + 3)[0] == s@[i as int]);
                assert(s@.subrange(i as int, i + 3)[1] == s@[i + 1]);
                assert(s@.subrange(i as int, i + 3)[2] == s@[i + 2]);
            }
        }
        i = i + 1;
    }
    None
}

/// The category and subcategory a finder label names.
pub fn split_fuzzy_label(label: &str) -> (r: (String, String))
    ensures
        (r.0@, r.1@) == label_parts(label@),
{
    proof {
        lemma_sep_len();
    }
    let chars = chars_of(label);
    let n = chars.len();
    match find_separator(&chars, 0) {
        None => (copy_str(label), String::new()),
        Some(i) => {
            assert(i + 3 <= n);
            let category = chars_to_string(&chars, 0, i);
            let rest_end = match find_separator(&chars, i + 3) {
                None => chars.len(),
                Some(j) => j,
            };
            let subcategory = chars_to_string(&chars, i + 3, rest_end);
            (category, subcategory)
        },
    }
}

/// The text of `chars[from..to]`.
fn chars_to_string(chars: &Vec<char>, from: usize, to: usize) -> (r: String)
    requires
        from <= to <= chars@.len(),
    ensures
        r@ == chars@.subrange(from as int, to as int),
{
    let mut out = String::new();
    let mut k = from;
    while k < to
        invariant
            from <= k <= to,
            to <= chars@.len(),
            out@ == chars@.subrange(from as int, k as int),
        decreases to - k,
    {
        out.push(chars[k]);
        proof {
            assert(chars@.subrange(from as int, k + 1) =~= chars@.subrange(from as int, k as int).push(
                chars@[k as int],
            ));
        }
        k = k + 1;
    }
    out
}

proof fn lemma_first_occurrence_none(s: Seq<char>, from: int)
    requires
        0 <= from,
        forall|k: int| from <= k && k + 3 <= s.len() ==> !occurs_at(s, " > "@, k),
    ensures
        first_occurrence(s, " > "@, from) is None,
    decreases s.len() + 1 - from,
{
    lemma_sep_len();
    if from + 3 <= s.len() {
        lemma_first_occurrence_none(s, from + 1);
    }
}

proof fn lemma_first_occurrence_at(s: Seq<char>, from: int, i: int)
    requires
        0 <= from <= i,
        occurs_at(s, " > "@, i),
        forall|k: int| from <= k < i ==> !occurs_at(s, " > "@, k),
    ensures
        first_occurrence(s, " > "@, from) == Some(i),
    decreases i - from,
{
    lemma_sep_len();
    if from < i {
        lemma_first_occurrence_at(s, from + 1, i);
    }
}

/// No " > " starts at `k` when the character after `k` is not '>'.
proof fn lemma_no_separator_at(s: Seq<char>, k: int)
    requires
        0 <= k,
        k + 3 <= s.len(),
        s[k + 1] != '>',
    ensures
        !occurs_at(s, " > "@, k),
{
    lemma_sep_len();
    if occurs_at(s, " > "@, k) {
        assert(s.subrange(k, k + 3)[1] == s[k + 1]);
    }
}

/// A label the finder lists names its category and subcategory again, when neither contains
/// '>'.
pub proof fn lemma_fuzzy_label_round_trip(c: CategoryInfo)
    requires
        !c.category@.contains('>'),
        !c.subcategory@.contains('>'),
    ensures
        label_parts(fuzzy_label(c)) == (c.category@, c.subcategory@),
{
    lemma_sep_len();
    let cat = c.category@;
    let sub = c.subcategory@;
    let s = fuzzy_label(c);
    if sub.len() == 0 {
        assert forall|k: int| 0 <= k && k + 3 <= s.len() implies !occurs_at(s, " > "@, k) by {
            if s[k + 1] == '>' {
                assert(cat[k + 1] == '>');
                assert(cat.contains('>'));
            }
            lemma_no_separator_at(s, k);
        }
        lemma_first_occurrence_none(s, 0);
        assert(sub =~= Seq::<char>::empty());
    } else {
        let n = cat.len() as int;
        assert(s =~= cat + seq![' ', '>', ' '] + sub);
        assert forall|k: int| 0 <= k < n implies !occurs_at(s, " > "@, k) by {
            if k + 1 < n {
                if s[k + 1] == '>' {
                    assert(cat[k + 1] == '>');
                    assert(cat.contains('>'));
                }
            }
            lemma_no_separator_at(s, k);
        }
        assert(s.subrange(n, n + 3) =~= seq![' ', '>', ' ']);
        lemma_first_occurrence_at(s, 0, n);
        assert forall|k: int| n + 3 <= k && k + 3 <= s.len() implies !occurs_at(s, " > "@, k) by {
            if s[k + 1] == '>' {
                assert(sub[k + 1 - n - 3] == '>');
                assert(sub.contains('>'));
            }
            lemma_no_separator_at(s, k);
        }
        lemma_first_occurrence_none(s, n + 3);
        assert(s.subrange(0, n) =~= cat);
        assert(s.subrange(n + 3, s.len() as int) =~= sub);
    }
}

} // verus!
