//! The category catalog: filtering its rows, the editor's fields, reading a draft back from
//! them, and the rule against names that differ only in case.
use crate::fields::{CategoryEditField, FieldKey, FieldSet};
use crate::model::{
    parse_transaction_type_spec, transaction_type_text, CategoryDraft, CategoryRecord,
    TransactionType,
};
use crate::money::{amount_wf, decimal_text_2dp, format_2dp, Amount};
use crate::text::{
    contains_spec, copy_str, eq_ignore_ascii_case_spec, text_contains, text_eq_ignore_ascii_case,
    to_lowercase, trim, trim_spec, unicode_lowercase,
};
use vstd::prelude::*;

verus! {

/// The catalog filter shows a row when the query is empty or, in lower case, its category,
/// subcategory, tag or transaction type contains the query.
pub open spec fn catalog_match(query: Seq<char>, r: CategoryRecord) -> bool {
    let q = unicode_lowercase(query);
    ||| q.len() == 0
    ||| contains_spec(unicode_lowercase(r.category@), q)
    ||| contains_spec(unicode_lowercase(r.subcategory@), q)
    ||| (r.tag matches Some(t) && contains_spec(unicode_lowercase(t@), q))
    ||| contains_spec(unicode_lowercase(transaction_type_text(r.transaction_type)), q)
}

/// The positions, in increasing order, of the records `keep` accepts.
pub open spec fn matching_records(rs: Seq<CategoryRecord>, keep: spec_fn(CategoryRecord) -> bool) -> Seq<
    usize,
>
    decreases rs.len(),
{
    if rs.len() == 0 {
        Seq::empty()
    } else {
        let before = matching_records(rs.drop_last(), keep);
        if keep(rs.last()) {
            before.push((rs.len() - 1) as usize)
        } else {
            before
        }
    }
}

fn lower_contains(text: &str, q: &String) -> (r: bool)
    ensures
        r == contains_spec(unicode_lowercase(text@), q@),
{
    let t = to_lowercase(text);
    text_contains(t.as_str(), q.as_str())
}

/// The positions of the catalog rows the filter `query` shows.
pub fn category_filter_indices(records: &[CategoryRecord], query: &str) -> (r: Vec<usize>)
    ensures
        r@ == matching_records(records@, |c: CategoryRecord| catalog_match(query@, c)),
{
    let ghost keep = |c: CategoryRecord| catalog_match(query@, c);
    let q = to_lowercase(query);
    let mut out: Vec<usize> = Vec::new();
    let mut i: usize = 0;
    while i < records.len()
        invariant
            i <= records@.len(),
            q@ == unicode_lowercase(query@),
            keep == (|c: CategoryRecord| catalog_match(query@, c)),
            out@ == matching_records(records@.take(i as int), keep),
        decreases records@.len() - i,
    {
        proof {
            assert(records@.take(i + 1).drop_last() =~= records@.take(i as int));
        }
        let r = &records[i];
        let tag_match = match &r.tag {
            Some(t) => lower_contains(t.as_str(), &q),
            None => false,
        };
        let shown = q.as_str().unicode_len() == 0 || lower_contains(r.category.as_str(), &q)
            || lower_contains(r.subcategory.as_str(), &q) || tag_match || lower_contains(
            r.transaction_type.as_str(),
            &q,
        );
        if shown {
            out.push(i);
        }
        i = i + 1;
    }
    proof {
        assert(records@.take(records@.len() as int) =~= records@);
    }
    out
}

/// Why the category editor's fields do not make a category.
#[derive(Debug, Clone, Copy, PartialEq, Eq, Structural)]
pub enum CategoryDraftError {
    InvalidType,
    EmptyCategory,
}

impl CategoryDraftError {
    pub fn message(&self) -> (r: &'static str)
        ensures
            r@ == (match *self {
                CategoryDraftError::InvalidType => "Transaction type must be Income or Expense."@,
                CategoryDraftError::EmptyCategory => "Category cannot be empty."@,
            }),
    {
        match self {
            CategoryDraftError::InvalidType => "Transaction type must be Income or Expense.",
            CategoryDraftError::EmptyCategory => "Category cannot be empty.",
        }
    }
}

/// The text of the editor field `f`.
pub open spec fn field_text(fields: Seq<String>, f: CategoryEditField) -> Seq<char> {
    fields[f.position() as int]@
}

/// The category the editor's fields describe: the type read from its (trimmed) text, and the
/// trimmed category, subcategory and tag (none when blank). The budget field is not part of it.
pub open spec fn category_draft_spec(fields: Seq<String>) -> Result<
    (TransactionType, Seq<char>, Seq<char>, Option<Seq<char>>),
    CategoryDraftError,
> {
    match parse_transaction_type_spec(trim_spec(field_text(fields, CategoryEditField::TransactionType))) {
        None => Err(CategoryDraftError::InvalidType),
        Some(t) => {
            let category = trim_spec(field_text(fields, CategoryEditField::Category));
            let subcategory = trim_spec(field_text(fields, CategoryEditField::Subcategory));
            let tag = trim_spec(field_text(fields, CategoryEditField::Tag));
            if category.len() == 0 {
                Err(CategoryDraftError::EmptyCategory)
            } else {
                Ok((t, category, subcategory, if tag.len() == 0 { None } else { Some(tag) }))
            }
        },
    }
}

pub open spec fn draft_view(d: CategoryDraft) -> (TransactionType, Seq<char>, Seq<char>, Option<Seq<char>>) {
    (d.transaction_type, d.category@, d.subcategory@, match d.tag {
        Some(t) => Some(t@),
        None => None,
    })
}

/// Reads the category editor's fields back into a draft.
pub fn build_category_draft(fields: &FieldSet<CategoryEditField>) -> (r: Result<
    CategoryDraft,
    CategoryDraftError,
>)
    ensures
        match (r, category_draft_spec(fields.texts())) {
            (Ok(d), Ok(v)) => draft_view(d) == v,
            (Err(a), Err(b)) => a == b,
            _ => false,
        },
{
    let type_text = trim(fields.value(CategoryEditField::TransactionType).as_str());
    let transaction_type = match TransactionType::try_from_str(type_text.as_str()) {
        Ok(t) => t,
        Err(_) => {
            return Err(CategoryDraftError::InvalidType);
        },
    };
    let category = trim(fields.value(CategoryEditField::Category).as_str());
    let subcategory = trim(fields.value(CategoryEditField::Subcategory).as_str());
    let tag = trim(fields.value(CategoryEditField::Tag).as_str());
    if category.as_str().unicode_len() == 0 {
        return Err(CategoryDraftError::EmptyCategory);
    }
    let tag = if tag.as_str().unicode_len() == 0 {
        None
    } else {
        Some(tag)
    };
    Ok(CategoryDraft { transaction_type, category, subcategory, tag })
}

/// Another record (not the one being edited) already has the draft's type, category and
/// subcategory, ignoring ASCII case.
pub open spec fn duplicate_spec(
    records: Seq<CategoryRecord>,
    editing: Option<i64>,
    t: TransactionType,
    category: Seq<char>,
    subcategory: Seq<char>,
) -> bool {
    exists|i: int|
        0 <= i < records.len() && Some(#[trigger] records[i].id) != editing && records[i].transaction_type == t
            && eq_ignore_ascii_case_spec(records[i].category@, category) && eq_ignore_ascii_case_spec(
            records[i].subcategory@,
            subcategory,
        )
}

/// Whether saving the draft would create a second category differing only in case.
pub fn is_duplicate_category(records: &[CategoryRecord], editing: Option<i64>, draft: &CategoryDraft) -> (r:
    bool)
    ensures
        r == duplicate_spec(
            records@,
            editing,
            draft.transaction_type,
            draft.category@,
            draft.subcategory@,
        ),
{
    let mut i: usize = 0;
    while i < records.len()
        invariant
            i <= records@.len(),
            forall|j: int|
                0 <= j < i ==> !(Some(#[trigger] records@[j].id) != editing
                    && records@[j].transaction_type == draft.transaction_type
                    && eq_ignore_ascii_case_spec(records@[j].category@, draft.category@)
                    && eq_ignore_ascii_case_spec(records@[j].subcategory@, draft.subcategory@)),
        decreases records@.len() - i,
    {
        let r = &records[i];
        let other = match editing {
            Some(id) => r.id != id,
            None => true,
        };
        if other && r.transaction_type == draft.transaction_type && text_eq_ignore_ascii_case(
            r.category.as_str(),
            draft.category.as_str(),
        ) && text_eq_ignore_ascii_case(r.subcategory.as_str(), draft.subcategory.as_str()) {
            assert(Some(records@[i as int].id) != editing);
            return true;
        }
        i = i + 1;
    }
    false
}

/// The prompt before a category is deleted.
pub open spec fn delete_category_prompt_text(category: Seq<char>, subcategory: Seq<char>) -> Seq<char> {
    "Delete "@ + category + " / "@ + (if subcategory.len() == 0 {
        "(No subcategory)"@
    } else {
        subcategory
    }) + "? Press y to confirm."@
}

pub fn delete_category_prompt(record: &CategoryRecord) -> (r: String)
    ensures
        r@ == delete_category_prompt_text(record.category@, record.subcategory@),
{
    let mut s = copy_str("Delete ");
    s.append(record.category.as_str());
    s.append(" / ");
    if record.subcategory.as_str().unicode_len() == 0 {
        s.append("(No subcategory)");
    } else {
        s.append(record.subcategory.as_str());
    }
    s.append("? Press y to confirm.");
    s
}

/// The type field after the toggle key: Income unless it already reads "income" (in any ASCII
/// case), in which case Expense.
pub fn toggled_type_text(current: &str) -> (r: &'static str)
    ensures
        r@ == (if eq_ignore_ascii_case_spec(current@, "income"@) {
            "Expense"@
        } else {
            "Income"@
        }),
{
    if text_eq_ignore_ascii_case(current, "income") {
        TransactionType::Expense.as_str()
    } else {
        TransactionType::Income.as_str()
    }
}

/// The budget field's text: the amount with two decimals, or "Not set".
pub open spec fn budget_field_text(budget: Option<Amount>) -> Seq<char> {
    match budget {
        Some(a) => decimal_text_2dp(a),
        None => "Not set"@,
    }
}

/// The editor's fields for a category: type, category, subcategory, tag (blank when none) and
/// the budget now in force (shown for reference).
pub fn category_editor_fields(
    transaction_type: TransactionType,
    category: String,
    subcategory: String,
    tag: Option<String>,
    budget: Option<Amount>,
) -> (r: FieldSet<CategoryEditField>)
    requires
        budget matches Some(a) ==> amount_wf(a),
    ensures
        r.focus_position() == 0,
        r.texts().len() == 5,
        r.texts()[0]@ == transaction_type_text(transaction_type),
        r.texts()[1] == category,
        r.texts()[2] == subcategory,
        r.texts()[3]@ == (match tag {
            Some(t) => t@,
            None => Seq::<char>::empty(),
        }),
        r.texts()[4]@ == budget_field_text(budget),
{
    let budget_text = match budget {
        Some(a) => format_2dp(a),
        None => copy_str("Not set"),
    };
    let tag_text = match tag {
        Some(t) => t,
        None => String::new(),
    };
    let values = vec![
        copy_str(transaction_type.as_str()),
        category,
        subcategory,
        tag_text,
        budget_text,
    ];
    FieldSet::new(values)
}

} // verus!
