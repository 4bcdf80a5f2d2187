//! The add/edit transaction form: the texts it opens with, and the checks that turn its
//! texts into a transaction (amount, then date, then description, then category).
use crate::calendar::{chrono_iso_text, chrono_parse_date, format_iso_date, parse_date, valid_date, Date};
use crate::fields::{AddEditField, FieldKey, FieldSet};
use crate::model::{
    transaction_type_text, CategoryInfo, Transaction, TransactionType, DATE_FORMAT,
};
use crate::money::{
    amount_less, amount_wf, decimal_parse, decimal_text_2dp, format_2dp, less_than, parse_amount,
    zero, zero_amount, Amount,
};
use crate::text::{
    copy_str, eq_ignore_ascii_case_spec, text_eq, text_eq_ignore_ascii_case, to_lowercase, trim,
    trim_spec, unicode_lowercase,
};
use vstd::prelude::*;

verus! {

/// Why the form's texts do not make a transaction.
#[derive(Debug, Clone, Copy, PartialEq, Eq, Structural)]
pub enum FormError {
    /// The amount is not a number.
    InvalidAmount,
    /// The amount is zero or negative.
    NonPositiveAmount,
    /// The date does not read as `%Y-%m-%d`.
    InvalidDate,
    EmptyDescription,
    /// No category of the transaction's type has this category and subcategory.
    InvalidCategory,
}

/// The type the form's type text names: income when, trimmed and lower-cased, it starts with
/// `i`; expense otherwise.
pub open spec fn form_type(text: Seq<char>) -> TransactionType {
    let t = unicode_lowercase(trim_spec(text));
    if t.len() > 0 && t[0] == 'i' {
        TransactionType::Income
    } else {
        TransactionType::Expense
    }
}

/// A category may be left empty or "Uncategorized" (in any ASCII case); otherwise some known
/// category of the type must match it (ignoring case), with the same subcategory or with none.
pub open spec fn category_valid(
    categories: Seq<CategoryInfo>,
    transaction_type: TransactionType,
    category: Seq<char>,
    subcategory: Seq<char>,
) -> bool {
    ||| category.len() == 0
    ||| eq_ignore_ascii_case_spec(category, "Uncategorized"@)
    ||| exists|i: int|
        0 <= i < categories.len() && #[trigger] categories[i].transaction_type == transaction_type
            && unicode_lowercase(categories[i].category@) == unicode_lowercase(category) && (
        unicode_lowercase(categories[i].subcategory@) == unicode_lowercase(subcategory)
            || categories[i].subcategory@.len() == 0)
}

/// The amount a text holds: a number, and above zero.
pub open spec fn amount_check(text: Seq<char>) -> Result<Amount, FormError> {
    match decimal_parse(text) {
        None => Err(FormError::InvalidAmount),
        Some(a) => if amount_less(zero_amount(), a) {
            Ok(a)
        } else {
            Err(FormError::NonPositiveAmount)
        },
    }
}

/// The date and amount the form's texts (date, description, amount, type, category,
/// subcategory) give, or the first check that fails.
pub open spec fn form_check(texts: Seq<String>, categories: Seq<CategoryInfo>) -> Result<
    (Date, Amount),
    FormError,
> {
    match amount_check(trim_spec(texts[2]@)) {
        Err(e) => Err(e),
        Ok(a) => match chrono_parse_date(texts[0]@, DATE_FORMAT@) {
            None => Err(FormError::InvalidDate),
            Some(d) => if trim_spec(texts[1]@).len() == 0 {
                Err(FormError::EmptyDescription)
            } else if !category_valid(
                categories,
                form_type(texts[3]@),
                trim_spec(texts[4]@),
                trim_spec(texts[5]@),
            ) {
                Err(FormError::InvalidCategory)
            } else {
                Ok((d, a))
            },
        },
    }
}

/// The transaction type the form's type text names.
pub fn type_from_text(text: &str) -> (r: TransactionType)
    ensures
        r == form_type(text@),
{
    let t = trim(text);
    let lower = to_lowercase(t.as_str());
    if lower.as_str().unicode_len() > 0 && lower.as_str().get_char(0) == 'i' {
        TransactionType::Income
    } else {
        TransactionType::Expense
    }
}

/// Whether the category and subcategory are allowed for a transaction of the type.
pub fn validate_category(
    categories: &[CategoryInfo],
    transaction_type: TransactionType,
    category: &str,
    subcategory: &str,
) -> (r: bool)
    ensures
        r == category_valid(categories@, transaction_type, category@, subcategory@),
{
    if category.unicode_len() == 0 || text_eq_ignore_ascii_case(category, "Uncategorized") {
        proof {
            reveal_strlit("Uncategorized");
        }
        return true;
    }
    proof {
        reveal_strlit("Uncategorized");
    }
    let category_lower = to_lowercase(category);
    let subcategory_lower = to_lowercase(subcategory);
    let mut i: usize = 0;
    while i < categories.len()
        invariant
            i <= categories@.len(),
            category_lower@ == unicode_lowercase(category@),
            subcategory_lower@ == unicode_lowercase(subcategory@),
            forall|j: int|
                0 <= j < i ==> !(#[trigger] categories@[j].transaction_type == transaction_type
                    && unicode_lowercase(categories@[j].category@) == unicode_lowercase(category@)
                    && (unicode_lowercase(categories@[j].subcategory@) == unicode_lowercase(
                    subcategory@,
                ) || categories@[j].subcategory@.len() == 0)),
        decreases categories@.len() - i,
    {
        let info = &categories[i];
        if info.transaction_type == transaction_type {
            let c = to_lowercase(info.category.as_str());
            if text_eq(c.as_str(), category_lower.as_str()) {
                let s = to_lowercase(info.subcategory.as_str());
                if text_eq(s.as_str(), subcategory_lower.as_str())
                    || info.subcategory.as_str().unicode_len() == 0 {
                    return true;
                }
            }
        }
        i = i + 1;
    }
    false
}

/// The amount a text holds, if it is a number above zero.
pub fn validate_amount_text(text: &str) -> (r: Result<Amount, FormError>)
    ensures
        r == amount_check(text@),
        r matches Ok(a) ==> amount_wf(a),
{
    match parse_amount(text) {
        None => Err(FormError::InvalidAmount),
        Some(a) => {
            let z = zero();
            if less_than(z, a) {
                Ok(a)
            } else {
                Err(FormError::NonPositiveAmount)
            }
        },
    }
}

/// Runs the form's checks in order.
fn check_form(fields: &FieldSet<AddEditField>, categories: &[CategoryInfo]) -> (r: Result<
    (Date, Amount),
    FormError,
>)
    ensures
        r == form_check(fields.texts(), categories@),
{
    proof {
        AddEditField::lemma_layout();
        reveal_strlit("%Y-%m-%d");
    }
    let amount_text = trim(fields.value(AddEditField::Amount).as_str());
    let amount = match validate_amount_text(amount_text.as_str()) {
        Ok(a) => a,
        Err(e) => {
            return Err(e);
        },
    };
    let date = match parse_date(fields.value(AddEditField::Date).as_str(), DATE_FORMAT) {
        Some(d) => d,
        None => {
            return Err(FormError::InvalidDate);
        },
    };
    let description = trim(fields.value(AddEditField::Description).as_str());
    if description.as_str().unicode_len() == 0 {
        return Err(FormError::EmptyDescription);
    }
    let transaction_type = type_from_text(fields.value(AddEditField::TransactionType).as_str());
    let category = trim(fields.value(AddEditField::Category).as_str());
    let subcategory = trim(fields.value(AddEditField::Subcategory).as_str());
    if !validate_category(categories, transaction_type, category.as_str(), subcategory.as_str()) {
        return Err(FormError::InvalidCategory);
    }
    Ok((date, amount))
}

/// A new transaction from the form: the checked date and amount, the trimmed description,
/// category and subcategory, the type the type text names, not recurring and not stored yet.
pub fn transaction_from_form(fields: &FieldSet<AddEditField>, categories: &[CategoryInfo]) -> (r:
    Result<Transaction, FormError>)
    ensures
        match (r, form_check(fields.texts(), categories@)) {
            (Ok(tx), Ok((d, a))) => {
                &&& tx.date == d
                &&& tx.amount == a
                &&& tx.description@ == trim_spec(fields.texts()[1]@)
                &&& tx.transaction_type == form_type(fields.texts()[3]@)
                &&& tx.category@ == trim_spec(fields.texts()[4]@)
                &&& tx.subcategory@ == trim_spec(fields.texts()[5]@)
                &&& !tx.is_recurring
                &&& tx.recurrence_frequency is None
                &&& tx.recurrence_end_date is None
                &&& !tx.is_generated_from_recurring
                &&& tx.id is None
                &&& tx.parent_id is None
            },
            (Err(e), Err(f)) => e == f,
            _ => false,
        },
{
    proof {
        AddEditField::lemma_layout();
    }
    match check_form(fields, categories) {
        Err(e) => Err(e),
        Ok((date, amount)) => Ok(
            Transaction {
                date,
                description: trim(fields.value(AddEditField::Description).as_str()),
                amount,
                transaction_type: type_from_text(
                    fields.value(AddEditField::TransactionType).as_str(),
                ),
                category: trim(fields.value(AddEditField::Category).as_str()),
                subcategory: trim(fields.value(AddEditField::Subcategory).as_str()),
                is_recurring: false,
                recurrence_frequency: None,
                recurrence_end_date: None,
                is_generated_from_recurring: false,
                id: None,
                parent_id: None,
            },
        ),
    }
}

/// `existing` edited by the form: the form's fields as for a new transaction, while the
/// recurrence settings, the generated flag and the row's identity stay as they were.
pub fn edited_transaction(
    existing: &Transaction,
    fields: &FieldSet<AddEditField>,
    categories: &[CategoryInfo],
) -> (r: Result<Transaction, FormError>)
    ensures
        match (r, form_check(fields.texts(), categories@)) {
            (Ok(tx), Ok((d, a))) => {
                &&& tx.date == d
                &&& tx.amount == a
                &&& tx.description@ == trim_spec(fields.texts()[1]@)
                &&& tx.transaction_type == form_type(fields.texts()[3]@)
                &&& tx.category@ == trim_spec(fields.texts()[4]@)
                &&& tx.subcategory@ == trim_spec(fields.texts()[5]@)
                &&& tx.is_recurring == existing.is_recurring
                &&& tx.recurrence_frequency == existing.recurrence_frequency
                &&& tx.recurrence_end_date == existing.recurrence_end_date
                &&& tx.is_generated_from_recurring == existing.is_generated_from_recurring
                &&& tx.id == existing.id
                &&& tx.parent_id == existing.parent_id
            },
            (Err(e), Err(f)) => e == f,
            _ => false,
        },
{
    match transaction_from_form(fields, categories) {
        Err(e) => Err(e),
        Ok(tx) => Ok(
            Transaction {
                is_recurring: existing.is_recurring,
                recurrence_frequency: existing.recurrence_frequency,
                recurrence_end_date: existing.recurrence_end_date,
                is_generated_from_recurring: existing.is_generated_from_recurring,
                id: existing.id,
                parent_id: existing.parent_id,
                ..tx
            },
        ),
    }
}

/// The text shown for a form error, after "Error: ". An unknown category names the trimmed
/// category and subcategory and the type the form gives.
pub open spec fn form_error_text(e: FormError, texts: Seq<String>) -> Seq<char> {
    match e {
        FormError::InvalidAmount => "Invalid Amount (Must be a number)"@,
        FormError::NonPositiveAmount => "Amount must be positive"@,
        FormError::InvalidDate => "Invalid Date Format (Expected %Y-%m-%d)"@,
        FormError::EmptyDescription => "Description cannot be empty"@,
        FormError::InvalidCategory => "Invalid Category/Subcategory: '"@ + trim_spec(texts[4]@)
            + "' / '"@ + trim_spec(texts[5]@) + "' for "@ + transaction_type_text(
            form_type(texts[3]@),
        ),
    }
}

/// The message for a form error.
pub fn form_error_message(e: FormError, fields: &FieldSet<AddEditField>) -> (r: String)
    ensures
        r@ == form_error_text(e, fields.texts()),
{
    proof {
        AddEditField::lemma_layout();
    }
    match e {
        FormError::InvalidAmount => copy_str("Invalid Amount (Must be a number)"),
        FormError::NonPositiveAmount => copy_str("Amount must be positive"),
        FormError::InvalidDate => copy_str("Invalid Date Format (Expected %Y-%m-%d)"),
        FormError::EmptyDescription => copy_str("Description cannot be empty"),
        FormError::InvalidCategory => {
            let mut s = copy_str("Invalid Category/Subcategory: '");
            let c = trim(fields.value(AddEditField::Category).as_str());
            let sub = trim(fields.value(AddEditField::Subcategory).as_str());
            s.append(c.as_str());
            s.append("' / '");
            s.append(sub.as_str());
            s.append("' for ");
            s.append(type_from_text(fields.value(AddEditField::TransactionType).as_str()).as_str());
            s
        },
    }
}

/// The form for a new transaction: today's date, the expense type, everything else blank,
/// focused on the date.
pub fn new_form(today: Date) -> (r: FieldSet<AddEditField>)
    requires
        valid_date(today),
    ensures
        r.texts().len() == 6,
        r.texts()[0]@ == chrono_iso_text(today.year, today.month, today.day),
        r.texts()[1]@.len() == 0,
        r.texts()[2]@.len() == 0,
        r.texts()[3]@ == "Expense"@,
        r.texts()[4]@.len() == 0,
        r.texts()[5]@.len() == 0,
        r.focus_position() == 0,
{
    let mut values: Vec<String> = Vec::new();
    values.push(format_iso_date(today));
    values.push(String::new());
    values.push(String::new());
    values.push(copy_str(TransactionType::Expense.as_str()));
    values.push(String::new());
    values.push(String::new());
    proof {
        AddEditField::lemma_layout();
    }
    FieldSet::new(values)
}

/// The form for editing `tx`: its date, description, amount with two decimals, type,
/// category and subcategory, focused on the date.
pub fn form_for(tx: &Transaction) -> (r: FieldSet<AddEditField>)
    requires
        valid_date(tx.date),
        amount_wf(tx.amount),
    ensures
        r.texts().len() == 6,
        r.texts()[0]@ == chrono_iso_text(tx.date.year, tx.date.month, tx.date.day),
        r.texts()[1]@ == tx.description@,
        r.texts()[2]@ == decimal_text_2dp(tx.amount),
        r.texts()[3]@ == transaction_type_text(tx.transaction_type),
        r.texts()[4]@ == tx.category@,
        r.texts()[5]@ == tx.subcategory@,
        r.focus_position() == 0,
{
    let mut values: Vec<String> = Vec::new();
    values.push(format_iso_date(tx.date));
    values.push(tx.description.clone());
    values.push(format_2dp(tx.amount));
    values.push(copy_str(tx.transaction_type.as_str()));
    values.push(tx.category.clone());
    values.push(tx.subcategory.clone());
    proof {
        AddEditField::lemma_layout();
    }
    FieldSet::new(values)
}

} // verus!
