//! The ledger's data: transactions, categories, recurrence rules and budget months.
use crate::calendar::Date;
use crate::money::Amount;
use crate::text::{
    ascii_lower, chars_of, copy_str, is_ascii_text, text_eq, to_lowercase, unicode_lowercase,
};
use vstd::prelude::*;

verus! {

/// The date format used for storage and for the date fields of forms.
pub const DATE_FORMAT: &'static str = "%Y-%m-%d";

#[derive(Clone, Copy, Debug, PartialEq, Eq, PartialOrd, Ord, Structural)]
pub enum TransactionType {
    Income,
    Expense,
}

pub open spec fn transaction_type_text(t: TransactionType) -> Seq<char> {
    match t {
        TransactionType::Income => "Income"@,
        TransactionType::Expense => "Expense"@,
    }
}

/// How a text names a transaction type: its lower-cased form starting with `i` is income and
/// starting with `e` is expense (this covers the full names "income" and "expense").
pub open spec fn parse_transaction_type_spec(text: Seq<char>) -> Option<TransactionType> {
    let lower = unicode_lowercase(text);
    if lower.len() > 0 && lower[0] == 'i' {
        Some(TransactionType::Income)
    } else if lower.len() > 0 && lower[0] == 'e' {
        Some(TransactionType::Expense)
    } else {
        None
    }
}

/// Sort rank of a type: `Income` before `Expense`, as the variants are declared.
pub open spec fn transaction_type_rank(t: TransactionType) -> int {
    match t {
        TransactionType::Income => 0,
        TransactionType::Expense => 1,
    }
}

impl TransactionType {
    pub fn as_str(self) -> (r: &'static str)
        ensures
            r@ == transaction_type_text(self),
    {
        match self {
            TransactionType::Income => "Income",
            TransactionType::Expense => "Expense",
        }
    }

    /// Reads a transaction type from text, case-insensitively: "Income", "expense", "i", "E"
    /// and anything else starting with one of those letters.
    /// A type's own label reads back as that type.
    pub fn try_from_str(value: &str) -> (r: Result<TransactionType, ()>)
        ensures
            r matches Ok(t) ==> parse_transaction_type_spec(value@) == Some(t),
            r is Err <==> parse_transaction_type_spec(value@) is None,
            is_ascii_text(value@) ==> r == (if value@.len() > 0 && ascii_lower(value@[0]) == 'i' {
                Ok(TransactionType::Income)
            } else if value@.len() > 0 && ascii_lower(value@[0]) == 'e' {
                Ok(TransactionType::Expense)
            } else {
                Err(())
            }),
            forall|t: TransactionType| value@ == transaction_type_text(t) ==> r == Ok::<TransactionType, ()>(t),
    {
        proof {
            reveal_strlit("Income");
            reveal_strlit("Expense");
            assert(is_ascii_text("Income"@));
            assert(is_ascii_text("Expense"@));
        }
        let lower = to_lowercase(value);
        let chars = chars_of(lower.as_str());
        if chars.len() > 0 && chars[0] == 'i' {
            Ok(TransactionType::Income)
        } else if chars.len() > 0 && chars[0] == 'e' {
            Ok(TransactionType::Expense)
        } else {
            Err(())
        }
    }

    /// The type's label as a `String`.
    pub fn to_string(self) -> (r: String)
        ensures
            r@ == transaction_type_text(self),
    {
        copy_str(self.as_str())
    }

    /// `true` for `Income`, which sorts before `Expense`.
    pub fn sorts_before(self, other: TransactionType) -> (r: bool)
        ensures
            r == (transaction_type_rank(self) < transaction_type_rank(other)),
    {
        self == TransactionType::Income && other == TransactionType::Expense
    }
}

#[derive(Clone, Copy, Debug, PartialEq, Eq, Structural)]
pub enum RecurrenceFrequency {
    Daily,
    Weekly,
    BiWeekly,
    SemiMonthly,
    SemiMonthlyWorkday,
    Monthly,
    Quarterly,
    Yearly,
}

pub open spec fn frequency_label(f: RecurrenceFrequency) -> Seq<char> {
    match f {
        RecurrenceFrequency::Daily => "Daily"@,
        RecurrenceFrequency::Weekly => "Weekly"@,
        RecurrenceFrequency::BiWeekly => "Bi-Weekly"@,
        RecurrenceFrequency::SemiMonthly => "Semi-Monthly"@,
        RecurrenceFrequency::SemiMonthlyWorkday => "Semi-Monthly (Weekday Adjusted)"@,
        RecurrenceFrequency::Monthly => "Monthly"@,
        RecurrenceFrequency::Quarterly => "Quarterly"@,
        RecurrenceFrequency::Yearly => "Yearly"@,
    }
}

pub open spec fn frequency_from_label_spec(label: Seq<char>) -> Option<RecurrenceFrequency> {
    if label == "Daily"@ {
        Some(RecurrenceFrequency::Daily)
    } else if label == "Weekly"@ {
        Some(RecurrenceFrequency::Weekly)
    } else if label == "Bi-Weekly"@ {
        Some(RecurrenceFrequency::BiWeekly)
    } else if label == "Semi-Monthly"@ {
        Some(RecurrenceFrequency::SemiMonthly)
    } else if label == "Semi-Monthly (Weekday Adjusted)"@ {
        Some(RecurrenceFrequency::SemiMonthlyWorkday)
    } else if label == "Monthly"@ {
        Some(RecurrenceFrequency::Monthly)
    } else if label == "Quarterly"@ {
        Some(RecurrenceFrequency::Quarterly)
    } else if label == "Yearly"@ {
        Some(RecurrenceFrequency::Yearly)
    } else {
        None
    }
}

pub open spec fn all_frequencies() -> Seq<RecurrenceFrequency> {
    seq![
        RecurrenceFrequency::Daily,
        RecurrenceFrequency::Weekly,
        RecurrenceFrequency::BiWeekly,
        RecurrenceFrequency::SemiMonthly,
        RecurrenceFrequency::SemiMonthlyWorkday,
        RecurrenceFrequency::Monthly,
        RecurrenceFrequency::Quarterly,
        RecurrenceFrequency::Yearly,
    ]
}

impl RecurrenceFrequency {
    /// The display label of a frequency (also its stored form).
    pub fn to_string(self) -> (r: &'static str)
        ensures
            r@ == frequency_label(self),
    {
        match self {
            RecurrenceFrequency::Daily => "Daily",
            RecurrenceFrequency::Weekly => "Weekly",
            RecurrenceFrequency::BiWeekly => "Bi-Weekly",
            RecurrenceFrequency::SemiMonthly => "Semi-Monthly",
            RecurrenceFrequency::SemiMonthlyWorkday => "Semi-Monthly (Weekday Adjusted)",
            RecurrenceFrequency::Monthly => "Monthly",
            RecurrenceFrequency::Quarterly => "Quarterly",
            RecurrenceFrequency::Yearly => "Yearly",
        }
    }

    /// Parse a frequency from its display label (e.g. "Bi-Weekly"). Used for both the
    /// recurring-settings form and database round-tripping.
    pub fn from_label(label: &str) -> (r: Option<RecurrenceFrequency>)
        ensures
            r == frequency_from_label_spec(label@),
    {
        if text_eq(label, "Daily") {
            Some(RecurrenceFrequency::Daily)
        } else if text_eq(label, "Weekly") {
            Some(RecurrenceFrequency::Weekly)
        } else if text_eq(label, "Bi-Weekly") {
            Some(RecurrenceFrequency::BiWeekly)
        } else if text_eq(label, "Semi-Monthly") {
            Some(RecurrenceFrequency::SemiMonthly)
        } else if text_eq(label, "Semi-Monthly (Weekday Adjusted)") {
            Some(RecurrenceFrequency::SemiMonthlyWorkday)
        } else if text_eq(label, "Monthly") {
            Some(RecurrenceFrequency::Monthly)
        } else if text_eq(label, "Quarterly") {
            Some(RecurrenceFrequency::Quarterly)
        } else if text_eq(label, "Yearly") {
            Some(RecurrenceFrequency::Yearly)
        } else {
            None
        }
    }

    /// Every frequency, in the order the picker lists them.
    pub fn all() -> (r: Vec<RecurrenceFrequency>)
        ensures
            r@ == all_frequencies(),
    {
        vec![
            RecurrenceFrequency::Daily,
            RecurrenceFrequency::Weekly,
            RecurrenceFrequency::BiWeekly,
            RecurrenceFrequency::SemiMonthly,
            RecurrenceFrequency::SemiMonthlyWorkday,
            RecurrenceFrequency::Monthly,
            RecurrenceFrequency::Quarterly,
            RecurrenceFrequency::Yearly,
        ]
    }
}

/// Reading back the label a frequency is stored under gives the same frequency.
pub proof fn lemma_frequency_label_round_trip(f: RecurrenceFrequency)
    ensures
        frequency_from_label_spec(frequency_label(f)) == Some(f),
{
    reveal_strlit("Daily");
    reveal_strlit("Weekly");
    reveal_strlit("Bi-Weekly");
    reveal_strlit("Semi-Monthly");
    reveal_strlit("Semi-Monthly (Weekday Adjusted)");
    reveal_strlit("Monthly");
    reveal_strlit("Quarterly");
    reveal_strlit("Yearly");
    assert("Daily"@.len() == 5 && "Daily"@[0] == 'D');
    assert("Weekly"@.len() == 6 && "Weekly"@[0] == 'W');
    assert("Bi-Weekly"@.len() == 9 && "Bi-Weekly"@[0] == 'B');
    assert("Semi-Monthly"@.len() == 12 && "Semi-Monthly"@[0] == 'S');
    assert("Semi-Monthly (Weekday Adjusted)"@.len() == 31);
    assert("Monthly"@.len() == 7 && "Monthly"@[0] == 'M');
    assert("Quarterly"@.len() == 9 && "Quarterly"@[0] == 'Q');
    assert("Yearly"@.len() == 6 && "Yearly"@[0] == 'Y');
}

/// `all` lists each frequency exactly once.
pub proof fn lemma_all_frequencies_complete(f: RecurrenceFrequency)
    ensures
        all_frequencies().contains(f),
        all_frequencies().len() == 8,
        forall|i: int, j: int|
            0 <= i < j < 8 ==> all_frequencies()[i] != all_frequencies()[j],
{
    let s = all_frequencies();
    match f {
        RecurrenceFrequency::Daily => assert(s[0] == f),
        RecurrenceFrequency::Weekly => assert(s[1] == f),
        RecurrenceFrequency::BiWeekly => assert(s[2] == f),
        RecurrenceFrequency::SemiMonthly => assert(s[3] == f),
        RecurrenceFrequency::SemiMonthlyWorkday => assert(s[4] == f),
        RecurrenceFrequency::Monthly => assert(s[5] == f),
        RecurrenceFrequency::Quarterly => assert(s[6] == f),
        RecurrenceFrequency::Yearly => assert(s[7] == f),
    }
}

/// A transaction: a persisted row (`id` set), or an occurrence generated in memory from a
/// recurring row (`id` unset, `parent_id` naming the source).
#[derive(Clone, Debug)]
pub struct Transaction {
    pub date: Date,
    pub description: String,
    pub amount: Amount,
    pub transaction_type: TransactionType,
    pub category: String,
    pub subcategory: String,
    pub is_recurring: bool,
    pub recurrence_frequency: Option<RecurrenceFrequency>,
    pub recurrence_end_date: Option<Date>,
    pub is_generated_from_recurring: bool,
    pub id: Option<i64>,
    pub parent_id: Option<i64>,
}

impl Transaction {
    /// A field-for-field copy.
    pub fn duplicate(&self) -> (r: Transaction)
        ensures
            r == *self,
    {
        Transaction {
            date: self.date,
            description: self.description.clone(),
            amount: self.amount,
            transaction_type: self.transaction_type,
            category: self.category.clone(),
            subcategory: self.subcategory.clone(),
            is_recurring: self.is_recurring,
            recurrence_frequency: self.recurrence_frequency,
            recurrence_end_date: self.recurrence_end_date,
            is_generated_from_recurring: self.is_generated_from_recurring,
            id: self.id,
            parent_id: self.parent_id,
        }
    }

    /// Build a database draft (the real-row fields stored in the `transactions` table) from a
    /// transaction. Drops `id`, the generated flag, and the in-memory `parent_id`.
    pub fn to_draft(&self) -> (r: TransactionDraft)
        ensures
            r.date == self.date,
            r.description == self.description,
            r.amount == self.amount,
            r.transaction_type == self.transaction_type,
            r.category == self.category,
            r.subcategory == self.subcategory,
            r.is_recurring == self.is_recurring,
            r.recurrence_frequency == self.recurrence_frequency,
            r.recurrence_end_date == self.recurrence_end_date,
    {
        TransactionDraft {
            date: self.date,
            description: self.description.clone(),
            amount: self.amount,
            transaction_type: self.transaction_type,
            category: self.category.clone(),
            subcategory: self.subcategory.clone(),
            is_recurring: self.is_recurring,
            recurrence_frequency: self.recurrence_frequency,
            recurrence_end_date: self.recurrence_end_date,
        }
    }
}

/// Fields persisted for a real transaction row (regular transactions + recurring sources).
/// Generated occurrences are never stored, so there is no generated flag or parent link here.
#[derive(Clone, Debug)]
pub struct TransactionDraft {
    pub date: Date,
    pub description: String,
    pub amount: Amount,
    pub transaction_type: TransactionType,
    pub category: String,
    pub subcategory: String,
    pub is_recurring: bool,
    pub recurrence_frequency: Option<RecurrenceFrequency>,
    pub recurrence_end_date: Option<Date>,
}

/// The category of a row that names none.
pub fn default_category() -> (r: String)
    ensures
        r@ == "Uncategorized"@,
{
    String::from_str("Uncategorized")
}

#[derive(Clone, Copy, Debug, PartialEq, Eq, Structural)]
pub enum SortColumn {
    Date,
    Description,
    Amount,
    Type,
    Category,
    Subcategory,
}

#[derive(Clone, Copy, Debug, PartialEq, Eq, Structural)]
pub enum SortOrder {
    Ascending,
    Descending,
}

impl SortOrder {
    /// The other direction.
    pub fn flipped(self) -> (r: SortOrder)
        ensures
            r != self,
    {
        match self {
            SortOrder::Ascending => SortOrder::Descending,
            SortOrder::Descending => SortOrder::Ascending,
        }
    }
}

#[derive(Clone, Copy, Debug, PartialEq, Eq, Structural)]
pub enum CategorySortColumn {
    Type,
    Category,
    Subcategory,
    Tag,
    TargetBudget,
}

/// Choosing a sort column: the same column again flips the direction, a new column sorts
/// ascending. Returns the new direction.
pub fn next_sort_order(same_column: bool, order: SortOrder) -> (r: SortOrder)
    ensures
        same_column ==> r == (if order == SortOrder::Ascending {
            SortOrder::Descending
        } else {
            SortOrder::Ascending
        }),
        !same_column ==> r == SortOrder::Ascending,
{
    if same_column {
        order.flipped()
    } else {
        SortOrder::Ascending
    }
}

/// A year and month. The field order makes earlier months compare smaller.
#[derive(Clone, Copy, Debug, PartialEq, Eq, PartialOrd, Ord, Structural)]
pub struct BudgetMonth {
    pub year: i32,
    pub month: u32,
}

/// Chronological order of budget months.
pub open spec fn month_before(a: BudgetMonth, b: BudgetMonth) -> bool {
    a.year < b.year || (a.year == b.year && a.month < b.month)
}

pub open spec fn month_on_or_before(a: BudgetMonth, b: BudgetMonth) -> bool {
    month_before(a, b) || a == b
}

pub open spec fn next_month_spec(m: BudgetMonth) -> BudgetMonth {
    if m.month >= 12 {
        BudgetMonth { year: (m.year + 1) as i32, month: 1 }
    } else {
        BudgetMonth { year: m.year, month: (m.month + 1) as u32 }
    }
}

/// Sorts before every real month, so a period seeded here covers all history.
pub open spec fn beginning_spec() -> BudgetMonth {
    BudgetMonth { year: 0, month: 1 }
}

impl BudgetMonth {
    /// Sorts before every real month, so a period seeded here covers all history.
    pub fn beginning() -> (r: Self)
        ensures
            r == beginning_spec(),
    {
        BudgetMonth { year: 0, month: 1 }
    }

    pub fn new(year: i32, month: u32) -> (r: Self)
        ensures
            r == (BudgetMonth { year, month }),
    {
        BudgetMonth { year, month }
    }

    /// The following month; December rolls into January of the next year.
    pub fn next(self) -> (r: Self)
        requires
            self.month >= 12 ==> self.year < i32::MAX,
        ensures
            r == next_month_spec(self),
    {
        if self.month >= 12 {
            Self::new(self.year + 1, 1)
        } else {
            Self::new(self.year, self.month + 1)
        }
    }

    /// `self` comes strictly before `other`.
    pub fn is_before(self, other: BudgetMonth) -> (r: bool)
        ensures
            r == month_before(self, other),
    {
        self.year < other.year || (self.year == other.year && self.month < other.month)
    }
}

/// How far a budget edit reaches. `RemoveChange` is only offered when a period starts
/// exactly at the edited month, since that is the only thing there is to undo.
#[derive(Clone, Copy, Debug, PartialEq, Eq, Structural)]
pub enum BudgetEditScope {
    FromThisMonth,
    ThisMonthOnly,
    ReplaceAllMonths,
    RemoveChange,
}

/// A store operation an edit resolves to.
#[derive(Clone, Copy, Debug, PartialEq, Eq, Structural)]
pub enum BudgetWrite {
    /// Apply an amount (or clear the budget) from a month on.
    Assign(BudgetMonth, Option<Amount>),
    Remove(BudgetMonth),
    RemoveAll,
}

/// `amount: None` clears the budget from that month on, which is not the same as having
/// no period. `category_id: None` is the ledger's monthly budget, not a category budget.
#[derive(Clone, Copy, Debug, PartialEq, Eq, Structural)]
pub struct BudgetPeriod {
    pub id: i64,
    pub category_id: Option<i64>,
    pub start: BudgetMonth,
    pub amount: Option<Amount>,
}

#[derive(Clone, Copy, Debug, PartialEq, Eq, Structural)]
pub struct MonthlySummary {
    pub income: Amount,
    pub expense: Amount,
}

#[derive(Clone, Debug)]
pub struct CategoryInfo {
    pub transaction_type: TransactionType,
    pub category: String,
    pub subcategory: String,
}

#[derive(Clone, Debug)]
pub struct CategoryDraft {
    pub transaction_type: TransactionType,
    pub category: String,
    pub subcategory: String,
    pub tag: Option<String>,
}

#[derive(Clone, Debug)]
pub struct CategoryRecord {
    pub id: i64,
    pub transaction_type: TransactionType,
    pub category: String,
    pub subcategory: String,
    pub tag: Option<String>,
}

impl CategoryRecord {
    pub fn to_category_info(&self) -> (r: CategoryInfo)
        ensures
            r.transaction_type == self.transaction_type,
            r.category == self.category,
            r.subcategory == self.subcategory,
    {
        CategoryInfo {
            transaction_type: self.transaction_type,
            category: self.category.clone(),
            subcategory: self.subcategory.clone(),
        }
    }

    pub fn to_draft(&self) -> (r: CategoryDraft)
        ensures
            r.transaction_type == self.transaction_type,
            r.category == self.category,
            r.subcategory == self.subcategory,
            r.tag == self.tag,
    {
        let tag = match &self.tag {
            Some(t) => Some(t.clone()),
            None => None,
        };
        CategoryDraft {
            transaction_type: self.transaction_type,
            category: self.category.clone(),
            subcategory: self.subcategory.clone(),
            tag,
        }
    }
}

} // verus!
