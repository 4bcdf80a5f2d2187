//! Form fields addressed by name instead of by index. Each form declares its fields once, and
//! everything keyed off a field (label, input handling, cursor) derives from that declaration
//! rather than from a separate list of indices that can drift out of alignment.
use crate::text::is_empty_text;
use core::marker::PhantomData;
use vstd::prelude::*;

verus! {

/// How a field behaves: what typing does to it, and what the arrow keys do.
#[derive(Debug, Clone, Copy, PartialEq, Eq, Structural)]
pub enum FieldKind {
    Text,
    Date,
    Amount,
    /// Arrow keys cycle a fixed set of values.
    Toggle,
    /// Enter opens a picker.
    Selection,
}

impl FieldKind {
    /// Typing edits the field's text.
    pub fn is_editable(self) -> (r: bool)
        ensures
            r == (self == FieldKind::Text || self == FieldKind::Date || self == FieldKind::Amount),
    {
        match self {
            FieldKind::Text | FieldKind::Date | FieldKind::Amount => true,
            _ => false,
        }
    }
}

/// The fields of one form, in the order they appear on screen.
pub trait FieldKey: Copy + Sized {
    /// How many fields the form declares.
    spec fn field_count() -> nat;

    /// A field's place on screen, counted from 0.
    spec fn position(self) -> nat;

    /// The place of the field at screen position `i`.
    spec fn at(i: nat) -> Self;

    proof fn lemma_layout()
        ensures
            Self::field_count() > 0,
            forall|f: Self| #[trigger] f.position() < Self::field_count(),
            forall|f: Self| Self::at(#[trigger] f.position()) == f,
            forall|i: nat| i < Self::field_count() ==> (#[trigger] Self::at(i)).position() == i,
    ;

    /// Every field, in screen order.
    fn all() -> (r: Vec<Self>)
        ensures
            r@.len() == Self::field_count(),
            forall|i: int| 0 <= i < r@.len() ==> #[trigger] r@[i] == Self::at(i as nat),
    ;

    fn index(self) -> (r: usize)
        ensures
            r == self.position(),
    ;

    /// How the field behaves.
    spec fn kind_of(self) -> FieldKind;

    /// The field's label on screen.
    spec fn label_text(self) -> Seq<char>;

    /// The key hint shown beside the field (empty when it has none).
    spec fn hint_text(self) -> Seq<char>;

    fn kind(self) -> (r: FieldKind)
        ensures
            r == self.kind_of(),
    ;

    fn label(self) -> (r: &'static str)
        ensures
            r@ == self.label_text(),
    ;

    fn hint(self) -> (r: &'static str)
        ensures
            r@ == self.hint_text(),
    ;
}

/// The position after `p` among `n` fields, wrapping from the last to the first.
pub open spec fn next_focus(p: nat, n: nat) -> nat {
    (p + 1) % n
}

/// The position before `p` among `n` fields, wrapping from the first to the last.
pub open spec fn previous_focus(p: nat, n: nat) -> nat {
    if p == 0 {
        (n - 1) as nat
    } else {
        (p - 1) as nat
    }
}

/// Moving the focus forward and then back (or back and then forward) returns it to the field
/// it started on.
pub proof fn lemma_focus_round_trip(p: nat, n: nat)
    requires
        p < n,
    ensures
        previous_focus(next_focus(p, n), n) == p,
        next_focus(previous_focus(p, n), n) == p,
{
    if p + 1 < n {
        assert((p + 1) % n == p + 1) by {
            vstd::arithmetic::div_mod::lemma_small_mod((p + 1) as nat, n);
        }
    } else {
        assert((p + 1) % n == 0) by {
            vstd::arithmetic::div_mod::lemma_mod_self_0(n as int);
        }
    }
    if p == 0 {
        assert(n % n == 0) by {
            vstd::arithmetic::div_mod::lemma_mod_self_0(n as int);
        }
    } else {
        assert(p % n == p) by {
            vstd::arithmetic::div_mod::lemma_small_mod(p, n);
        }
    }
}

/// The text of every field of a form, and which field has the focus.
#[derive(Debug)]
pub struct FieldSet<K: FieldKey> {
    values: Vec<String>,
    focused: usize,
    key: PhantomData<K>,
}

impl<K: FieldKey> FieldSet<K> {
    #[verifier::type_invariant]
    spec fn well_formed(self) -> bool {
        &&& self.values@.len() == K::field_count()
        &&& self.focused < self.values@.len()
    }

    /// The text of each field, in screen order.
    pub closed spec fn texts(&self) -> Seq<String> {
        self.values@
    }

    /// The screen position of the focused field.
    pub closed spec fn focus_position(&self) -> nat {
        self.focused as nat
    }

    /// A form with the given field texts (one per declared field), focused on its first field.
    pub fn new(values: Vec<String>) -> (r: Self)
        requires
            values@.len() == K::field_count(),
        ensures
            r.texts() == values@,
            r.focus_position() == 0,
    {
        proof {
            K::lemma_layout();
        }
        FieldSet { values, focused: 0, key: PhantomData }
    }

    /// A form with every field blank, focused on its first field.
    pub fn blank() -> (r: Self)
        ensures
            r.texts().len() == K::field_count(),
            forall|i: int| 0 <= i < r.texts().len() ==> (#[trigger] r.texts()[i])@.len() == 0,
            r.focus_position() == 0,
    {
        let keys = K::all();
        let mut values: Vec<String> = Vec::new();
        let mut i: usize = 0;
        while i < keys.len()
            invariant
                keys@.len() == K::field_count(),
                i <= keys@.len(),
                values@.len() == i,
                forall|j: int| 0 <= j < i ==> (#[trigger] values@[j])@.len() == 0,
            decreases keys@.len() - i,
        {
            values.push(String::new());
            i = i + 1;
        }
        Self::new(values)
    }

    /// The field that has the focus; the focus always lies on one of the form's fields.
    pub fn focused(&self) -> (r: K)
        ensures
            r == K::at(self.focus_position()),
            self.focus_position() < K::field_count(),
            self.texts().len() == K::field_count(),
    {
        proof {
            use_type_invariant(self);
        }
        let keys = K::all();
        keys[self.focused]
    }

    /// Moves the focus to `field`.
    pub fn focus(&mut self, field: K)
        ensures
            final(self).focus_position() == field.position(),
            final(self).texts() == old(self).texts(),
    {
        proof {
            use_type_invariant(&*self);
            K::lemma_layout();
        }
        self.focused = field.index();
    }

    /// Moves the focus to the next field, wrapping from the last to the first.
    pub fn focus_next(&mut self)
        ensures
            final(self).focus_position() == next_focus(old(self).focus_position(), K::field_count()),
            final(self).texts() == old(self).texts(),
    {
        proof {
            use_type_invariant(&*self);
        }
        let n = self.values.len();
        self.focused = (self.focused + 1) % n;
    }

    /// Moves the focus to the previous field, wrapping from the first to the last.
    pub fn focus_previous(&mut self)
        ensures
            final(self).focus_position() == previous_focus(
                old(self).focus_position(),
                K::field_count(),
            ),
            final(self).texts() == old(self).texts(),
    {
        proof {
            use_type_invariant(&*self);
        }
        self.focused = if self.focused == 0 {
            self.values.len() - 1
        } else {
            self.focused - 1
        };
    }

    /// The text of the focused field.
    pub fn focused_value(&self) -> (r: &String)
        ensures
            *r == self.texts()[self.focus_position() as int],
            self.focus_position() < K::field_count(),
            self.texts().len() == K::field_count(),
    {
        proof {
            use_type_invariant(self);
        }
        &self.values[self.focused]
    }

    /// The text of `field`.
    pub fn value(&self, field: K) -> (r: &String)
        ensures
            *r == self.texts()[field.position() as int],
            self.focus_position() < K::field_count(),
            self.texts().len() == K::field_count(),
    {
        proof {
            use_type_invariant(self);
            K::lemma_layout();
        }
        &self.values[field.index()]
    }

    /// Replaces the text of `field`.
    pub fn set_value(&mut self, field: K, text: String)
        ensures
            final(self).texts() == old(self).texts().update(field.position() as int, text),
            final(self).focus_position() == old(self).focus_position(),
    {
        proof {
            use_type_invariant(&*self);
            K::lemma_layout();
        }
        let at = field.index();
        let mut updated: Vec<String> = Vec::new();
        let mut i: usize = 0;
        while i < self.values.len()
            invariant
                at < self.values@.len(),
                i <= self.values@.len(),
                updated@.len() == i,
                forall|j: int| 0 <= j < i && j != at ==> #[trigger] updated@[j] == self.values@[j],
            decreases self.values@.len() - i,
        {
            if i == at {
                updated.push(String::new());
            } else {
                updated.push(self.values[i].clone());
            }
            i = i + 1;
        }
        updated.set(at, text);
        proof {
            assert(updated@ =~= self.values@.update(at as int, text));
        }
        self.values = updated;
    }

    /// Every field with its text, in screen order.
    pub fn iter(&self) -> (r: Vec<(K, &String)>)
        ensures
            r@.len() == K::field_count(),
            forall|i: int|
                0 <= i < r@.len() ==> (#[trigger] r@[i]).0 == K::at(i as nat) && *r@[i].1
                    == self.texts()[i],
    {
        proof {
            use_type_invariant(self);
        }
        let keys = K::all();
        let mut out: Vec<(K, &String)> = Vec::new();
        let mut i: usize = 0;
        while i < keys.len()
            invariant
                keys@.len() == K::field_count(),
                self.values@.len() == K::field_count(),
                forall|j: int| 0 <= j < keys@.len() ==> #[trigger] keys@[j] == K::at(j as nat),
                i <= keys@.len(),
                out@.len() == i,
                forall|j: int|
                    0 <= j < i ==> (#[trigger] out@[j]).0 == K::at(j as nat) && *out@[j].1
                        == self.values@[j],
            decreases keys@.len() - i,
        {
            out.push((keys[i], &self.values[i]));
            i = i + 1;
        }
        out
    }

    /// No field holds any text.
    pub fn all_empty(&self) -> (r: bool)
        ensures
            r == (forall|i: int|
                0 <= i < self.texts().len() ==> (#[trigger] self.texts()[i])@.len() == 0),
    {
        let mut i: usize = 0;
        while i < self.values.len()
            invariant
                i <= self.values@.len(),
                forall|j: int| 0 <= j < i ==> (#[trigger] self.values@[j])@.len() == 0,
            decreases self.values@.len() - i,
        {
            if !is_empty_text(self.values[i].as_str()) {
                assert(self.texts()[i as int]@.len() != 0);
                return false;
            }
            i = i + 1;
        }
        true
    }

    /// Blanks every field and returns focus to the first one.
    pub fn reset(&mut self)
        ensures
            final(self).texts().len() == old(self).texts().len(),
            forall|i: int|
                0 <= i < final(self).texts().len() ==> (#[trigger] final(self).texts()[i])@.len()
                    == 0,
            final(self).focus_position() == 0,
    {
        proof {
            use_type_invariant(&*self);
        }
        let mut blank: Vec<String> = Vec::new();
        let n = self.values.len();
        let mut i: usize = 0;
        while i < n
            invariant
                i <= n,
                blank@.len() == i,
                forall|j: int| 0 <= j < i ==> (#[trigger] blank@[j])@.len() == 0,
            decreases n - i,
        {
            blank.push(String::new());
            i = i + 1;
        }
        self.values = blank;
        self.focused = 0;
    }
}

/// The fields of the add/edit transaction form.
#[derive(Debug, Clone, Copy, PartialEq, Eq, Structural)]
pub enum AddEditField {
    Date,
    Description,
    Amount,
    TransactionType,
    Category,
    Subcategory,
}

impl FieldKey for AddEditField {
    open spec fn field_count() -> nat {
        6
    }

    open spec fn position(self) -> nat {
        match self {
            AddEditField::Date => 0,
            AddEditField::Description => 1,
            AddEditField::Amount => 2,
            AddEditField::TransactionType => 3,
            AddEditField::Category => 4,
            AddEditField::Subcategory => 5,
        }
    }

    open spec fn at(i: nat) -> Self {
        if i == 0 {
            AddEditField::Date
        } else if i == 1 {
            AddEditField::Description
        } else if i == 2 {
            AddEditField::Amount
        } else if i == 3 {
            AddEditField::TransactionType
        } else if i == 4 {
            AddEditField::Category
        } else {
            AddEditField::Subcategory
        }
    }

    open spec fn kind_of(self) -> FieldKind {
        match self {
            AddEditField::Date => FieldKind::Date,
            AddEditField::Description => FieldKind::Text,
            AddEditField::Amount => FieldKind::Amount,
            AddEditField::TransactionType => FieldKind::Toggle,
            AddEditField::Category => FieldKind::Selection,
            AddEditField::Subcategory => FieldKind::Selection,
        }
    }

    open spec fn label_text(self) -> Seq<char> {
        match self {
            AddEditField::Date => "Date (YYYY-MM-DD)"@,
            AddEditField::Description => "Description"@,
            AddEditField::Amount => "Amount"@,
            AddEditField::TransactionType => "Type"@,
            AddEditField::Category => "Category"@,
            AddEditField::Subcategory => "Subcategory"@,
        }
    }

    open spec fn hint_text(self) -> Seq<char> {
        match self {
            AddEditField::Date => "(◀/▶ or +/- for days, Shift+◀/▶ for months, Digits to enter)"@,
            AddEditField::Description => ""@,
            AddEditField::Amount => ""@,
            AddEditField::TransactionType => "(◀/▶ or Enter to toggle)"@,
            AddEditField::Category => "(Enter to select)"@,
            AddEditField::Subcategory => "(Enter to select)"@,
        }
    }

    proof fn lemma_layout() {
    }

    fn all() -> (r: Vec<Self>) {
        vec![AddEditField::Date, AddEditField::Description, AddEditField::Amount, AddEditField::TransactionType, AddEditField::Category, AddEditField::Subcategory]
    }

    fn index(self) -> (r: usize) {
        match self {
            AddEditField::Date => 0,
            AddEditField::Description => 1,
            AddEditField::Amount => 2,
            AddEditField::TransactionType => 3,
            AddEditField::Category => 4,
            AddEditField::Subcategory => 5,
        }
    }

    fn kind(self) -> (r: FieldKind) {
        match self {
            AddEditField::Date => FieldKind::Date,
            AddEditField::Description => FieldKind::Text,
            AddEditField::Amount => FieldKind::Amount,
            AddEditField::TransactionType => FieldKind::Toggle,
            AddEditField::Category => FieldKind::Selection,
            AddEditField::Subcategory => FieldKind::Selection,
        }
    }

    fn label(self) -> (r: &'static str) {
        match self {
            AddEditField::Date => "Date (YYYY-MM-DD)",
            AddEditField::Description => "Description",
            AddEditField::Amount => "Amount",
            AddEditField::TransactionType => "Type",
            AddEditField::Category => "Category",
            AddEditField::Subcategory => "Subcategory",
        }
    }

    fn hint(self) -> (r: &'static str) {
        match self {
            AddEditField::Date => "(◀/▶ or +/- for days, Shift+◀/▶ for months, Digits to enter)",
            AddEditField::Description => "",
            AddEditField::Amount => "",
            AddEditField::TransactionType => "(◀/▶ or Enter to toggle)",
            AddEditField::Category => "(Enter to select)",
            AddEditField::Subcategory => "(Enter to select)",
        }
    }
}

/// The fields of the advanced filter form.
#[derive(Debug, Clone, Copy, PartialEq, Eq, Structural)]
pub enum AdvancedFilterField {
    DateFrom,
    DateTo,
    Description,
    Category,
    Subcategory,
    TransactionType,
    Recurring,
    AmountFrom,
    AmountTo,
}

impl FieldKey for AdvancedFilterField {
    open spec fn field_count() -> nat {
        9
    }

    open spec fn position(self) -> nat {
        match self {
            AdvancedFilterField::DateFrom => 0,
            AdvancedFilterField::DateTo => 1,
            AdvancedFilterField::Description => 2,
            AdvancedFilterField::Category => 3,
            AdvancedFilterField::Subcategory => 4,
            AdvancedFilterField::TransactionType => 5,
            AdvancedFilterField::Recurring => 6,
            AdvancedFilterField::AmountFrom => 7,
            AdvancedFilterField::AmountTo => 8,
        }
    }

    open spec fn at(i: nat) -> Self {
        if i == 0 {
            AdvancedFilterField::DateFrom
        } else if i == 1 {
            AdvancedFilterField::DateTo
        } else if i == 2 {
            AdvancedFilterField::Description
        } else if i == 3 {
            AdvancedFilterField::Category
        } else if i == 4 {
            AdvancedFilterField::Subcategory
        } else if i == 5 {
            AdvancedFilterField::TransactionType
        } else if i == 6 {
            AdvancedFilterField::Recurring
        } else if i == 7 {
            AdvancedFilterField::AmountFrom
        } else {
            AdvancedFilterField::AmountTo
        }
    }

    open spec fn kind_of(self) -> FieldKind {
        match self {
            AdvancedFilterField::DateFrom => FieldKind::Date,
            AdvancedFilterField::DateTo => FieldKind::Date,
            AdvancedFilterField::Description => FieldKind::Text,
            AdvancedFilterField::Category => FieldKind::Selection,
            AdvancedFilterField::Subcategory => FieldKind::Selection,
            AdvancedFilterField::TransactionType => FieldKind::Toggle,
            AdvancedFilterField::Recurring => FieldKind::Toggle,
            AdvancedFilterField::AmountFrom => FieldKind::Amount,
            AdvancedFilterField::AmountTo => FieldKind::Amount,
        }
    }

    open spec fn label_text(self) -> Seq<char> {
        match self {
            AdvancedFilterField::DateFrom => "Date From (YYYY-MM-DD)"@,
            AdvancedFilterField::DateTo => "Date To (YYYY-MM-DD)"@,
            AdvancedFilterField::Description => "Description"@,
            AdvancedFilterField::Category => "Category"@,
            AdvancedFilterField::Subcategory => "Subcategory"@,
            AdvancedFilterField::TransactionType => "Type"@,
            AdvancedFilterField::Recurring => "Recurring"@,
            AdvancedFilterField::AmountFrom => "Amount From"@,
            AdvancedFilterField::AmountTo => "Amount To"@,
        }
    }

    open spec fn hint_text(self) -> Seq<char> {
        match self {
            AdvancedFilterField::DateFrom => "(◀/▶ or +/- days, Shift+◀/▶ months (jumps to today if empty), Digits to enter)"@,
            AdvancedFilterField::DateTo => "(◀/▶ or +/- days, Shift+◀/▶ months (jumps to today if empty), Digits to enter)"@,
            AdvancedFilterField::Description => ""@,
            AdvancedFilterField::Category => "(Enter to select)"@,
            AdvancedFilterField::Subcategory => "(Enter to select)"@,
            AdvancedFilterField::TransactionType => "(◀/▶)"@,
            AdvancedFilterField::Recurring => "(◀/▶)"@,
            AdvancedFilterField::AmountFrom => ""@,
            AdvancedFilterField::AmountTo => ""@,
        }
    }

    proof fn lemma_layout() {
    }

    fn all() -> (r: Vec<Self>) {
        vec![AdvancedFilterField::DateFrom, AdvancedFilterField::DateTo, AdvancedFilterField::Description, AdvancedFilterField::Category, AdvancedFilterField::Subcategory, AdvancedFilterField::TransactionType, AdvancedFilterField::Recurring, AdvancedFilterField::AmountFrom, AdvancedFilterField::AmountTo]
    }

    fn index(self) -> (r: usize) {
        match self {
            AdvancedFilterField::DateFrom => 0,
            AdvancedFilterField::DateTo => 1,
            AdvancedFilterField::Description => 2,
            AdvancedFilterField::Category => 3,
            AdvancedFilterField::Subcategory => 4,
            AdvancedFilterField::TransactionType => 5,
            AdvancedFilterField::Recurring => 6,
            AdvancedFilterField::AmountFrom => 7,
            AdvancedFilterField::AmountTo => 8,
        }
    }

    fn kind(self) -> (r: FieldKind) {
        match self {
            AdvancedFilterField::DateFrom => FieldKind::Date,
            AdvancedFilterField::DateTo => FieldKind::Date,
            AdvancedFilterField::Description => FieldKind::Text,
            AdvancedFilterField::Category => FieldKind::Selection,
            AdvancedFilterField::Subcategory => FieldKind::Selection,
            AdvancedFilterField::TransactionType => FieldKind::Toggle,
            AdvancedFilterField::Recurring => FieldKind::Toggle,
            AdvancedFilterField::AmountFrom => FieldKind::Amount,
            AdvancedFilterField::AmountTo => FieldKind::Amount,
        }
    }

    fn label(self) -> (r: &'static str) {
        match self {
            AdvancedFilterField::DateFrom => "Date From (YYYY-MM-DD)",
            AdvancedFilterField::DateTo => "Date To (YYYY-MM-DD)",
            AdvancedFilterField::Description => "Description",
            AdvancedFilterField::Category => "Category",
            AdvancedFilterField::Subcategory => "Subcategory",
            AdvancedFilterField::TransactionType => "Type",
            AdvancedFilterField::Recurring => "Recurring",
            AdvancedFilterField::AmountFrom => "Amount From",
            AdvancedFilterField::AmountTo => "Amount To",
        }
    }

    fn hint(self) -> (r: &'static str) {
        match self {
            AdvancedFilterField::DateFrom => "(◀/▶ or +/- days, Shift+◀/▶ months (jumps to today if empty), Digits to enter)",
            AdvancedFilterField::DateTo => "(◀/▶ or +/- days, Shift+◀/▶ months (jumps to today if empty), Digits to enter)",
            AdvancedFilterField::Description => "",
            AdvancedFilterField::Category => "(Enter to select)",
            AdvancedFilterField::Subcategory => "(Enter to select)",
            AdvancedFilterField::TransactionType => "(◀/▶)",
            AdvancedFilterField::Recurring => "(◀/▶)",
            AdvancedFilterField::AmountFrom => "",
            AdvancedFilterField::AmountTo => "",
        }
    }
}

/// The fields of the category editor.
#[derive(Debug, Clone, Copy, PartialEq, Eq, Structural)]
pub enum CategoryEditField {
    TransactionType,
    Category,
    Subcategory,
    Tag,
    TargetBudget,
}

impl FieldKey for CategoryEditField {
    open spec fn field_count() -> nat {
        5
    }

    open spec fn position(self) -> nat {
        match self {
            CategoryEditField::TransactionType => 0,
            CategoryEditField::Category => 1,
            CategoryEditField::Subcategory => 2,
            CategoryEditField::Tag => 3,
            CategoryEditField::TargetBudget => 4,
        }
    }

    open spec fn at(i: nat) -> Self {
        if i == 0 {
            CategoryEditField::TransactionType
        } else if i == 1 {
            CategoryEditField::Category
        } else if i == 2 {
            CategoryEditField::Subcategory
        } else if i == 3 {
            CategoryEditField::Tag
        } else {
            CategoryEditField::TargetBudget
        }
    }

    open spec fn kind_of(self) -> FieldKind {
        match self {
            CategoryEditField::TransactionType => FieldKind::Toggle,
            CategoryEditField::Category => FieldKind::Text,
            CategoryEditField::Subcategory => FieldKind::Text,
            CategoryEditField::Tag => FieldKind::Text,
            CategoryEditField::TargetBudget => FieldKind::Amount,
        }
    }

    open spec fn label_text(self) -> Seq<char> {
        match self {
            CategoryEditField::TransactionType => "Transaction Type"@,
            CategoryEditField::Category => "Category"@,
            CategoryEditField::Subcategory => "Subcategory"@,
            CategoryEditField::Tag => "Tag"@,
            CategoryEditField::TargetBudget => "Target Budget"@,
        }
    }

    open spec fn hint_text(self) -> Seq<char> {
        match self {
            CategoryEditField::TransactionType => "(Left/Right or Enter to toggle)"@,
            CategoryEditField::Category => ""@,
            CategoryEditField::Subcategory => "(Optional)"@,
            CategoryEditField::Tag => "(Optional)"@,
            CategoryEditField::TargetBudget => "(Optional, positive number)"@,
        }
    }

    proof fn lemma_layout() {
    }

    fn all() -> (r: Vec<Self>) {
        vec![CategoryEditField::TransactionType, CategoryEditField::Category, CategoryEditField::Subcategory, CategoryEditField::Tag, CategoryEditField::TargetBudget]
    }

    fn index(self) -> (r: usize) {
        match self {
            CategoryEditField::TransactionType => 0,
            CategoryEditField::Category => 1,
            CategoryEditField::Subcategory => 2,
            CategoryEditField::Tag => 3,
            CategoryEditField::TargetBudget => 4,
        }
    }

    fn kind(self) -> (r: FieldKind) {
        match self {
            CategoryEditField::TransactionType => FieldKind::Toggle,
            CategoryEditField::Category => FieldKind::Text,
            CategoryEditField::Subcategory => FieldKind::Text,
            CategoryEditField::Tag => FieldKind::Text,
            CategoryEditField::TargetBudget => FieldKind::Amount,
        }
    }

    fn label(self) -> (r: &'static str) {
        match self {
            CategoryEditField::TransactionType => "Transaction Type",
            CategoryEditField::Category => "Category",
            CategoryEditField::Subcategory => "Subcategory",
            CategoryEditField::Tag => "Tag",
            CategoryEditField::TargetBudget => "Target Budget",
        }
    }

    fn hint(self) -> (r: &'static str) {
        match self {
            CategoryEditField::TransactionType => "(Left/Right or Enter to toggle)",
            CategoryEditField::Category => "",
            CategoryEditField::Subcategory => "(Optional)",
            CategoryEditField::Tag => "(Optional)",
            CategoryEditField::TargetBudget => "(Optional, positive number)",
        }
    }
}

/// The fields of the recurring-settings form.
#[derive(Debug, Clone, Copy, PartialEq, Eq, Structural)]
pub enum RecurringField {
    IsRecurring,
    Frequency,
    EndDate,
}

impl FieldKey for RecurringField {
    open spec fn field_count() -> nat {
        3
    }

    open spec fn position(self) -> nat {
        match self {
            RecurringField::IsRecurring => 0,
            RecurringField::Frequency => 1,
            RecurringField::EndDate => 2,
        }
    }

    open spec fn at(i: nat) -> Self {
        if i == 0 {
            RecurringField::IsRecurring
        } else if i == 1 {
            RecurringField::Frequency
        } else {
            RecurringField::EndDate
        }
    }

    open spec fn kind_of(self) -> FieldKind {
        match self {
            RecurringField::IsRecurring => FieldKind::Toggle,
            RecurringField::Frequency => FieldKind::Selection,
            RecurringField::EndDate => FieldKind::Date,
        }
    }

    open spec fn label_text(self) -> Seq<char> {
        match self {
            RecurringField::IsRecurring => "Is Recurring"@,
            RecurringField::Frequency => "Frequency"@,
            RecurringField::EndDate => "End Date (YYYY-MM-DD)"@,
        }
    }

    open spec fn hint_text(self) -> Seq<char> {
        match self {
            RecurringField::IsRecurring => "(◀/▶ to toggle)"@,
            RecurringField::Frequency => "(Enter to select)"@,
            RecurringField::EndDate => "(Optional - ◀/▶ days, Shift+◀/▶ months, jumps to today if empty)"@,
        }
    }

    proof fn lemma_layout() {
    }

    fn all() -> (r: Vec<Self>) {
        vec![RecurringField::IsRecurring, RecurringField::Frequency, RecurringField::EndDate]
    }

    fn index(self) -> (r: usize) {
        match self {
            RecurringField::IsRecurring => 0,
            RecurringField::Frequency => 1,
            RecurringField::EndDate => 2,
        }
    }

    fn kind(self) -> (r: FieldKind) {
        match self {
            RecurringField::IsRecurring => FieldKind::Toggle,
            RecurringField::Frequency => FieldKind::Selection,
            RecurringField::EndDate => FieldKind::Date,
        }
    }

    fn label(self) -> (r: &'static str) {
        match self {
            RecurringField::IsRecurring => "Is Recurring",
            RecurringField::Frequency => "Frequency",
            RecurringField::EndDate => "End Date (YYYY-MM-DD)",
        }
    }

    fn hint(self) -> (r: &'static str) {
        match self {
            RecurringField::IsRecurring => "(◀/▶ to toggle)",
            RecurringField::Frequency => "(Enter to select)",
            RecurringField::EndDate => "(Optional - ◀/▶ days, Shift+◀/▶ months, jumps to today if empty)",
        }
    }
}

/// Which form a category picker was opened from. The two forms have separate field sets, so a
/// shared index could send the picked value back to the wrong one.
#[derive(Debug, Clone, Copy, PartialEq, Eq, Structural)]
pub enum SelectingField {
    AddEdit(AddEditField),
    AdvancedFilter(AdvancedFilterField),
}

impl SelectingField {
    /// The add/edit field the picker writes to, if it was opened from that form.
    pub fn add_edit(self) -> (r: Option<AddEditField>)
        ensures
            r == (match self {
                SelectingField::AddEdit(f) => Some(f),
                SelectingField::AdvancedFilter(_) => None,
            }),
    {
        match self {
            SelectingField::AddEdit(field) => Some(field),
            SelectingField::AdvancedFilter(_) => None,
        }
    }

    /// The filter field the picker writes to, if it was opened from the advanced filter.
    pub fn advanced_filter(self) -> (r: Option<AdvancedFilterField>)
        ensures
            r == (match self {
                SelectingField::AdvancedFilter(f) => Some(f),
                SelectingField::AddEdit(_) => None,
            }),
    {
        match self {
            SelectingField::AdvancedFilter(field) => Some(field),
            SelectingField::AddEdit(_) => None,
        }
    }
}

} // verus!
