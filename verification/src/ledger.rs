//! Ledgers: independent sets of transactions within one database file. Naming rules, which
//! ledger is active, the suggested name of a copy, and the ledger manager's messages.
use crate::budget_view::{decimal_digits, int_text, integer_text, nat_text};
use crate::date_input::{all_digits, digits_number, is_digit_char, parse_integer};
use crate::text::{
    copy_str, eq_ignore_ascii_case_spec, text_eq_ignore_ascii_case, trim, trim_spec, chars_of,
};
use vstd::prelude::*;

verus! {

/// The ledger every transaction from before ledgers existed belongs to.
pub const DEFAULT_LEDGER_ID: i64 = 1;

/// The name of the ledger created when there is none.
pub const DEFAULT_LEDGER_NAME: &'static str = "Main";

/// The metadata key under which the active ledger's id is stored.
pub const ACTIVE_LEDGER_KEY: &'static str = "active_ledger_id";

#[derive(Debug, Clone, PartialEq, Eq)]
pub struct LedgerRecord {
    pub id: i64,
    pub name: String,
    pub position: i64,
}

/// The ledgers, in display order, and the id of the active one.
#[derive(Debug, Clone)]
pub struct LedgerSelection {
    pub ledgers: Vec<LedgerRecord>,
    pub active_id: i64,
}

/// Why a ledger name was refused.
#[derive(Debug, Clone, Copy, PartialEq, Eq, Structural)]
pub enum LedgerNameError {
    Empty,
}

impl LedgerNameError {
    pub fn message(&self) -> (r: &'static str)
        ensures
            r@ == "Ledger name cannot be empty."@,
    {
        "Ledger name cannot be empty."
    }
}

/// A ledger name is stored trimmed, and cannot be blank.
pub fn validate_name(name: &str) -> (r: Result<String, LedgerNameError>)
    ensures
        match r {
            Ok(s) => s@ == trim_spec(name@) && s@.len() > 0,
            Err(e) => e == LedgerNameError::Empty && trim_spec(name@).len() == 0,
        },
{
    let trimmed = trim(name);
    if trimmed.as_str().unicode_len() == 0 {
        Err(LedgerNameError::Empty)
    } else {
        Ok(trimmed)
    }
}

/// What `str::parse::<i64>` gives: the number an optional sign and decimal digits write, when
/// it fits.
pub open spec fn parse_i64_spec(s: Seq<char>) -> Option<i64> {
    match parse_integer(s, true) {
        Some(n) => if i64::MIN <= n <= i64::MAX {
            Some(n as i64)
        } else {
            None
        },
        None => None,
    }
}

proof fn lemma_digits_nonneg(s: Seq<char>)
    ensures
        digits_number(s) >= 0,
    decreases s.len(),
{
    if s.len() > 0 {
        lemma_digits_nonneg(s.drop_last());
    }
}

proof fn lemma_digits_grow(s: Seq<char>, n: int)
    requires
        0 <= n <= s.len(),
    ensures
        digits_number(s.take(n)) <= digits_number(s) || !all_digits(s),
    decreases s.len() - n,
{
    if n < s.len() {
        lemma_digits_grow(s, n + 1);
        assert(s.take(n + 1).drop_last() =~= s.take(n));
        lemma_digits_nonneg(s.take(n));
        if all_digits(s) {
            assert(is_digit_char(s[n]));
        }
    } else {
        assert(s.take(n) =~= s);
    }
}

/// The value of the digits `v[from..]` as a magnitude that fits `i64` once signed (at most
/// 2^63), or `None` when a character is not a digit or the value is larger.
fn digits_magnitude(v: &Vec<char>, from: usize) -> (r: Option<u64>)
    requires
        from <= v@.len(),
    ensures
        ({
            let s = v@.subrange(from as int, v@.len() as int);
            &&& r matches Some(m) ==> all_digits(s) && m == digits_number(s) && m <= 0x8000_0000_0000_0000
            &&& r is None ==> !all_digits(s) || digits_number(s) > 0x8000_0000_0000_0000
        }),
{
    let ghost s = v@.subrange(from as int, v@.len() as int);
    let mut value: u64 = 0;
    let mut k: usize = from;
    while k < v.len()
        invariant
            from <= k <= v@.len(),
            s == v@.subrange(from as int, v@.len() as int),
            s.take(k - from) == v@.subrange(from as int, k as int),
            all_digits(v@.subrange(from as int, k as int)),
            value == digits_number(v@.subrange(from as int, k as int)),
            value <= 0x8000_0000_0000_0000,
        decreases v@.len() - k,
    {
        let ghost prefix = v@.subrange(from as int, k as int);
        let ghost next = v@.subrange(from as int, k + 1);
        proof {
            assert(next.drop_last() =~= prefix);
            assert(next.last() == v@[k as int]);
            assert(s.take(k + 1 - from) =~= next);
        }
        let c = v[k];
        if !('0' <= c && c <= '9') {
            proof {
                assert(s[k - from] == c);
            }
            return None;
        }
        let d = (c as u64) - ('0' as u64);
        if value > (0x8000_0000_0000_0000u64 - d) / 10 {
            proof {
                assert(digits_number(next) == value * 10 + d);
                assert(digits_number(next) > 0x8000_0000_0000_0000) by (nonlinear_arith)
                    requires
                        value > (0x8000_0000_0000_0000 - d) / 10,
                        d <= 9,
                        digits_number(next) == value * 10 + d,
                ;
                lemma_digits_grow(s, k + 1 - from);
            }
            return None;
        }
        proof {
            assert(value * 10 + d <= 0x8000_0000_0000_0000) by (nonlinear_arith)
                requires
                    value <= (0x8000_0000_0000_0000 - d) / 10,
                    d <= 9,
            ;
        }
        value = value * 10 + d;
        k = k + 1;
    }
    proof {
        assert(v@.subrange(from as int, k as int) =~= s);
    }
    Some(value)
}

/// `str::parse::<i64>`: an optional `+` or `-` and then decimal digits, within range.
pub fn parse_i64(text: &str) -> (r: Option<i64>)
    ensures
        r == parse_i64_spec(text@),
{
    let v = chars_of(text);
    let ghost s = text@;
    if v.len() > 0 && (v[0] == '+' || v[0] == '-') {
        let negative = v[0] == '-';
        proof {
            assert(s.subrange(1, s.len() as int) =~= v@.subrange(1, v@.len() as int));
        }
        if v.len() == 1 {
            return None;
        }
        match digits_magnitude(&v, 1) {
            Some(m) => {
                if negative {
                    if m == 0x8000_0000_0000_0000u64 {
                        Some(i64::MIN)
                    } else {
                        Some(-(m as i64))
                    }
                } else if m <= 0x7fff_ffff_ffff_ffffu64 {
                    Some(m as i64)
                } else {
                    None
                }
            },
            None => None,
        }
    } else {
        proof {
            assert(s.subrange(0, s.len() as int) =~= s);
        }
        if v.len() == 0 {
            return None;
        }
        match digits_magnitude(&v, 0) {
            Some(m) => if m <= 0x7fff_ffff_ffff_ffffu64 {
                Some(m as i64)
            } else {
                None
            },
            None => None,
        }
    }
}

/// The active ledger: the stored one if it still exists, otherwise the first ledger, in which
/// case the stored selection needs repairing.
pub open spec fn active_choice(ledgers: Seq<LedgerRecord>, stored: Option<i64>) -> (i64, bool) {
    match stored {
        Some(id) => if exists|i: int| 0 <= i < ledgers.len() && #[trigger] ledgers[i].id == id {
            (id, false)
        } else {
            (ledgers[0].id, true)
        },
        None => (ledgers[0].id, true),
    }
}

/// Picks the active ledger from the ledgers and the stored setting (its text, if any, is
/// read as a trimmed integer); also says whether the stored setting must be rewritten.
pub fn choose_active_ledger(ledgers: &[LedgerRecord], stored: Option<&str>) -> (r: (i64, bool))
    requires
        ledgers@.len() > 0,
    ensures
        r == active_choice(
            ledgers@,
            match stored {
                Some(text) => parse_i64_spec(trim_spec(text@)),
                None => None,
            },
        ),
{
    let stored_id = match stored {
        Some(text) => {
            let t = trim(text);
            parse_i64(t.as_str())
        },
        None => None,
    };
    let ghost sid = match stored {
        Some(text) => parse_i64_spec(trim_spec(text@)),
        None => None,
    };
    assert(stored_id == sid);
    match stored_id {
        Some(id) => {
            let mut i: usize = 0;
            while i < ledgers.len()
                invariant
                    sid == Some(id),
                    sid == (match stored {
                        Some(text) => parse_i64_spec(trim_spec(text@)),
                        None => None,
                    }),
                    i <= ledgers@.len(),
                    forall|j: int| 0 <= j < i ==> ledgers@[j].id != id,
                decreases ledgers@.len() - i,
            {
                if ledgers[i].id == id {
                    assert(ledgers@[i as int].id == id);
                    return (id, false);
                }
                i = i + 1;
            }
            (ledgers[0].id, true)
        },
        None => (ledgers[0].id, true),
    }
}

/// The position of the ledger with id `id`, or the first position.
pub fn ledger_row_of(ledgers: &[LedgerRecord], id: i64) -> (r: usize)
    ensures
        (exists|i: int| 0 <= i < ledgers@.len() && ledgers@[i].id == id) ==> r < ledgers@.len()
            && ledgers@[r as int].id == id && forall|j: int| 0 <= j < r ==> ledgers@[j].id != id,
        !(exists|i: int| 0 <= i < ledgers@.len() && ledgers@[i].id == id) ==> r == 0,
{
    let mut i: usize = 0;
    while i < ledgers.len()
        invariant
            i <= ledgers@.len(),
            forall|j: int| 0 <= j < i ==> ledgers@[j].id != id,
        decreases ledgers@.len() - i,
    {
        if ledgers[i].id == id {
            return i;
        }
        i = i + 1;
    }
    0
}

/// The `n`-th name suggested for a copy of `base`: "base (copy)", then "base (copy 2)",
/// "base (copy 3)" and so on.
pub open spec fn copy_candidate(base: Seq<char>, n: nat) -> Seq<char> {
    if n <= 1 {
        base + " (copy)"@
    } else {
        base + " (copy "@ + decimal_digits(n) + ")"@
    }
}

/// Some ledger already has the name, ignoring ASCII case.
pub open spec fn name_taken(names: Seq<LedgerRecord>, candidate: Seq<char>) -> bool {
    exists|i: int| 0 <= i < names.len() && eq_ignore_ascii_case_spec(#[trigger] names[i].name@, candidate)
}

fn is_taken(ledgers: &[LedgerRecord], candidate: &str) -> (r: bool)
    ensures
        r == name_taken(ledgers@, candidate@),
{
    let mut i: usize = 0;
    while i < ledgers.len()
        invariant
            i <= ledgers@.len(),
            forall|j: int| 0 <= j < i ==> !eq_ignore_ascii_case_spec(#[trigger] ledgers@[j].name@, candidate@),
        decreases ledgers@.len() - i,
    {
        if text_eq_ignore_ascii_case(ledgers[i].name.as_str(), candidate) {
            return true;
        }
        i = i + 1;
    }
    false
}

fn candidate_text(base: &str, n: u128) -> (r: String)
    ensures
        r@ == copy_candidate(base@, n as nat),
{
    let mut s = copy_str(base);
    if n <= 1 {
        s.append(" (copy)");
    } else {
        s.append(" (copy ");
        let digits = nat_text(n);
        s.append(digits.as_str());
        s.append(")");
    }
    s
}

/// The name suggested for a copy of the ledger named `base`: the first candidate no ledger
/// has (ignoring ASCII case), trying one more candidate than there are ledgers.
pub fn unique_copy_name(ledgers: &[LedgerRecord], base: &str) -> (r: String)
    ensures
        (exists|n: nat| 1 <= n <= ledgers@.len() + 1 && !name_taken(ledgers@, copy_candidate(base@, n)))
            ==> exists|n: nat|
            1 <= n <= ledgers@.len() + 1 && r@ == copy_candidate(base@, n) && !name_taken(
                ledgers@,
                copy_candidate(base@, n),
            ) && forall|m: nat| 1 <= m < n ==> name_taken(ledgers@, #[trigger] copy_candidate(base@, m)),
        (forall|n: nat| 1 <= n <= ledgers@.len() + 1 ==> name_taken(ledgers@, #[trigger] copy_candidate(base@, n)))
            ==> r@ == copy_candidate(base@, 1),
{
    let first = candidate_text(base, 1);
    if !is_taken(ledgers, first.as_str()) {
        return first;
    }
    let mut k: usize = 0;
    while k < ledgers.len()
        invariant
            k <= ledgers@.len(),
            first@ == copy_candidate(base@, 1),
            forall|m: nat| 1 <= m < k + 2 ==> name_taken(ledgers@, #[trigger] copy_candidate(base@, m)),
        decreases ledgers@.len() - k,
    {
        let candidate = candidate_text(base, k as u128 + 2);
        if !is_taken(ledgers, candidate.as_str()) {
            return candidate;
        }
        k = k + 1;
    }
    first
}

/// The prompt before a ledger is deleted.
pub open spec fn delete_prompt_text(name: Seq<char>, count: int) -> Seq<char> {
    "Delete '"@ + name + "' and its "@ + integer_text(count) + " transaction"@ + (if count == 1 {
        "? (y/n)"@
    } else {
        "s? (y/n)"@
    })
}

pub fn ledger_delete_prompt(name: &str, count: i64) -> (r: String)
    requires
        count > i64::MIN,
    ensures
        r@ == delete_prompt_text(name@, count as int),
{
    let mut s = copy_str("Delete '");
    s.append(name);
    s.append("' and its ");
    let n = int_text(count);
    s.append(n.as_str());
    s.append(" transaction");
    if count == 1 {
        s.append("? (y/n)");
    } else {
        s.append("s? (y/n)");
    }
    s
}

/// What the ledger editor saved.
#[derive(Debug, Clone, Copy, PartialEq, Eq, Structural)]
pub enum LedgerSave {
    Renamed,
    Copied,
    Created,
}

pub open spec fn ledger_saved_text(kind: LedgerSave, name: Seq<char>) -> Seq<char> {
    match kind {
        LedgerSave::Renamed => "Ledger renamed to '"@ + name + "'."@,
        LedgerSave::Copied => "Ledger copied to '"@ + name + "'. Press Enter to switch to it."@,
        LedgerSave::Created => "Ledger '"@ + name + "' created. Press Enter to switch to it."@,
    }
}

/// The status line after the ledger editor saved.
pub fn ledger_saved_message(kind: LedgerSave, name: &str) -> (r: String)
    ensures
        r@ == ledger_saved_text(kind, name@),
{
    match kind {
        LedgerSave::Renamed => {
            let mut s = copy_str("Ledger renamed to '");
            s.append(name);
            s.append("'.");
            s
        },
        LedgerSave::Copied => {
            let mut s = copy_str("Ledger copied to '");
            s.append(name);
            s.append("'. Press Enter to switch to it.");
            s
        },
        LedgerSave::Created => {
            let mut s = copy_str("Ledger '");
            s.append(name);
            s.append("' created. Press Enter to switch to it.");
            s
        },
    }
}

/// Why a ledger was not deleted.
#[derive(Debug, Clone, Copy, PartialEq, Eq, Structural)]
pub enum LedgerDeleteError {
    /// It is the only ledger left.
    LastLedger,
}

impl LedgerDeleteError {
    pub fn message(&self) -> (r: &'static str)
        ensures
            r@ == "At least one ledger must remain."@,
    {
        "At least one ledger must remain."
    }
}

/// A ledger may be deleted only while another one remains: with `remaining` ledgers stored,
/// the delete is refused exactly when there is at most one.
pub fn check_ledger_delete(remaining: i64) -> (r: Result<(), LedgerDeleteError>)
    ensures
        r is Err <==> remaining <= 1,
        r matches Err(e) ==> e == LedgerDeleteError::LastLedger,
{
    if remaining <= 1 {
        Err(LedgerDeleteError::LastLedger)
    } else {
        Ok(())
    }
}

} // verus!
