//! Money amounts as the parts of a `rust_decimal::Decimal` (mantissa and scale), so the ledger
//! logic can hold them as plain values. Parsing, addition and printing stay with
//! `rust_decimal`.
use rust_decimal::Decimal;
use std::str::FromStr;
use vstd::arithmetic::power::pow;
use vstd::prelude::*;

verus! {

/// Largest mantissa magnitude a `Decimal` holds (2^96 - 1).
pub const MAX_MANTISSA: i128 = 0xFFFF_FFFF_FFFF_FFFF_FFFF_FFFF;

/// Largest scale (digits after the point) a `Decimal` holds.
pub const MAX_SCALE: u32 = 28;

/// The decimal number `mantissa / 10^scale`.
#[derive(Clone, Copy, Debug, PartialEq, Eq, Structural)]
pub struct Amount {
    pub mantissa: i128,
    pub scale: u32,
}

/// The parts describe a value a `Decimal` can hold.
pub open spec fn amount_wf(a: Amount) -> bool {
    &&& -MAX_MANTISSA <= a.mantissa <= MAX_MANTISSA
    &&& a.scale <= MAX_SCALE
}

/// `a < b` as numbers: compare `ma / 10^sa` with `mb / 10^sb` by cross-multiplying.
pub open spec fn amount_less(a: Amount, b: Amount) -> bool {
    a.mantissa * pow(10, b.scale as nat) < b.mantissa * pow(10, a.scale as nat)
}

/// The amount zero (`Decimal::ZERO`).
pub open spec fn zero_amount() -> Amount {
    Amount { mantissa: 0, scale: 0 }
}

/// What `Decimal::from_str` returns for a text (`None` for an error).
pub uninterp spec fn decimal_parse(text: Seq<char>) -> Option<Amount>;

/// What `Decimal::checked_add` returns for two amounts (`None` on overflow).
pub uninterp spec fn decimal_checked_add(a: Amount, b: Amount) -> Option<Amount>;

/// What `format!("{:.2}", d)` prints for an amount.
pub uninterp spec fn decimal_text_2dp(a: Amount) -> Seq<char>;

/// Sum of a sequence of amounts, added left to right from zero with `Decimal::checked_add`;
/// `None` as soon as one addition overflows.
pub open spec fn sum_amounts(s: Seq<Amount>) -> Option<Amount>
    decreases s.len(),
{
    if s.len() == 0 {
        Some(zero_amount())
    } else {
        match sum_amounts(s.drop_last()) {
            Some(total) => decimal_checked_add(total, s.last()),
            None => None,
        }
    }
}

/// The amount zero.
pub fn zero() -> (r: Amount)
    ensures
        r == zero_amount(),
        amount_wf(r),
{
    Amount { mantissa: 0, scale: 0 }
}

/// `Decimal::from_str`: parses a decimal number.
#[verifier::external_body]
pub(crate) fn parse_amount(text: &str) -> (r: Option<Amount>)
    ensures
        r == decimal_parse(text@),
        r matches Some(a) ==> amount_wf(a),
{
    match Decimal::from_str(text) {
        Ok(d) => Some(Amount { mantissa: d.mantissa(), scale: d.scale() }),
        Err(_) => None,
    }
}

/// `Decimal::checked_add`: the sum, or `None` when it does not fit.
#[verifier::external_body]
pub(crate) fn checked_add(a: Amount, b: Amount) -> (r: Option<Amount>)
    requires
        amount_wf(a),
        amount_wf(b),
    ensures
        r == decimal_checked_add(a, b),
        r matches Some(s) ==> amount_wf(s),
{
    let x = Decimal::from_i128_with_scale(a.mantissa, a.scale);
    let y = Decimal::from_i128_with_scale(b.mantissa, b.scale);
    match x.checked_add(y) {
        Some(d) => Some(Amount { mantissa: d.mantissa(), scale: d.scale() }),
        None => None,
    }
}

/// `Decimal`'s `<`, which orders by numeric value.
#[verifier::external_body]
pub(crate) fn less_than(a: Amount, b: Amount) -> (r: bool)
    requires
        amount_wf(a),
        amount_wf(b),
    ensures
        r == amount_less(a, b),
{
    Decimal::from_i128_with_scale(a.mantissa, a.scale) < Decimal::from_i128_with_scale(
        b.mantissa,
        b.scale,
    )
}

/// `format!("{:.2}", d)`: the amount printed with two decimals.
#[verifier::external_body]
pub(crate) fn format_2dp(a: Amount) -> (r: String)
    requires
        amount_wf(a),
    ensures
        r@ == decimal_text_2dp(a),
{
    format!("{:.2}", Decimal::from_i128_with_scale(a.mantissa, a.scale))
}

/// Adds up `amounts` from left to right; `None` when an addition overflows (where a plain
/// `Decimal` sum would panic).
pub fn sum(amounts: &Vec<Amount>) -> (r: Option<Amount>)
    requires
        forall|i: int| 0 <= i < amounts.len() ==> amount_wf(#[trigger] amounts[i]),
    ensures
        r == sum_amounts(amounts@),
        r matches Some(t) ==> amount_wf(t),
{
    let mut total = zero();
    let mut i: usize = 0;
    while i < amounts.len()
        invariant
            i <= amounts.len(),
            forall|j: int| 0 <= j < amounts.len() ==> amount_wf(#[trigger] amounts[j]),
            sum_amounts(amounts@.take(i as int)) == Some(total),
            amount_wf(total),
        decreases amounts.len() - i,
    {
        assert(amounts@.take(i + 1).drop_last() == amounts@.take(i as int));
        match checked_add(total, amounts[i]) {
            Some(t) => {
                total = t;
            },
            None => {
                proof {
                    lemma_sum_none_extends(amounts@, (i + 1) as int);
                }
                return None;
            },
        }
        i = i + 1;
    }
    assert(amounts@.take(amounts.len() as int) == amounts@);
    Some(total)
}

/// Once a prefix overflows, every longer prefix does too.
pub proof fn lemma_sum_none_extends(s: Seq<Amount>, k: int)
    requires
        0 <= k <= s.len(),
        sum_amounts(s.take(k)) is None,
    ensures
        sum_amounts(s) is None,
    decreases s.len() - k,
{
    if k < s.len() {
        assert(s.take(k + 1).drop_last() == s.take(k));
        lemma_sum_none_extends(s, k + 1);
    } else {
        assert(s.take(k) == s);
    }
}

proof fn lemma_cross_order(am: int, bm: int, cm: int, pa: int, pb: int, pc: int)
    by (nonlinear_arith)
    requires
        pa > 0,
        pb > 0,
        pc > 0,
        am * pb >= bm * pa,
        bm * pc >= cm * pb,
    ensures
        am * pc >= cm * pa,
{
    assert(am * pb * pc >= bm * pa * pc);
    assert(bm * pc * pa >= cm * pb * pa);
    assert(pb * (am * pc - cm * pa) >= 0);
}

/// `Decimal`'s order by value is a strict order whose "not less" is transitive, as a sort key
/// needs.
pub proof fn lemma_amount_order(a: Amount, b: Amount, c: Amount)
    ensures
        amount_less(a, b) ==> !amount_less(b, a),
        !amount_less(a, b) && !amount_less(b, c) ==> !amount_less(a, c),
{
    let pa = pow(10, a.scale as nat);
    let pb = pow(10, b.scale as nat);
    let pc = pow(10, c.scale as nat);
    vstd::arithmetic::power::lemma_pow_positive(10, a.scale as nat);
    vstd::arithmetic::power::lemma_pow_positive(10, b.scale as nat);
    vstd::arithmetic::power::lemma_pow_positive(10, c.scale as nat);
    if !amount_less(a, b) && !amount_less(b, c) {
        lemma_cross_order(a.mantissa as int, b.mantissa as int, c.mantissa as int, pa, pb, pc);
    }
}

} // verus!
