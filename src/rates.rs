use vstd::prelude::*;
use crate::error::LoanError;
use vstd::arithmetic::div_mod::{
    lemma_div_is_ordered, lemma_div_is_ordered_by_denominator, lemma_div_plus_one,
};

verus! {

/// Seconds in a (365-day) year.
pub const SECONDS_PER_YEAR: u64 = 31_536_000;

/// Rates and ratios are whole percentage points.
pub const PERCENT: u64 = 100;

/// Fixed-point scale of the collateral price: a price of `PRICE_SCALE` means
/// one collateral unit is worth one debt unit.
pub const PRICE_SCALE: u64 = 10_000;

/// The annual rate that goes with a loan-to-value tier, or `None` when the
/// ratio is not an offered tier.
pub open spec fn apy_for_ltv(ltv: u8) -> Option<u8> {
    if ltv == 20 {
        Some(0u8)
    } else if ltv == 25 {
        Some(1u8)
    } else if ltv == 33 {
        Some(5u8)
    } else if ltv == 50 {
        Some(8u8)
    } else {
        None
    }
}

/// Looks up the annual rate of a loan-to-value tier.
pub fn ltv_to_apy(ltv: u8) -> (r: Option<u8>)
    ensures
        r == apy_for_ltv(ltv),
{
    match ltv {
        20 => Some(0),
        25 => Some(1),
        33 => Some(5),
        50 => Some(8),
        _ => None,
    }
}

/// Collateral needed for `debt` at ratio `ltv` and price `price`, computed
/// left to right with truncating division: `debt * 100 / ltv * 10_000 / price`.
/// `None` where a step overflows `u64` or divides by zero.
pub open spec fn collateral_for(debt: u64, ltv: u64, price: u64) -> Option<u64> {
    let scaled: int = debt * PERCENT;
    if scaled > u64::MAX || ltv == 0 {
        None
    } else {
        let per_ratio: int = scaled / (ltv as int);
        let priced: int = per_ratio * PRICE_SCALE;
        if priced > u64::MAX || price == 0 {
            None
        } else {
            Some((priced / (price as int)) as u64)
        }
    }
}

/// `Ok` of a computed value, or `ArithmeticOverflow` where there is none.
pub open spec fn or_overflow<T>(v: Option<T>) -> Result<T, LoanError> {
    match v {
        Some(x) => Ok(x),
        None => Err(LoanError::ArithmeticOverflow),
    }
}

/// The collateral that a loan of `debt_amount` requires at `ltv_ratio` percent
/// when one collateral unit is worth `collateral_price / PRICE_SCALE` debt units.
pub fn required_collateral(debt_amount: u64, ltv_ratio: u64, collateral_price: u64) -> (r: Result<
    u64,
    LoanError,
>)
    ensures
        r == or_overflow(collateral_for(debt_amount, ltv_ratio, collateral_price)),
{
    let scaled = match debt_amount.checked_mul(PERCENT) {
        Some(v) => v,
        None => return Err(LoanError::ArithmeticOverflow),
    };
    let per_ratio = match scaled.checked_div(ltv_ratio) {
        Some(v) => v,
        None => return Err(LoanError::ArithmeticOverflow),
    };
    let priced = match per_ratio.checked_mul(PRICE_SCALE) {
        Some(v) => v,
        None => return Err(LoanError::ArithmeticOverflow),
    };
    match priced.checked_div(collateral_price) {
        Some(v) => Ok(v),
        None => Err(LoanError::ArithmeticOverflow),
    }
}

/// Seconds from `start` to `now`, or `None` where time ran backwards or the
/// span does not fit an `i64`.
pub open spec fn elapsed_between(start: i64, now: i64) -> Option<u64> {
    if now < start || now - start > i64::MAX {
        None
    } else {
        Some((now - start) as u64)
    }
}

/// Simple interest on `principal` at `apy` percent a year over `elapsed`
/// seconds: `principal * apy * elapsed / (SECONDS_PER_YEAR * 100)`, truncated.
/// A zero rate gives zero; otherwise `None` where `principal * apy` or the
/// full product overflows `u64`.
pub open spec fn interest_for(principal: u64, apy: u8, elapsed: u64) -> Option<u64> {
    if apy == 0 {
        Some(0u64)
    } else if principal * apy > u64::MAX || principal * apy * elapsed > u64::MAX {
        None
    } else {
        Some(((principal * apy * elapsed) / (SECONDS_PER_YEAR * PERCENT) as int) as u64)
    }
}

/// Interest accrued from `start` to `now`.
pub open spec fn accrued_interest(principal: u64, apy: u8, start: i64, now: i64) -> Option<u64> {
    match elapsed_between(start, now) {
        Some(elapsed) => interest_for(principal, apy, elapsed),
        None => None,
    }
}

/// Principal plus the interest accrued from `start` to `now`.
pub open spec fn amount_owed(principal: u64, apy: u8, start: i64, now: i64) -> Option<u64> {
    match accrued_interest(principal, apy, start, now) {
        Some(interest) => if principal + interest > u64::MAX {
            None
        } else {
            Some((principal + interest) as u64)
        },
        None => None,
    }
}

/// Interest owed on `principal` at `apy_percent` a year from `start_date` to
/// `now`. Fails with `ArithmeticOverflow` when `now` is before `start_date`
/// or a product overflows.
pub fn interest_owed(principal: u64, apy_percent: u8, start_date: i64, now: i64) -> (r: Result<
    u64,
    LoanError,
>)
    ensures
        r == or_overflow(accrued_interest(principal, apy_percent, start_date, now)),
{
    let elapsed = match now.checked_sub(start_date) {
        Some(d) => d,
        None => return Err(LoanError::ArithmeticOverflow),
    };
    if elapsed < 0 {
        return Err(LoanError::ArithmeticOverflow);
    }
    let elapsed = elapsed as u64;
    if apy_percent == 0 {
        return Ok(0);
    }
    let rated = match principal.checked_mul(apy_percent as u64) {
        Some(v) => v,
        None => return Err(LoanError::ArithmeticOverflow),
    };
    let accrued = match rated.checked_mul(elapsed) {
        Some(v) => v,
        None => return Err(LoanError::ArithmeticOverflow),
    };
    Ok(accrued / (SECONDS_PER_YEAR * PERCENT))
}

/// Principal plus accrued interest, with the same failures as `interest_owed`
/// and `ArithmeticOverflow` when the sum overflows.
pub fn total_owed(principal: u64, apy_percent: u8, start_date: i64, now: i64) -> (r: Result<
    u64,
    LoanError,
>)
    ensures
        r == or_overflow(amount_owed(principal, apy_percent, start_date, now)),
{
    let interest = match interest_owed(principal, apy_percent, start_date, now) {
        Ok(i) => i,
        Err(e) => return Err(e),
    };
    match principal.checked_add(interest) {
        Some(t) => Ok(t),
        None => Err(LoanError::ArithmeticOverflow),
    }
}

/// Sizing is monotone in the debt: at a fixed ratio and price, a smaller
/// debt never needs more collateral, and it can be sized whenever the
/// larger one can. (Sizing is a function of its three inputs alone, so it
/// is also deterministic.)
pub proof fn lemma_collateral_monotone_in_debt(d1: u64, d2: u64, ltv: u64, price: u64)
    requires
        d1 <= d2,
        collateral_for(d2, ltv, price) is Some,
    ensures
        collateral_for(d1, ltv, price) is Some,
        collateral_for(d1, ltv, price)->Some_0 <= collateral_for(d2, ltv, price)->Some_0,
{
    lemma_div_is_ordered(d1 * PERCENT, d2 * PERCENT, ltv as int);
    let p1: int = (d1 * PERCENT) / (ltv as int);
    let p2: int = (d2 * PERCENT) / (ltv as int);
    lemma_div_is_ordered(p1 * PRICE_SCALE, p2 * PRICE_SCALE, price as int);
}

/// Sizing is antitone in the price: at a fixed debt and ratio, a higher
/// collateral price never needs more collateral.
pub proof fn lemma_collateral_antitone_in_price(debt: u64, ltv: u64, p1: u64, p2: u64)
    requires
        0 < p1 <= p2,
        collateral_for(debt, ltv, p1) is Some,
    ensures
        collateral_for(debt, ltv, p2) is Some,
        collateral_for(debt, ltv, p2)->Some_0 <= collateral_for(debt, ltv, p1)->Some_0,
{
    let per: int = (debt * PERCENT) / (ltv as int);
    let priced: int = per * PRICE_SCALE;
    assert(per >= 0) by {
        lemma_div_is_ordered(0, debt * PERCENT, ltv as int);
    }
    lemma_div_is_ordered_by_denominator(priced, p1 as int, p2 as int);
}

/// Sizing is strictly increasing in the debt for an offered tier (at most
/// 100 percent) whenever one collateral unit is worth at least one debt unit
/// (`price <= PRICE_SCALE`): each extra unit of debt then needs at least one
/// more unit of collateral.
pub proof fn lemma_collateral_strict_in_debt(d1: u64, d2: u64, ltv: u64, price: u64)
    requires
        d1 < d2,
        0 < ltv <= PERCENT,
        0 < price <= PRICE_SCALE,
        collateral_for(d2, ltv, price) is Some,
    ensures
        collateral_for(d1, ltv, price) is Some,
        collateral_for(d1, ltv, price)->Some_0 < collateral_for(d2, ltv, price)->Some_0,
{
    lemma_collateral_monotone_in_debt(d1, d2, ltv, price);
    let l = ltv as int;
    let s1: int = d1 * PERCENT;
    let s2: int = d2 * PERCENT;
    lemma_div_plus_one(s1, l);
    lemma_div_is_ordered(s1 + l, s2, l);
    let p1: int = s1 / l;
    let p2: int = s2 / l;
    assert(p1 + 1 <= p2);
    let q = price as int;
    lemma_div_plus_one(p1 * PRICE_SCALE, q);
    lemma_div_is_ordered(p1 * PRICE_SCALE + q, p2 * PRICE_SCALE, q);
}

} // verus!
