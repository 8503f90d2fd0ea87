//! Valuation, health factor, borrow ceiling, liquidation sizing and the
//! per-position cooldown.
use vstd::prelude::*;

use crate::error::ErrorCode;
use crate::fixed::mul_div;

verus! {

/// Fixed-point scale of every ratio: 1.0 is `PRECISION`.
pub const PRECISION: u128 = 1_000_000_000_000_000_000;

/// `PRECISION` as a 64-bit factor.
pub const PRECISION_FACTOR: u64 = 1_000_000_000_000_000_000;

/// A position with a health factor below this value may be liquidated.
pub const MIN_HEALTH_FACTOR: u128 = 1_000_000_000_000_000_000;

/// Protocol-wide default liquidation threshold (0.95).
pub const LIQUIDATION_THRESHOLD: u64 = 950_000_000_000_000_000;

/// Extra share of the repaid debt's value that a liquidator receives (0.05).
pub const LIQUIDATION_BONUS: u64 = 50_000_000_000_000_000;

/// Largest loan-to-value ratio an asset may be configured with (0.75).
pub const MAX_LTV: u64 = 750_000_000_000_000_000;

/// Health factor of a position without debt.
pub const MAX_HEALTH_FACTOR: u128 = 340_282_366_920_938_463_463_374_607_431_768_211_455;

/// Scale of oracle prices: a USD quote carries eight decimals.
pub const ORACLE_SCALE: u128 = 100_000_000;

/// Decimals of the USD values that the risk engine keeps.
pub const VALUE_DECIMALS: u8 = 18;

/// Minimum number of seconds between two actions of one position owner.
pub const COOLDOWN_SECONDS: i64 = 900;

pub open spec fn pow10(n: nat) -> nat
    decreases n,
{
    if n == 0 {
        1
    } else {
        10 * pow10((n - 1) as nat)
    }
}

/// `amount * 10^(18 - decimals) * price`: the USD value before the oracle
/// scale is divided out.
pub open spec fn usd_numerator(amount: u64, price: u64, decimals: u8) -> int {
    amount * pow10((VALUE_DECIMALS - decimals) as nat) * price
}

/// Whether `amount` tokens of `decimals` decimals at `price` can be valued.
pub open spec fn usd_value_defined(amount: u64, price: u64, decimals: u8) -> bool {
    decimals <= VALUE_DECIMALS && usd_value(amount, price, decimals) <= u128::MAX
}

/// USD value, in 18 decimals, of `amount` base units of a token with
/// `decimals` decimals quoted at `price` (eight decimals).
pub open spec fn usd_value(amount: u64, price: u64, decimals: u8) -> int {
    usd_numerator(amount, price, decimals) / (ORACLE_SCALE as int)
}

/// Whether the risk-adjusted collateral value and the health factor both fit
/// in 128 bits.
pub open spec fn health_factor_defined(collateral_usd: u128, borrow_usd: u128, threshold: u64) -> bool {
    borrow_usd == 0 || (collateral_usd * threshold / (PRECISION as int) <= u128::MAX && (
    collateral_usd * threshold / (PRECISION as int)) * PRECISION / (borrow_usd as int)
        <= u128::MAX)
}

/// Risk-adjusted collateral value over debt value, scaled by `PRECISION`;
/// `MAX_HEALTH_FACTOR` when there is no debt.
pub open spec fn health_factor_of(collateral_usd: u128, borrow_usd: u128, threshold: u64) -> int {
    if borrow_usd == 0 {
        MAX_HEALTH_FACTOR as int
    } else {
        (collateral_usd * threshold / (PRECISION as int)) * PRECISION / (borrow_usd as int)
    }
}

/// Whether a cooldown started at `last` still runs at `now`.
pub open spec fn rate_limited(last: i64, now: i64) -> bool {
    last + COOLDOWN_SECONDS > now
}

/// `debt_amount * debt_price`, increased by `bonus`, in units of the
/// collateral price.
pub open spec fn seize_value(debt_amount: u64, debt_price: u64, bonus: u64) -> int {
    debt_amount * debt_price + debt_amount * debt_price * bonus / (PRECISION as int)
}

pub open spec fn seize_defined(debt_amount: u64, debt_price: u64, collateral_price: u64, bonus: u64) -> bool {
    &&& collateral_price > 0
    &&& debt_amount * debt_price * bonus / (PRECISION as int) <= u128::MAX
    &&& seize_value(debt_amount, debt_price, bonus) <= u128::MAX
    &&& seize_value(debt_amount, debt_price, bonus) / (collateral_price as int) <= u64::MAX
}

pub proof fn lemma_pow10_bound(n: nat)
    requires
        n <= 18,
    ensures
        1 <= pow10(n) <= pow10(18),
        pow10(18) == 1_000_000_000_000_000_000,
    decreases 18 - n,
{
    reveal_with_fuel(pow10, 19);
    if n < 18 {
        lemma_pow10_bound(n + 1);
    }
}

/// `10^n` for `n <= 18`.
fn pow10_u128(n: u8) -> (r: u128)
    requires
        n <= 18,
    ensures
        r == pow10(n as nat),
        r <= PRECISION,
{
    let mut r: u128 = 1;
    let mut i: u8 = 0;
    while i < n
        invariant
            i <= n <= 18,
            r == pow10(i as nat),
        decreases n - i,
    {
        proof {
            lemma_pow10_bound((i + 1) as nat);
        }
        r = r * 10;
        i = i + 1;
    }
    proof {
        lemma_pow10_bound(n as nat);
    }
    r
}

/// USD value (18 decimals) of `amount` base units of a token with `decimals`
/// decimals at the oracle quote `price` (8 decimals). Fails with
/// `InvalidAmount` when the token has more than 18 decimals or the value does
/// not fit in 128 bits.
pub fn calculate_usd_value(amount: u64, price: u64, decimals: u8) -> (r: Result<u128, ErrorCode>)
    ensures
        r is Ok <==> usd_value_defined(amount, price, decimals),
        r is Ok ==> r->Ok_0 == usd_value(amount, price, decimals),
        r is Err ==> r->Err_0 == ErrorCode::InvalidAmount,
{
    if decimals > VALUE_DECIMALS {
        return Err(ErrorCode::InvalidAmount);
    }
    let scale = pow10_u128(VALUE_DECIMALS - decimals);
    let a = amount as u128;
    assert(a * scale <= 18_446_744_073_709_551_615u128 * 1_000_000_000_000_000_000u128)
        by (nonlinear_arith)
        requires
            a <= 18_446_744_073_709_551_615u128,
            scale <= 1_000_000_000_000_000_000u128,
    ;
    let normalized = a * scale;
    match mul_div(normalized, price, ORACLE_SCALE) {
        None => Err(ErrorCode::InvalidAmount),
        Some(v) => Ok(v),
    }
}

/// Health factor of a position: `MAX_HEALTH_FACTOR` without debt, else
/// `(collateral_usd * threshold / PRECISION) * PRECISION / borrow_usd`, each
/// step exact. Fails with `MathOverflow` when the risk-adjusted collateral
/// value or the result does not fit in 128 bits.
pub fn calculate_health_factor(collateral_usd: u128, borrow_usd: u128, threshold: u64) -> (r: Result<u128, ErrorCode>)
    ensures
        borrow_usd == 0 ==> r == Ok::<u128, ErrorCode>(MAX_HEALTH_FACTOR),
        r is Ok <==> health_factor_defined(collateral_usd, borrow_usd, threshold),
        r is Ok ==> r->Ok_0 == health_factor_of(collateral_usd, borrow_usd, threshold),
        r is Err ==> r->Err_0 == ErrorCode::MathOverflow,
{
    if borrow_usd == 0 {
        return Ok(MAX_HEALTH_FACTOR);
    }
    let adjusted = match mul_div(collateral_usd, threshold, PRECISION) {
        None => return Err(ErrorCode::MathOverflow),
        Some(v) => v,
    };
    match mul_div(adjusted, PRECISION_FACTOR, borrow_usd) {
        None => Err(ErrorCode::MathOverflow),
        Some(v) => Ok(v),
    }
}

/// Largest debt value that `collateral_usd` of collateral supports at `ltv`:
/// `collateral_usd * ltv / PRECISION`.
pub fn max_borrow(collateral_usd: u128, ltv: u64) -> (r: Result<u128, ErrorCode>)
    ensures
        r is Ok <==> collateral_usd * ltv / (PRECISION as int) <= u128::MAX,
        r is Ok ==> r->Ok_0 == collateral_usd * ltv / (PRECISION as int),
        r is Err ==> r->Err_0 == ErrorCode::MathOverflow,
{
    match mul_div(collateral_usd, ltv, PRECISION) {
        None => Err(ErrorCode::MathOverflow),
        Some(v) => Ok(v),
    }
}

/// Whether a position with these values is below `MIN_HEALTH_FACTOR` when
/// its collateral is weighted by `threshold`.
pub fn is_liquidatable(collateral_usd: u128, borrow_usd: u128, threshold: u64) -> (r: Result<bool, ErrorCode>)
    ensures
        r is Ok <==> health_factor_defined(collateral_usd, borrow_usd, threshold),
        r is Ok ==> r->Ok_0 == (health_factor_of(collateral_usd, borrow_usd, threshold)
            < MIN_HEALTH_FACTOR),
        r is Err ==> r->Err_0 == ErrorCode::MathOverflow,
{
    let hf = calculate_health_factor(collateral_usd, borrow_usd, threshold)?;
    Ok(hf < MIN_HEALTH_FACTOR)
}

/// Collateral units a liquidator receives for repaying `debt_amount`:
/// the debt's value plus `bonus` of it, divided by the collateral price.
/// Fails with `InvalidAmount` on a zero collateral price or an overflow.
pub fn calculate_liquidation_amount(debt_amount: u64, debt_price: u64, collateral_price: u64, bonus: u64) -> (r: Result<u64, ErrorCode>)
    ensures
        r is Ok <==> seize_defined(debt_amount, debt_price, collateral_price, bonus),
        r is Ok ==> r->Ok_0 == seize_value(debt_amount, debt_price, bonus) / (collateral_price as int),
        r is Err ==> r->Err_0 == ErrorCode::InvalidAmount,
{
    if collateral_price == 0 {
        return Err(ErrorCode::InvalidAmount);
    }
    let d = debt_amount as u128;
    let p = debt_price as u128;
    assert(d * p <= 18_446_744_073_709_551_615u128 * 18_446_744_073_709_551_615u128)
        by (nonlinear_arith)
        requires
            d <= 18_446_744_073_709_551_615u128,
            p <= 18_446_744_073_709_551_615u128,
    ;
    let debt_value = d * p;
    let bonus_value = match mul_div(debt_value, bonus, PRECISION) {
        None => return Err(ErrorCode::InvalidAmount),
        Some(v) => v,
    };
    let total = match debt_value.checked_add(bonus_value) {
        None => return Err(ErrorCode::InvalidAmount),
        Some(v) => v,
    };
    let seized = total / (collateral_price as u128);
    if seized > u64::MAX as u128 {
        return Err(ErrorCode::InvalidAmount);
    }
    Ok(seized as u64)
}

/// Fails with `RateLimited` while the cooldown begun at `last_action` runs.
pub fn check_rate_limit(last_action: i64, now: i64) -> (r: Result<(), ErrorCode>)
    ensures
        r is Err <==> rate_limited(last_action, now),
        r is Err ==> r->Err_0 == ErrorCode::RateLimited,
{
    if (last_action as i128) + (COOLDOWN_SECONDS as i128) > now as i128 {
        Err(ErrorCode::RateLimited)
    } else {
        Ok(())
    }
}

/// Oldest oracle reading, in seconds, that an operation may value with.
pub const MAX_PRICE_AGE_SECONDS: i64 = 60;

/// Whether an oracle reading of `price` taken at `published_at` may be used
/// at `now`: a positive price, not from the future, at most
/// `MAX_PRICE_AGE_SECONDS` old.
pub open spec fn price_usable(price: u64, published_at: i64, now: i64) -> bool {
    price > 0 && published_at <= now && now - published_at <= MAX_PRICE_AGE_SECONDS
}

/// Admits an oracle reading, or fails with `InvalidPriceData`.
pub fn check_price(price: u64, published_at: i64, now: i64) -> (r: Result<u64, ErrorCode>)
    ensures
        r is Ok <==> price_usable(price, published_at, now),
        r is Ok ==> r->Ok_0 == price,
        r is Err ==> r->Err_0 == ErrorCode::InvalidPriceData,
{
    if price == 0 || published_at > now || (now as i128) - (published_at as i128)
        > MAX_PRICE_AGE_SECONDS as i128 {
        return Err(ErrorCode::InvalidPriceData);
    }
    Ok(price)
}

} // verus!
