//! Fixed-point arithmetic of the risk model: funding payments, collateral
//! updates and per-position valuation, all overflow-checked. An out-of-range
//! intermediate is reported as `MathError::Overflow`, never a panic.

use vstd::prelude::*;
use vstd::arithmetic::div_mod::{lemma_div_nonincreasing, lemma_div_pos_is_pos};
use crate::model::{Amm, MarketPosition, MathError};

verus! {

/// Scale of the cumulative funding rates: one fractional digit of fixed point.
pub const FUNDING_PAYMENT_PRECISION: i128 = 10;

/// Internal (funding/base) amounts carry one more fractional digit than
/// collateral amounts.
pub const AMM_TO_QUOTE_PRECISION_RATIO: u128 = 10;

/// Margin ratios are expressed in basis points.
pub const MARGIN_PRECISION: u128 = 10_000;

pub open spec fn iabs(x: int) -> int {
    if x < 0 {
        -x
    } else {
        x
    }
}

/// Integer division truncating toward zero, for a positive divisor.
pub open spec fn div_trunc(x: int, d: int) -> int {
    if x >= 0 {
        x / d
    } else {
        -((-x) / d)
    }
}

/// How far the market's cumulative funding rate has moved past the position's
/// stored checkpoint.
pub open spec fn funding_rate_delta(amm_rate: i128, p: MarketPosition) -> int {
    amm_rate - p.last_cumulative_funding_rate
}

/// The funding payment owed for an unsettled rate delta, at internal
/// precision. The sign convention is that a rising cumulative rate charges
/// longs and pays shorts: the payment is the negated product of rate delta
/// and exposure, scaled down by `FUNDING_PAYMENT_PRECISION`.
pub open spec fn funding_payment_spec(amm_rate: i128, p: MarketPosition) -> int {
    div_trunc(
        -(funding_rate_delta(amm_rate, p) * p.base_asset_amount),
        FUNDING_PAYMENT_PRECISION as int,
    )
}

/// The funding-payment computation stays in signed-128-bit range.
pub open spec fn funding_payment_ok(amm_rate: i128, p: MarketPosition) -> bool {
    let delta = funding_rate_delta(amm_rate, p);
    &&& i128::MIN <= delta <= i128::MAX
    &&& i128::MIN <= delta * p.base_asset_amount <= i128::MAX
    &&& -(delta * p.base_asset_amount) <= i128::MAX
}

/// Truncating division by a positive divisor keeps a value within any range
/// around zero that contained it.
pub proof fn lemma_div_trunc_bounds(x: int, d: int)
    requires
        1 <= d,
    ensures
        x >= 0 ==> 0 <= div_trunc(x, d) <= x,
        x < 0 ==> x <= div_trunc(x, d) <= 0,
{
    if x >= 0 {
        lemma_div_pos_is_pos(x, d);
        lemma_div_nonincreasing(x, d);
    } else {
        lemma_div_pos_is_pos(-x, d);
        lemma_div_nonincreasing(-x, d);
    }
}

/// The payment owed for the delta between a market's current cumulative
/// funding rate and a position's stored checkpoint, at internal precision.
pub fn calculate_funding_payment(
    amm_cumulative_funding_rate: i128,
    market_position: &MarketPosition,
) -> (r: Result<i128, MathError>)
    ensures
        r is Ok <==> funding_payment_ok(amm_cumulative_funding_rate, *market_position),
        r matches Ok(p) ==> p == funding_payment_spec(amm_cumulative_funding_rate, *market_position),
{
    let delta = match amm_cumulative_funding_rate.checked_sub(
        market_position.last_cumulative_funding_rate,
    ) {
        Some(d) => d,
        None => {
            return Err(MathError::Overflow);
        },
    };
    let product = match delta.checked_mul(market_position.base_asset_amount) {
        Some(p) => p,
        None => {
            return Err(MathError::Overflow);
        },
    };
    let negated = match 0i128.checked_sub(product) {
        Some(n) => n,
        None => {
            return Err(MathError::Overflow);
        },
    };
    proof {
        lemma_div_trunc_bounds(negated as int, FUNDING_PAYMENT_PRECISION as int);
    }
    match negated.checked_div(FUNDING_PAYMENT_PRECISION) {
        Some(q) => Ok(q),
        None => {
            // unreachable: the divisor is a positive constant and a truncating
            // quotient never leaves the dividend's range
            Err(MathError::Overflow)
        },
    }
}

/// A collateral balance after folding in a signed amount: saturates at zero
/// below, and is out of range above `u128::MAX`.
pub open spec fn updated_collateral_spec(collateral: u128, delta: int) -> int {
    if collateral + delta < 0 {
        0
    } else {
        collateral + delta
    }
}

pub open spec fn updated_collateral_ok(collateral: u128, delta: int) -> bool {
    collateral + delta <= u128::MAX
}

/// Applies a signed amount to an unsigned collateral balance: a deduction past
/// zero saturates at zero, a credit past `u128::MAX` is an overflow error.
pub fn calculate_updated_collateral(collateral: u128, delta: i128) -> (r: Result<u128, MathError>)
    ensures
        r is Ok <==> updated_collateral_ok(collateral, delta as int),
        r matches Ok(c) ==> c == updated_collateral_spec(collateral, delta as int),
{
    if delta >= 0 {
        match collateral.checked_add(delta as u128) {
            Some(c) => Ok(c),
            None => Err(MathError::Overflow),
        }
    } else {
        let magnitude = ((-(delta + 1)) as u128) + 1;
        assert(magnitude == -(delta as int));
        if magnitude > collateral {
            Ok(0)
        } else {
            Ok(collateral - magnitude)
        }
    }
}

/// A position's notional value at the market's current mark price, at
/// collateral precision.
pub open spec fn position_value_spec(p: MarketPosition, amm: Amm) -> int {
    iabs(p.base_asset_amount as int) * amm.mark_price / (AMM_TO_QUOTE_PRECISION_RATIO as int)
}

pub open spec fn position_value_ok(p: MarketPosition, amm: Amm) -> bool {
    iabs(p.base_asset_amount as int) * amm.mark_price <= u128::MAX
}

/// A position's unrealized P&L: its current notional value against its cost
/// basis, signed by the side of the exposure.
pub open spec fn position_pnl_spec(p: MarketPosition, amm: Amm) -> int {
    if p.base_asset_amount > 0 {
        position_value_spec(p, amm) - p.quote_asset_amount
    } else {
        p.quote_asset_amount - position_value_spec(p, amm)
    }
}

pub open spec fn position_value_and_pnl_ok(p: MarketPosition, amm: Amm) -> bool {
    &&& position_value_ok(p, amm)
    &&& iabs(position_pnl_spec(p, amm)) <= i128::MAX
}

/// The signed difference of two unsigned balances, an overflow error when it
/// leaves `-i128::MAX ..= i128::MAX`.
fn signed_diff(a: u128, b: u128) -> (r: Result<i128, MathError>)
    ensures
        r is Ok <==> iabs(a - b) <= i128::MAX,
        r matches Ok(d) ==> d == a - b,
{
    if a >= b {
        let d = a - b;
        if d > (i128::MAX as u128) {
            Err(MathError::Overflow)
        } else {
            Ok(d as i128)
        }
    } else {
        let d = b - a;
        if d > (i128::MAX as u128) {
            Err(MathError::Overflow)
        } else {
            Ok(-(d as i128))
        }
    }
}

/// A position's notional base-asset value at the current mark price, together
/// with its unrealized P&L against the stored cost basis.
pub fn calculate_base_asset_value_and_pnl(
    market_position: &MarketPosition,
    amm: &Amm,
) -> (r: Result<(u128, i128), MathError>)
    ensures
        r is Ok <==> position_value_and_pnl_ok(*market_position, *amm),
        r matches Ok(vp) ==> vp.0 == position_value_spec(*market_position, *amm)
            && vp.1 == position_pnl_spec(*market_position, *amm),
{
    let base = market_position.base_asset_amount;
    let magnitude: u128 = if base >= 0 {
        base as u128
    } else {
        ((-(base + 1)) as u128) + 1
    };
    assert(magnitude == iabs(base as int));
    let scaled = match magnitude.checked_mul(amm.mark_price) {
        Some(m) => m,
        None => {
            return Err(MathError::Overflow);
        },
    };
    let value = scaled / AMM_TO_QUOTE_PRECISION_RATIO;
    let pnl = if base > 0 {
        signed_diff(value, market_position.quote_asset_amount)
    } else {
        signed_diff(market_position.quote_asset_amount, value)
    };
    match pnl {
        Ok(p) => Ok((value, p)),
        Err(e) => Err(e),
    }
}

} // verus!
