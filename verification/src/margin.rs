//! The risk evaluator: aggregates notional exposure and unrealized P&L over a
//! position set and computes the scalar margin ratio that drives the
//! liquidation decision.

use vstd::prelude::*;
use vstd::arithmetic::div_mod::{lemma_div_is_ordered, lemma_div_pos_is_pos};
use vstd::arithmetic::mul::{lemma_mul_inequality, lemma_mul_nonnegative};
use crate::funding::{
    settle_funding_payment, settle_ok, settled_collateral, settled_positions,
};
use crate::math::{
    calculate_base_asset_value_and_pnl, calculate_updated_collateral, position_pnl_spec,
    position_value_and_pnl_ok, position_value_spec, updated_collateral_ok,
    updated_collateral_spec, MARGIN_PRECISION,
};
use crate::model::{active, positions_valid, Market, MarketPosition, Markets, MathError, User,
    UserPositions};

verus! {

/// The market record a position is valued against.
pub open spec fn position_amm(p: MarketPosition, ms: Seq<Market>) -> crate::model::Amm {
    ms[p.market_index as int].amm
}

/// Aggregate notional value of the first `n` positions; inactive positions
/// contribute nothing.
pub open spec fn value_total_prefix(ps: Seq<MarketPosition>, ms: Seq<Market>, n: int) -> int
    decreases n,
{
    if n <= 0 {
        0
    } else {
        value_total_prefix(ps, ms, n - 1) + if active(ps[n - 1]) {
            position_value_spec(ps[n - 1], position_amm(ps[n - 1], ms))
        } else {
            0
        }
    }
}

/// Aggregate unrealized P&L of the first `n` positions.
pub open spec fn pnl_total_prefix(ps: Seq<MarketPosition>, ms: Seq<Market>, n: int) -> int
    decreases n,
{
    if n <= 0 {
        0
    } else {
        pnl_total_prefix(ps, ms, n - 1) + if active(ps[n - 1]) {
            position_pnl_spec(ps[n - 1], position_amm(ps[n - 1], ms))
        } else {
            0
        }
    }
}

/// Every per-position valuation among the first `n` positions, and every
/// partial sum, stays in its representable range.
pub open spec fn margin_prefix_ok(ps: Seq<MarketPosition>, ms: Seq<Market>, n: int) -> bool
    decreases n,
{
    if n <= 0 {
        true
    } else {
        margin_prefix_ok(ps, ms, n - 1) && (active(ps[n - 1])
            ==> position_value_and_pnl_ok(ps[n - 1], position_amm(ps[n - 1], ms))
            && value_total_prefix(ps, ms, n) <= u128::MAX && i128::MIN <= pnl_total_prefix(
            ps,
            ms,
            n,
        ) <= i128::MAX)
    }
}

/// Aggregate notional exposure of the whole position set.
pub open spec fn base_asset_value_total(ps: Seq<MarketPosition>, ms: Seq<Market>) -> int {
    value_total_prefix(ps, ms, ps.len() as int)
}

/// Aggregate unrealized P&L of the whole position set.
pub open spec fn unrealized_pnl_total(ps: Seq<MarketPosition>, ms: Seq<Market>) -> int {
    pnl_total_prefix(ps, ms, ps.len() as int)
}

/// The margin-ratio computation succeeds exactly when every aggregation step
/// and, for nonzero exposure, the collateral adjustment and the ratio's
/// numerator stay in range.
pub open spec fn margin_ok(collateral: u128, ps: Seq<MarketPosition>, ms: Seq<Market>) -> bool {
    &&& margin_prefix_ok(ps, ms, ps.len() as int)
    &&& (base_asset_value_total(ps, ms) != 0 ==> {
        &&& updated_collateral_ok(collateral, unrealized_pnl_total(ps, ms))
        &&& updated_collateral_spec(collateral, unrealized_pnl_total(ps, ms)) * MARGIN_PRECISION
            <= u128::MAX
    })
}

/// Total collateral adjusted by aggregate unrealized P&L; the sentinel maximum
/// when exposure is zero.
pub open spec fn total_collateral_spec(collateral: u128, ps: Seq<MarketPosition>, ms: Seq<Market>) -> int {
    if base_asset_value_total(ps, ms) == 0 {
        u128::MAX as int
    } else {
        updated_collateral_spec(collateral, unrealized_pnl_total(ps, ms))
    }
}

/// The margin ratio: adjusted collateral at `MARGIN_PRECISION` scale per unit
/// of notional exposure; the sentinel maximum ("infinitely solvent") when
/// exposure is zero.
pub open spec fn margin_ratio_spec(collateral: u128, ps: Seq<MarketPosition>, ms: Seq<Market>) -> int {
    if base_asset_value_total(ps, ms) == 0 {
        u128::MAX as int
    } else {
        total_collateral_spec(collateral, ps, ms) * MARGIN_PRECISION / base_asset_value_total(
            ps,
            ms,
        )
    }
}

/// A shorter in-range prefix of an in-range prefix is in range.
proof fn lemma_margin_prefix_ok_monotone(ps: Seq<MarketPosition>, ms: Seq<Market>, k: int, m: int)
    requires
        k <= m,
        margin_prefix_ok(ps, ms, m),
    ensures
        margin_prefix_ok(ps, ms, k),
    decreases m - k,
{
    if k < m {
        lemma_margin_prefix_ok_monotone(ps, ms, k, m - 1);
    }
}

/// Every notional-value prefix total is nonnegative.
proof fn lemma_value_total_nonneg(ps: Seq<MarketPosition>, ms: Seq<Market>, n: int)
    ensures
        value_total_prefix(ps, ms, n) >= 0,
    decreases n,
{
    if n > 0 {
        lemma_value_total_nonneg(ps, ms, n - 1);
        if active(ps[n - 1]) {
            let p = ps[n - 1];
            let amm = position_amm(p, ms);
            lemma_mul_nonnegative(crate::math::iabs(p.base_asset_amount as int), amm.mark_price as int);
            lemma_div_pos_is_pos(
                crate::math::iabs(p.base_asset_amount as int) * amm.mark_price,
                crate::math::AMM_TO_QUOTE_PRECISION_RATIO as int,
            );
        }
    }
}

/// Computes, for an account against the current market table: total adjusted
/// collateral, aggregate unrealized P&L, aggregate notional exposure, and the
/// margin ratio. Zero aggregate exposure yields the sentinel pair (maximum
/// collateral, maximum margin ratio) and divides by nothing.
pub fn calculate_margin_ratio(
    user: &User,
    user_positions: &UserPositions,
    markets: &Markets,
) -> (r: Result<(u128, i128, u128, u128), MathError>)
    requires
        positions_valid(user_positions.positions@, markets.markets@),
    ensures
        r is Ok <==> margin_ok(user.collateral, user_positions.positions@, markets.markets@),
        r matches Ok(t) ==> {
            &&& t.0 == total_collateral_spec(user.collateral, user_positions.positions@, markets.markets@)
            &&& t.1 == unrealized_pnl_total(user_positions.positions@, markets.markets@)
            &&& t.2 == base_asset_value_total(user_positions.positions@, markets.markets@)
            &&& t.3 == margin_ratio_spec(user.collateral, user_positions.positions@, markets.markets@)
        },
{
    let ghost ps = user_positions.positions@;
    let ghost ms = markets.markets@;
    let n = user_positions.positions.len();
    let mut base_asset_value: u128 = 0;
    let mut unrealized_pnl: i128 = 0;
    let mut i: usize = 0;
    while i < n
        invariant
            ps == user_positions.positions@,
            ms == markets.markets@,
            positions_valid(ps, ms),
            n == ps.len(),
            0 <= i <= n,
            base_asset_value == value_total_prefix(ps, ms, i as int),
            unrealized_pnl == pnl_total_prefix(ps, ms, i as int),
            margin_prefix_ok(ps, ms, i as int),
        decreases n - i,
    {
        let p = user_positions.positions[i];
        if p.base_asset_amount != 0 {
            assert(active(ps[i as int]) && (ps[i as int].market_index as int) < ms.len());
            let table_len = markets.markets.len();
            assert((p.market_index as int) < table_len as int);
            let idx = p.market_index as usize;
            let amm = &markets.markets[idx].amm;
            let (value, pnl) = match calculate_base_asset_value_and_pnl(&p, amm) {
                Ok(vp) => vp,
                Err(e) => {
                    proof {
                        assert(!margin_prefix_ok(ps, ms, i + 1));
                        if margin_prefix_ok(ps, ms, n as int) {
                            lemma_margin_prefix_ok_monotone(ps, ms, i + 1, n as int);
                        }
                    }
                    return Err(e);
                },
            };
            base_asset_value = match base_asset_value.checked_add(value) {
                Some(v) => v,
                None => {
                    proof {
                        assert(!margin_prefix_ok(ps, ms, i + 1));
                        if margin_prefix_ok(ps, ms, n as int) {
                            lemma_margin_prefix_ok_monotone(ps, ms, i + 1, n as int);
                        }
                    }
                    return Err(MathError::Overflow);
                },
            };
            unrealized_pnl = match unrealized_pnl.checked_add(pnl) {
                Some(v) => v,
                None => {
                    proof {
                        assert(!margin_prefix_ok(ps, ms, i + 1));
                        if margin_prefix_ok(ps, ms, n as int) {
                            lemma_margin_prefix_ok_monotone(ps, ms, i + 1, n as int);
                        }
                    }
                    return Err(MathError::Overflow);
                },
            };
        }
        i = i + 1;
    }
    if base_asset_value == 0 {
        Ok((u128::MAX, unrealized_pnl, 0, u128::MAX))
    } else {
        let total_collateral = match calculate_updated_collateral(user.collateral, unrealized_pnl) {
            Ok(c) => c,
            Err(e) => {
                return Err(e);
            },
        };
        let scaled = match total_collateral.checked_mul(MARGIN_PRECISION) {
            Some(s) => s,
            None => {
                return Err(MathError::Overflow);
            },
        };
        let margin_ratio = scaled / base_asset_value;
        Ok((total_collateral, unrealized_pnl, base_asset_value, margin_ratio))
    }
}

/// An account is eligible for liquidation when its margin ratio has fallen to
/// the venue's partial-margin threshold or below: the boundary is inclusive.
pub fn is_liquidatable(margin_ratio: u128, margin_ratio_partial: u128) -> (r: bool)
    ensures
        r == (margin_ratio <= margin_ratio_partial),
{
    margin_ratio <= margin_ratio_partial
}

/// With every position at zero exposure the prefix totals vanish.
proof fn lemma_inactive_prefix_zero(ps: Seq<MarketPosition>, ms: Seq<Market>, n: int)
    requires
        0 <= n <= ps.len(),
        forall|i: int| 0 <= i < ps.len() ==> !active(#[trigger] ps[i]),
    ensures
        value_total_prefix(ps, ms, n) == 0,
        pnl_total_prefix(ps, ms, n) == 0,
        margin_prefix_ok(ps, ms, n),
    decreases n,
{
    if n > 0 {
        lemma_inactive_prefix_zero(ps, ms, n - 1);
    }
}

/// Sentinel correctness: an account whose positions all carry zero exposure
/// has zero aggregate notional exposure, its evaluation always succeeds, and
/// its margin ratio is the sentinel maximum — whatever its collateral.
pub proof fn lemma_zero_exposure_sentinel(collateral: u128, ps: Seq<MarketPosition>, ms: Seq<Market>)
    requires
        forall|i: int| 0 <= i < ps.len() ==> !active(#[trigger] ps[i]),
    ensures
        base_asset_value_total(ps, ms) == 0,
        margin_ok(collateral, ps, ms),
        margin_ratio_spec(collateral, ps, ms) == u128::MAX,
{
    lemma_inactive_prefix_zero(ps, ms, ps.len() as int);
}

/// Monotonic trigger: decreasing collateral while holding positions and
/// markets fixed never increases the margin ratio.
pub proof fn lemma_margin_ratio_monotonic(
    c1: u128,
    c2: u128,
    ps: Seq<MarketPosition>,
    ms: Seq<Market>,
)
    requires
        c1 <= c2,
    ensures
        margin_ratio_spec(c1, ps, ms) <= margin_ratio_spec(c2, ps, ms),
{
    let bav = base_asset_value_total(ps, ms);
    if bav != 0 {
        lemma_value_total_nonneg(ps, ms, ps.len() as int);
        let pnl = unrealized_pnl_total(ps, ms);
        let u1 = updated_collateral_spec(c1, pnl);
        let u2 = updated_collateral_spec(c2, pnl);
        assert(u1 <= u2);
        lemma_mul_inequality(u1, u2, MARGIN_PRECISION as int);
        lemma_div_is_ordered(u1 * MARGIN_PRECISION, u2 * MARGIN_PRECISION, bav);
    }
}

/// One cycle's decision for one account: settle funding, re-evaluate the
/// margin ratio, and report whether the account is liquidatable against the
/// venue's partial-margin threshold. An arithmetic error aborts only this
/// account's evaluation; the position set and collateral then hold either
/// their old or their settled values, never a partial sum.
pub fn evaluate_account(
    user: &mut User,
    user_positions: &mut UserPositions,
    markets: &Markets,
    margin_ratio_partial: u128,
) -> (r: Result<bool, MathError>)
    requires
        positions_valid(old(user_positions).positions@, markets.markets@),
    ensures
        r is Ok <==> (settle_ok(old(user).collateral, old(user_positions).positions@, markets.markets@)
            && margin_ok(
            settled_collateral(
                old(user).collateral,
                old(user_positions).positions@,
                markets.markets@,
            ) as u128,
            settled_positions(old(user_positions).positions@, markets.markets@),
            markets.markets@,
        )),
        r matches Ok(liq) ==> {
            &&& liq == (margin_ratio_spec(
                settled_collateral(
                    old(user).collateral,
                    old(user_positions).positions@,
                    markets.markets@,
                ) as u128,
                settled_positions(old(user_positions).positions@, markets.markets@),
                markets.markets@,
            ) <= margin_ratio_partial)
            &&& final(user_positions).positions@ =~= settled_positions(
                old(user_positions).positions@,
                markets.markets@,
            )
            &&& final(user).collateral == settled_collateral(
                old(user).collateral,
                old(user_positions).positions@,
                markets.markets@,
            )
        },
        final(user).authority == old(user).authority,
        final(user).positions == old(user).positions,
        r is Err ==> final(user).collateral == old(user).collateral || final(user).collateral
            == settled_collateral(
            old(user).collateral,
            old(user_positions).positions@,
            markets.markets@,
        ),
{
    match settle_funding_payment(user, user_positions, markets) {
        Ok(()) => {},
        Err(e) => {
            return Err(e);
        },
    }
    proof {
        crate::funding::lemma_settled_positions_valid(
            old(user_positions).positions@,
            markets.markets@,
        );
    }
    let current_user: User = *user;
    let verdict = match calculate_margin_ratio(&current_user, user_positions, markets) {
        Ok(t) => t,
        Err(e) => {
            return Err(e);
        },
    };
    Ok(is_liquidatable(verdict.3, margin_ratio_partial))
}

} // verus!
