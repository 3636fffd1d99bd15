//! Lazy funding settlement: reconciles an account's stored funding checkpoints
//! against the market table's current cumulative rates and folds the resulting
//! payment into its collateral balance.

use vstd::prelude::*;
use crate::math::{
    calculate_funding_payment, calculate_updated_collateral, div_trunc, funding_payment_ok,
    funding_payment_spec, updated_collateral_ok, updated_collateral_spec,
    AMM_TO_QUOTE_PRECISION_RATIO,
};
use crate::model::{active, positions_valid, Market, MarketPosition, Markets, MathError, User,
    UserPositions};

verus! {

/// The market-side cumulative funding rate a position settles against: the
/// long-side rate for long exposure, the short-side rate otherwise.
pub open spec fn market_rate(p: MarketPosition, ms: Seq<Market>) -> i128 {
    if p.base_asset_amount > 0 {
        ms[p.market_index as int].amm.cumulative_funding_rate_long
    } else {
        ms[p.market_index as int].amm.cumulative_funding_rate_short
    }
}

/// A position owes settlement when it is active and its stored checkpoint
/// differs from the market's current cumulative rate.
pub open spec fn needs_settlement(p: MarketPosition, ms: Seq<Market>) -> bool {
    active(p) && market_rate(p, ms) != p.last_cumulative_funding_rate
}

/// A position after settlement: the checkpoint advanced to the market's
/// current rate and timestamp; exposure and cost basis untouched.
pub open spec fn settled_position(p: MarketPosition, ms: Seq<Market>) -> MarketPosition {
    if needs_settlement(p, ms) {
        MarketPosition {
            last_cumulative_funding_rate: market_rate(p, ms),
            last_funding_rate_ts: ms[p.market_index as int].amm.last_funding_rate_ts,
            ..p
        }
    } else {
        p
    }
}

/// A whole position set after settlement against a market table.
pub open spec fn settled_positions(ps: Seq<MarketPosition>, ms: Seq<Market>) -> Seq<
    MarketPosition,
> {
    Seq::new(ps.len(), |i: int| settled_position(ps[i], ms))
}

/// The funding owed by the first `n` positions together, at internal
/// precision. Positions that owe no settlement contribute nothing.
pub open spec fn funding_total_prefix(ps: Seq<MarketPosition>, ms: Seq<Market>, n: int) -> int
    decreases n,
{
    if n <= 0 {
        0
    } else {
        funding_total_prefix(ps, ms, n - 1) + if needs_settlement(ps[n - 1], ms) {
            funding_payment_spec(market_rate(ps[n - 1], ms), ps[n - 1])
        } else {
            0
        }
    }
}

/// The funding owed by the whole position set, at internal precision.
pub open spec fn funding_total(ps: Seq<MarketPosition>, ms: Seq<Market>) -> int {
    funding_total_prefix(ps, ms, ps.len() as int)
}

/// Every per-position payment among the first `n` positions, and every partial
/// sum, stays in signed-128-bit range.
pub open spec fn funding_prefix_ok(ps: Seq<MarketPosition>, ms: Seq<Market>, n: int) -> bool
    decreases n,
{
    if n <= 0 {
        true
    } else {
        funding_prefix_ok(ps, ms, n - 1) && (needs_settlement(ps[n - 1], ms)
            ==> funding_payment_ok(market_rate(ps[n - 1], ms), ps[n - 1]) && i128::MIN
            <= funding_total_prefix(ps, ms, n) <= i128::MAX)
    }
}

/// The accumulated funding total converted from internal precision to
/// collateral precision: integer division truncating toward zero.
pub open spec fn funding_total_collateral(ps: Seq<MarketPosition>, ms: Seq<Market>) -> int {
    div_trunc(funding_total(ps, ms), AMM_TO_QUOTE_PRECISION_RATIO as int)
}

/// Settlement succeeds exactly when no per-position payment, no partial sum,
/// and no collateral update leaves its representable range.
pub open spec fn settle_ok(collateral: u128, ps: Seq<MarketPosition>, ms: Seq<Market>) -> bool {
    &&& funding_prefix_ok(ps, ms, ps.len() as int)
    &&& updated_collateral_ok(collateral, funding_total_collateral(ps, ms))
}

/// The collateral balance after folding in the settled funding total.
pub open spec fn settled_collateral(collateral: u128, ps: Seq<MarketPosition>, ms: Seq<Market>) -> int {
    updated_collateral_spec(collateral, funding_total_collateral(ps, ms))
}

/// A shorter in-range prefix of an in-range prefix is in range.
proof fn lemma_funding_prefix_ok_monotone(
    ps: Seq<MarketPosition>,
    ms: Seq<Market>,
    k: int,
    m: int,
)
    requires
        k <= m,
        funding_prefix_ok(ps, ms, m),
    ensures
        funding_prefix_ok(ps, ms, k),
    decreases m - k,
{
    if k < m {
        lemma_funding_prefix_ok_monotone(ps, ms, k, m - 1);
    }
}

/// Settles an account's funding payments against the current market table:
/// for every active position whose checkpoint lags the market's cumulative
/// rate, the payment owed for the delta is accumulated and the checkpoint
/// advanced; the accumulated total, converted to collateral precision, is then
/// folded into the account's collateral. On an arithmetic-overflow error the
/// account and its positions are left unchanged.
pub fn settle_funding_payment(
    user: &mut User,
    user_positions: &mut UserPositions,
    markets: &Markets,
) -> (r: Result<(), MathError>)
    requires
        positions_valid(old(user_positions).positions@, markets.markets@),
    ensures
        r is Ok <==> settle_ok(
            old(user).collateral,
            old(user_positions).positions@,
            markets.markets@,
        ),
        r is Ok ==> final(user_positions).positions@ =~= settled_positions(
            old(user_positions).positions@,
            markets.markets@,
        ),
        r is Ok ==> final(user).collateral == settled_collateral(
            old(user).collateral,
            old(user_positions).positions@,
            markets.markets@,
        ),
        final(user).authority == old(user).authority,
        final(user).positions == old(user).positions,
        r is Err ==> *final(user) == *old(user) && final(user_positions).positions@ == old(
            user_positions,
        ).positions@,
{
    let ghost ps = user_positions.positions@;
    let ghost ms = markets.markets@;
    let n = user_positions.positions.len();
    let mut settled: Vec<MarketPosition> = Vec::new();
    let mut total: i128 = 0;
    let mut i: usize = 0;
    while i < n
        invariant
            *user == *old(user),
            user_positions.positions@ == ps,
            ps == old(user_positions).positions@,
            ms == markets.markets@,
            positions_valid(ps, ms),
            n == ps.len(),
            0 <= i <= n,
            settled@.len() == i as int,
            forall|k: int| 0 <= k < i ==> settled@[k] == settled_position(ps[k], ms),
            total == funding_total_prefix(ps, ms, i as int),
            funding_prefix_ok(ps, ms, i as int),
        decreases n - i,
    {
        let p = user_positions.positions[i];
        if p.base_asset_amount != 0 {
            assert(active(ps[i as int]) && (ps[i as int].market_index as int) < ms.len());
            let table_len = markets.markets.len();
            assert((p.market_index as int) < table_len as int);
            let idx = p.market_index as usize;
            let amm = &markets.markets[idx].amm;
            let amm_rate = if p.base_asset_amount > 0 {
                amm.cumulative_funding_rate_long
            } else {
                amm.cumulative_funding_rate_short
            };
            assert(amm_rate == market_rate(p, ms));
            if amm_rate != p.last_cumulative_funding_rate {
                let payment = match calculate_funding_payment(amm_rate, &p) {
                    Ok(x) => x,
                    Err(e) => {
                        proof {
                            assert(!funding_prefix_ok(ps, ms, i + 1));
                            if funding_prefix_ok(ps, ms, n as int) {
                                lemma_funding_prefix_ok_monotone(ps, ms, i + 1, n as int);
                            }
                        }
                        return Err(e);
                    },
                };
                total = match total.checked_add(payment) {
                    Some(t) => t,
                    None => {
                        proof {
                            assert(!funding_prefix_ok(ps, ms, i + 1));
                            if funding_prefix_ok(ps, ms, n as int) {
                                lemma_funding_prefix_ok_monotone(ps, ms, i + 1, n as int);
                            }
                        }
                        return Err(MathError::Overflow);
                    },
                };
                settled.push(
                    MarketPosition {
                        last_cumulative_funding_rate: amm_rate,
                        last_funding_rate_ts: amm.last_funding_rate_ts,
                        ..p
                    },
                );
            } else {
                settled.push(p);
            }
        } else {
            settled.push(p);
        }
        i = i + 1;
    }
    let divisor = AMM_TO_QUOTE_PRECISION_RATIO as i128;
    proof {
        crate::math::lemma_div_trunc_bounds(total as int, divisor as int);
    }
    let delta = match total.checked_div(divisor) {
        Some(d) => d,
        None => {
            // unreachable: the divisor is a positive constant and a truncating
            // quotient never leaves the dividend's range
            return Err(MathError::Overflow);
        },
    };
    assert(delta == funding_total_collateral(ps, ms));
    match calculate_updated_collateral(user.collateral, delta) {
        Ok(c) => {
            user.collateral = c;
            user_positions.positions = settled;
            Ok(())
        },
        Err(e) => Err(e),
    }
}

/// Settlement touches only checkpoints, so it preserves the validity of every
/// active position's market reference.
pub proof fn lemma_settled_positions_valid(ps: Seq<MarketPosition>, ms: Seq<Market>)
    requires
        positions_valid(ps, ms),
    ensures
        positions_valid(settled_positions(ps, ms), ms),
{
    assert forall|i: int|
        0 <= i < settled_positions(ps, ms).len() && active(
            #[trigger] settled_positions(ps, ms)[i],
        ) implies (settled_positions(ps, ms)[i].market_index as int) < ms.len() by {
        assert(settled_positions(ps, ms)[i] == settled_position(ps[i], ms));
        assert(active(ps[i]));
    }
}

/// Settled positions settle to themselves.
proof fn lemma_settled_position_fixed(p: MarketPosition, ms: Seq<Market>)
    ensures
        settled_position(settled_position(p, ms), ms) == settled_position(p, ms),
{
}

/// A settled position set owes nothing: every prefix total is zero and every
/// prefix is trivially in range.
proof fn lemma_settled_prefix_zero(ps: Seq<MarketPosition>, ms: Seq<Market>, n: int)
    requires
        0 <= n <= ps.len(),
    ensures
        funding_total_prefix(settled_positions(ps, ms), ms, n) == 0,
        funding_prefix_ok(settled_positions(ps, ms), ms, n),
    decreases n,
{
    if n > 0 {
        lemma_settled_prefix_zero(ps, ms, n - 1);
        assert(settled_positions(ps, ms)[n - 1] == settled_position(ps[n - 1], ms));
        assert(!needs_settlement(settled_position(ps[n - 1], ms), ms));
    }
}

/// Funding settlement is idempotent: with an unchanged market table, settling
/// an already-settled position set owes nothing, always succeeds, changes no
/// checkpoint, and leaves any collateral balance as it is.
pub proof fn lemma_settlement_idempotent(ps: Seq<MarketPosition>, ms: Seq<Market>)
    ensures
        settled_positions(settled_positions(ps, ms), ms) =~= settled_positions(ps, ms),
        funding_total(settled_positions(ps, ms), ms) == 0,
        forall|c: u128| settle_ok(c, settled_positions(ps, ms), ms),
        forall|c: u128| settled_collateral(c, settled_positions(ps, ms), ms) == c,
{
    let sps = settled_positions(ps, ms);
    assert forall|i: int| 0 <= i < sps.len() implies settled_position(sps[i], ms) == sps[i] by {
        lemma_settled_position_fixed(ps[i], ms);
    }
    lemma_settled_prefix_zero(ps, ms, ps.len() as int);
    assert(funding_total_collateral(sps, ms) == 0);
    assert forall|c: u128| settled_collateral(c, sps, ms) == c by {
        assert(updated_collateral_spec(c, 0) == c);
    }
}

} // verus!
