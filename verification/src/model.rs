//! The data model: tracked accounts, their position sets, the venue's market
//! table and its global parameters, all as plain fixed-width values.

use vstd::prelude::*;

verus! {

/// A 32-byte ledger address, held as four 64-bit words.
#[derive(Clone, Copy, PartialEq, Eq, Structural, Debug)]
pub struct Addr(pub u64, pub u64, pub u64, pub u64);

/// One open exposure of a tracked account in a single market.
///
/// `base_asset_amount` is the signed exposure (zero means flat);
/// `quote_asset_amount` is the unsigned cost basis used for unrealized P&L;
/// the two `last_*` fields are the funding checkpoint: the cumulative funding
/// rate (and its timestamp) up to which this position has already settled.
#[derive(Clone, Copy, PartialEq, Eq, Structural, Debug)]
pub struct MarketPosition {
    pub market_index: u64,
    pub base_asset_amount: i128,
    pub quote_asset_amount: u128,
    pub last_cumulative_funding_rate: i128,
    pub last_funding_rate_ts: i64,
}

/// The pricing and funding block embedded in each market record: the current
/// mark price, the two cumulative funding rates (one per side), the timestamp
/// of their last update, and the identity of the market's price oracle.
#[derive(Clone, Copy, PartialEq, Eq, Structural, Debug)]
pub struct Amm {
    pub oracle: Addr,
    pub mark_price: u128,
    pub cumulative_funding_rate_long: i128,
    pub cumulative_funding_rate_short: i128,
    pub last_funding_rate_ts: i64,
}

/// One record of the market table.
#[derive(Clone, Copy, PartialEq, Eq, Structural, Debug)]
pub struct Market {
    pub amm: Amm,
}

/// The venue's per-asset market table, refreshed once per polling cycle and
/// read-only within it.
#[derive(Clone, Debug)]
pub struct Markets {
    pub markets: Vec<Market>,
}

/// A tracked account's top-level risk record: its owner, its collateral
/// balance, and the address of its position set.
#[derive(Clone, Copy, PartialEq, Eq, Structural, Debug)]
pub struct User {
    pub authority: Addr,
    pub collateral: u128,
    pub positions: Addr,
}

/// A tracked account's per-market open exposures, in position order.
#[derive(Clone, Debug)]
pub struct UserPositions {
    pub positions: Vec<MarketPosition>,
}

/// Global venue parameters: the partial-margin liquidation threshold and the
/// auxiliary ledger accounts a liquidation instruction must name.
#[derive(Clone, Copy, PartialEq, Eq, Structural, Debug)]
pub struct State {
    pub margin_ratio_partial: u128,
    pub collateral_vault: Addr,
    pub collateral_vault_authority: Addr,
    pub insurance_vault: Addr,
    pub insurance_vault_authority: Addr,
    pub markets: Addr,
    pub trade_history: Addr,
    pub liquidation_history: Addr,
    pub funding_payment_history: Addr,
}

/// The arithmetic domain error: a funding or margin computation left the
/// representable range. It aborts one account's evaluation for the cycle,
/// never the process.
#[derive(Clone, Copy, PartialEq, Eq, Structural, Debug)]
pub enum MathError {
    Overflow,
}

/// A position is active when it carries nonzero exposure.
pub open spec fn active(p: MarketPosition) -> bool {
    p.base_asset_amount != 0
}

/// Every active position references a valid index into the market table.
pub open spec fn positions_valid(ps: Seq<MarketPosition>, ms: Seq<Market>) -> bool {
    forall|i: int|
        0 <= i < ps.len() && active(#[trigger] ps[i]) ==> (ps[i].market_index as int) < ms.len()
}

/// Active positions reference pairwise distinct markets: a position set holds
/// at most one open exposure per market.
pub open spec fn positions_distinct(ps: Seq<MarketPosition>) -> bool {
    forall|i: int, j: int|
        0 <= i < j < ps.len() && active(#[trigger] ps[i]) && active(#[trigger] ps[j])
            ==> ps[i].market_index != ps[j].market_index
}

} // verus!
