use liquidator::bootstrap::{classify_account, register_account, ClassifiedAccount, Registry};
use liquidator::funding::settle_funding_payment;
use liquidator::liquidation::{build_liquidation_accounts, liquidation_instruction_data, AccountRef};
use liquidator::margin::{calculate_margin_ratio, evaluate_account, is_liquidatable};
use liquidator::math::{
    calculate_base_asset_value_and_pnl, calculate_funding_payment, calculate_updated_collateral,
    MARGIN_PRECISION,
};
use liquidator::model::{Addr, Amm, Market, MarketPosition, Markets, MathError, State, User, UserPositions};

fn addr(tag: u64) -> Addr {
    Addr(tag, 0, 0, 0)
}

fn position(market_index: u64, base: i128, quote: u128, last_rate: i128) -> MarketPosition {
    MarketPosition {
        market_index,
        base_asset_amount: base,
        quote_asset_amount: quote,
        last_cumulative_funding_rate: last_rate,
        last_funding_rate_ts: 0,
    }
}

fn market(oracle_tag: u64, price: u128, rate_long: i128, rate_short: i128, ts: i64) -> Market {
    Market {
        amm: Amm {
            oracle: addr(oracle_tag),
            mark_price: price,
            cumulative_funding_rate_long: rate_long,
            cumulative_funding_rate_short: rate_short,
            last_funding_rate_ts: ts,
        },
    }
}

fn venue_state() -> State {
    State {
        margin_ratio_partial: 625,
        collateral_vault: addr(101),
        collateral_vault_authority: addr(102),
        insurance_vault: addr(103),
        insurance_vault_authority: addr(104),
        markets: addr(105),
        trade_history: addr(106),
        liquidation_history: addr(107),
        funding_payment_history: addr(108),
    }
}

// A long position settling against a risen long-side cumulative rate: the
// payment is proportional to (rate delta) x (exposure), the checkpoint
// advances to the market's rate and timestamp, and the collateral falls
// accordingly.
#[test]
fn settlement_applies_long_funding_payment() {
    let mut user = User { authority: addr(1), collateral: 1_000, positions: addr(2) };
    let mut positions =
        UserPositions { positions: vec![position(0, 10, 0, 100)] };
    let markets = Markets { markets: vec![market(50, 0, 150, 0, 7)] };
    let r = settle_funding_payment(&mut user, &mut positions, &markets);
    assert!(r.is_ok());
    // payment = -(150 - 100) * 10 / 10 = -50 at internal precision,
    // converted to collateral precision: -50 / 10 = -5
    assert_eq!(user.collateral, 995);
    assert_eq!(positions.positions[0].last_cumulative_funding_rate, 150);
    assert_eq!(positions.positions[0].last_funding_rate_ts, 7);
    assert_eq!(positions.positions[0].base_asset_amount, 10);
}

// Settling twice against an unchanged market table changes nothing the second
// time.
#[test]
fn settlement_is_idempotent() {
    let mut user = User { authority: addr(1), collateral: 1_000, positions: addr(2) };
    let mut positions = UserPositions {
        positions: vec![position(0, 10, 0, 100), position(1, -40, 0, 300)],
    };
    let markets =
        Markets { markets: vec![market(50, 0, 150, 0, 7), market(51, 0, 0, 200, 9)] };
    assert!(settle_funding_payment(&mut user, &mut positions, &markets).is_ok());
    // -50 for the long leg and -400 for the short leg, converted: -45
    assert_eq!(user.collateral, 955);
    let collateral_after_first = user.collateral;
    let positions_after_first = positions.positions.clone();
    assert!(settle_funding_payment(&mut user, &mut positions, &markets).is_ok());
    assert_eq!(user.collateral, collateral_after_first);
    assert_eq!(positions.positions, positions_after_first);
}

// A short position settling against a fallen short-side cumulative rate pays;
// truncation is toward zero.
#[test]
fn settlement_short_side_and_truncation() {
    // delta = 180 - 200 = -20, base = -3: payment = -((-20) * (-3)) / 10 = -6
    let p = position(0, -3, 0, 200);
    assert_eq!(calculate_funding_payment(180, &p), Ok(-6));
    // delta = 199 - 200 = -1, base = -3: -3 / 10 truncates to 0
    let p2 = position(0, -3, 0, 200);
    assert_eq!(calculate_funding_payment(199, &p2), Ok(0));
    // delta = 5, base = -3: payment = -(5 * -3) / 10 = 15 / 10 = 1 (owed to the short)
    let p3 = position(0, -3, 0, 0);
    assert_eq!(calculate_funding_payment(5, &p3), Ok(1));
}

// A rate delta that leaves the signed-128-bit range is an overflow error, and
// the erring account is left untouched.
#[test]
fn settlement_overflow_is_reported_not_applied() {
    let p = position(0, 10, 0, i128::MIN);
    assert_eq!(calculate_funding_payment(1, &p), Err(MathError::Overflow));

    let mut user = User { authority: addr(1), collateral: 1_000, positions: addr(2) };
    let mut positions =
        UserPositions { positions: vec![position(0, 10, 0, i128::MIN)] };
    let markets = Markets { markets: vec![market(50, 0, 1, 0, 7)] };
    assert_eq!(
        settle_funding_payment(&mut user, &mut positions, &markets),
        Err(MathError::Overflow)
    );
    assert_eq!(user.collateral, 1_000);
    assert_eq!(positions.positions[0].last_cumulative_funding_rate, i128::MIN);
}

// Collateral updates saturate at zero below and report overflow above.
#[test]
fn collateral_update_saturates_and_checks() {
    assert_eq!(calculate_updated_collateral(100, -250), Ok(0));
    assert_eq!(calculate_updated_collateral(100, -100), Ok(0));
    assert_eq!(calculate_updated_collateral(100, 25), Ok(125));
    assert_eq!(calculate_updated_collateral(u128::MAX, 1), Err(MathError::Overflow));
    assert_eq!(calculate_updated_collateral(u128::MAX, 0), Ok(u128::MAX));
}

// Valuation of a single position: notional value at the mark price and signed
// unrealized P&L against the cost basis.
#[test]
fn position_valuation() {
    // long: value = |20| * 600 / 10 = 1200, pnl = 1200 - 10 = 1190
    let long = position(0, 20, 10, 0);
    let amm = market(50, 600, 0, 0, 0).amm;
    assert_eq!(calculate_base_asset_value_and_pnl(&long, &amm), Ok((1200, 1190)));
    // short: value = |-20| * 600 / 10 = 1200, pnl = 1500 - 1200 = 300
    let short = position(0, -20, 1500, 0);
    assert_eq!(calculate_base_asset_value_and_pnl(&short, &amm), Ok((1200, 300)));
    // an overflowing valuation is an error
    let wide = position(0, i128::MAX, 0, 0);
    let rich = market(50, u128::MAX, 0, 0, 0).amm;
    assert_eq!(calculate_base_asset_value_and_pnl(&wide, &rich), Err(MathError::Overflow));
}

// Zero aggregate exposure yields the sentinel pair and never divides: the
// account is maximally solvent whatever its collateral.
#[test]
fn zero_exposure_sentinel() {
    let user = User { authority: addr(1), collateral: 0, positions: addr(2) };
    let positions =
        UserPositions { positions: vec![position(0, 0, 999, 55)] };
    let markets = Markets { markets: vec![market(50, 600, 0, 0, 0)] };
    let (total_collateral, pnl, value, ratio) =
        calculate_margin_ratio(&user, &positions, &markets).unwrap();
    assert_eq!(total_collateral, u128::MAX);
    assert_eq!(pnl, 0);
    assert_eq!(value, 0);
    assert_eq!(ratio, u128::MAX);
    assert!(!is_liquidatable(ratio, 625));
}

// The margin ratio follows the documented formula exactly.
#[test]
fn margin_ratio_formula() {
    let user = User { authority: addr(1), collateral: 1_000, positions: addr(2) };
    let positions = UserPositions { positions: vec![position(0, 20, 10, 0)] };
    let markets = Markets { markets: vec![market(50, 600, 0, 0, 0)] };
    let (total_collateral, pnl, value, ratio) =
        calculate_margin_ratio(&user, &positions, &markets).unwrap();
    assert_eq!(value, 1200);
    assert_eq!(pnl, 1190);
    assert_eq!(total_collateral, 2190);
    assert_eq!(ratio, 2190 * MARGIN_PRECISION / 1200);
}

// Decreasing collateral never increases the margin ratio.
#[test]
fn margin_ratio_monotone_in_collateral() {
    let positions = UserPositions { positions: vec![position(0, 20, 10, 0)] };
    let markets = Markets { markets: vec![market(50, 600, 0, 0, 0)] };
    let mut previous: Option<u128> = None;
    for collateral in [0u128, 1, 10, 1_000, 1_000_000] {
        let user = User { authority: addr(1), collateral, positions: addr(2) };
        let (_, _, _, ratio) = calculate_margin_ratio(&user, &positions, &markets).unwrap();
        if let Some(lower) = previous {
            assert!(lower <= ratio);
        }
        previous = Some(ratio);
    }
}

// A loss past the whole collateral saturates the adjusted collateral at zero:
// the margin ratio collapses to zero and the account is flagged.
#[test]
fn margin_ratio_saturates_at_zero_collateral() {
    // value = 20 * 600 / 10 = 1200, cost basis 5000: pnl = 1200 - 5000 = -3800
    let user = User { authority: addr(1), collateral: 1_000, positions: addr(2) };
    let positions = UserPositions { positions: vec![position(0, 20, 5_000, 0)] };
    let markets = Markets { markets: vec![market(50, 600, 0, 0, 0)] };
    let (total_collateral, pnl, value, ratio) =
        calculate_margin_ratio(&user, &positions, &markets).unwrap();
    assert_eq!(value, 1200);
    assert_eq!(pnl, -3800);
    assert_eq!(total_collateral, 0);
    assert_eq!(ratio, 0);
    assert!(is_liquidatable(ratio, 625));
}

// The liquidation boundary is inclusive: a margin ratio exactly at the
// partial-margin threshold triggers.
#[test]
fn threshold_boundary_is_inclusive() {
    assert!(is_liquidatable(625, 625));
    assert!(is_liquidatable(624, 625));
    assert!(!is_liquidatable(626, 625));
}

// One cycle's decision end to end: settlement, evaluation, and the inclusive
// threshold comparison.
#[test]
fn evaluate_account_flags_at_threshold() {
    // After settlement the collateral is 995; value = 10 * 160 / 10 = 160,
    // pnl = 160 - 160 = 0, total collateral = 995,
    // ratio = 995 * 10_000 / 160 = 62_187.
    let mut user = User { authority: addr(1), collateral: 1_000, positions: addr(2) };
    let mut positions =
        UserPositions { positions: vec![position(0, 10, 160, 100)] };
    let markets = Markets { markets: vec![market(50, 160, 150, 0, 7)] };
    let exact_threshold = 62_187;
    let verdict =
        evaluate_account(&mut user, &mut positions, &markets, exact_threshold).unwrap();
    assert!(verdict);
    assert_eq!(user.collateral, 995);

    // One step above the boundary the account is safe.
    let mut user2 = User { authority: addr(1), collateral: 1_000, positions: addr(2) };
    let mut positions2 =
        UserPositions { positions: vec![position(0, 10, 160, 100)] };
    let verdict2 =
        evaluate_account(&mut user2, &mut positions2, &markets, exact_threshold - 1).unwrap();
    assert!(!verdict2);
}

// The instruction's account list: the fixed fourteen-entry head in calling
// order, then exactly one oracle per market with nonzero exposure, in position
// order, skipping flat positions.
#[test]
fn liquidation_account_list_order_and_oracles() {
    let state = venue_state();
    let user = User { authority: addr(1), collateral: 0, positions: addr(22) };
    let positions = UserPositions {
        positions: vec![position(0, 10, 0, 0), position(1, 0, 0, 0), position(2, -5, 0, 0)],
    };
    let markets = Markets {
        markets: vec![
            market(70, 1, 0, 0, 0),
            market(71, 1, 0, 0, 0),
            market(72, 1, 0, 0, 0),
        ],
    };
    let accounts = build_liquidation_accounts(
        addr(100),
        &state,
        addr(10),
        addr(11),
        addr(20),
        &user,
        &positions,
        &markets,
        addr(30),
    );
    let expected_head = vec![
        (addr(100), false, false),
        (addr(10), true, true),
        (addr(11), false, true),
        (addr(20), false, true),
        (addr(101), false, true),
        (addr(102), false, false),
        (addr(103), false, true),
        (addr(104), false, false),
        (addr(30), false, false),
        (addr(105), false, true),
        (addr(22), false, true),
        (addr(106), false, true),
        (addr(107), false, true),
        (addr(108), false, true),
    ];
    assert_eq!(accounts.len(), 16);
    for (i, (a, signer, writable)) in expected_head.iter().enumerate() {
        assert_eq!(
            accounts[i],
            AccountRef { addr: *a, is_signer: *signer, is_writable: *writable }
        );
    }
    // oracle of market 0 (active), then market 2 (active); market 1 is flat
    assert_eq!(accounts[14], AccountRef { addr: addr(70), is_signer: false, is_writable: false });
    assert_eq!(accounts[15], AccountRef { addr: addr(72), is_signer: false, is_writable: false });
}

// The fixed opcode decodes from its hexadecimal spelling to the exact bytes.
#[test]
fn liquidation_opcode_bytes() {
    assert_eq!(
        liquidation_instruction_data(),
        vec![0xdf, 0xb3, 0xe2, 0x7d, 0x30, 0x2e, 0x27, 0x4a]
    );
}

// Classification follows the fixed trial order and assigns every decoded
// record exactly one category; a record matching no schema is dropped.
#[test]
fn classification_trial_order() {
    let u = User { authority: addr(1), collateral: 5, positions: addr(2) };
    let m = Markets { markets: vec![] };
    let s = venue_state();
    assert!(matches!(
        classify_account(Some(u), Some(m.clone()), Some(s)),
        ClassifiedAccount::Principal(_)
    ));
    assert!(matches!(
        classify_account(None, Some(m.clone()), Some(s)),
        ClassifiedAccount::MarketTable(_)
    ));
    assert!(matches!(classify_account(None, None, Some(s)), ClassifiedAccount::Parameters(_)));
    assert!(matches!(classify_account(None, None, None), ClassifiedAccount::Unrecognized));
}

// The registry fold: principals accumulate, the submitter's own account is
// recognized by its owner, and the table and parameters replace their
// predecessors.
#[test]
fn registry_bootstrap_fold() {
    let payer = addr(9);
    let mut registry = Registry {
        users: vec![],
        markets_key: addr(0),
        markets: Markets { markets: vec![] },
        state_key: addr(0),
        state: venue_state(),
        liquidator_account: addr(0),
    };
    let stranger = User { authority: addr(1), collateral: 5, positions: addr(2) };
    let own = User { authority: payer, collateral: 7, positions: addr(3) };
    register_account(&mut registry, addr(40), ClassifiedAccount::Principal(stranger), payer);
    register_account(&mut registry, addr(41), ClassifiedAccount::Principal(own), payer);
    register_account(
        &mut registry,
        addr(42),
        ClassifiedAccount::MarketTable(Markets { markets: vec![market(70, 1, 0, 0, 0)] }),
        payer,
    );
    register_account(&mut registry, addr(43), ClassifiedAccount::Parameters(venue_state()), payer);
    register_account(&mut registry, addr(44), ClassifiedAccount::Unrecognized, payer);
    assert_eq!(registry.users.len(), 2);
    assert_eq!(registry.users[0].0, addr(40));
    assert_eq!(registry.users[1].0, addr(41));
    assert_eq!(registry.liquidator_account, addr(41));
    assert_eq!(registry.markets_key, addr(42));
    assert_eq!(registry.markets.markets.len(), 1);
    assert_eq!(registry.state_key, addr(43));
}
