//! Risk evaluation and liquidation triggering for margin-trading accounts on a
//! remote ledger: lazy per-account funding settlement, fixed-point margin-ratio
//! computation under explicit overflow discipline, liquidation eligibility, and
//! assembly of the corrective instruction's account list.

pub mod bootstrap;
pub mod funding;
pub mod liquidation;
pub mod margin;
pub mod math;
pub mod model;
