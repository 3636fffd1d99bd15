//! Bootstrap classification: a tagged, trial-ordered decode outcome for each
//! raw ledger record, and the working registry the startup scan builds.

use vstd::prelude::*;
use crate::model::{Addr, Markets, State, User};

verus! {

/// The classification of one raw ledger record.
#[derive(Clone, Debug)]
pub enum ClassifiedAccount {
    Principal(User),
    MarketTable(Markets),
    Parameters(State),
    Unrecognized,
}

/// Classifies one raw record from the outcomes of the three typed decodes,
/// in the fixed trial order: a record that decodes as an account principal is
/// a principal, whatever else it would also decode as; then the market table;
/// then the venue parameters. A record matching none is dropped. Every decoded
/// record is thus assigned exactly one of the three categories.
pub fn classify_account(
    user: Option<User>,
    markets: Option<Markets>,
    state: Option<State>,
) -> (r: ClassifiedAccount)
    ensures
        user matches Some(u) ==> r == ClassifiedAccount::Principal(u),
        user is None ==> (markets matches Some(m) ==> r == ClassifiedAccount::MarketTable(m)),
        user is None && markets is None ==> (state matches Some(s) ==> r
            == ClassifiedAccount::Parameters(s)),
        user is None && markets is None && state is None ==> r
            == ClassifiedAccount::Unrecognized,
{
    match user {
        Some(u) => ClassifiedAccount::Principal(u),
        None => match markets {
            Some(m) => ClassifiedAccount::MarketTable(m),
            None => match state {
                Some(s) => ClassifiedAccount::Parameters(s),
                None => ClassifiedAccount::Unrecognized,
            },
        },
    }
}

/// The in-memory working set the startup scan builds: the tracked account
/// principals with their addresses, the latest market table and venue
/// parameters with theirs, and the submitter's own venue account once seen.
#[derive(Clone, Debug)]
pub struct Registry {
    pub users: Vec<(Addr, User)>,
    pub markets_key: Addr,
    pub markets: Markets,
    pub state_key: Addr,
    pub state: State,
    pub liquidator_account: Addr,
}

/// Folds one classified record into the registry: a principal is appended to
/// the tracked accounts (and recognized as the submitter's own venue account
/// when its owner is the submitter); the market table and the venue parameters
/// each replace the previous one; an unrecognized record changes nothing.
pub fn register_account(
    registry: &mut Registry,
    key: Addr,
    decoded: ClassifiedAccount,
    payer: Addr,
)
    ensures
        decoded matches ClassifiedAccount::Principal(u) ==> {
            &&& final(registry).users@ == old(registry).users@.push((key, u))
            &&& final(registry).liquidator_account == (if u.authority == payer {
                key
            } else {
                old(registry).liquidator_account
            })
            &&& final(registry).markets_key == old(registry).markets_key
            &&& final(registry).markets == old(registry).markets
            &&& final(registry).state_key == old(registry).state_key
            &&& final(registry).state == old(registry).state
        },
        decoded matches ClassifiedAccount::MarketTable(m) ==> {
            &&& final(registry).markets_key == key
            &&& final(registry).markets == m
            &&& final(registry).users@ == old(registry).users@
            &&& final(registry).liquidator_account == old(registry).liquidator_account
            &&& final(registry).state_key == old(registry).state_key
            &&& final(registry).state == old(registry).state
        },
        decoded matches ClassifiedAccount::Parameters(s) ==> {
            &&& final(registry).state_key == key
            &&& final(registry).state == s
            &&& final(registry).users@ == old(registry).users@
            &&& final(registry).liquidator_account == old(registry).liquidator_account
            &&& final(registry).markets_key == old(registry).markets_key
            &&& final(registry).markets == old(registry).markets
        },
        decoded is Unrecognized ==> {
            &&& final(registry).users@ == old(registry).users@
            &&& final(registry).liquidator_account == old(registry).liquidator_account
            &&& final(registry).markets_key == old(registry).markets_key
            &&& final(registry).markets == old(registry).markets
            &&& final(registry).state_key == old(registry).state_key
            &&& final(registry).state == old(registry).state
        },
{
    match decoded {
        ClassifiedAccount::Principal(u) => {
            if u.authority == payer {
                registry.liquidator_account = key;
            }
            registry.users.push((key, u));
        },
        ClassifiedAccount::MarketTable(m) => {
            registry.markets_key = key;
            registry.markets = m;
        },
        ClassifiedAccount::Parameters(s) => {
            registry.state_key = key;
            registry.state = s;
        },
        ClassifiedAccount::Unrecognized => {},
    }
}

} // verus!
