//! Assembly of the liquidation instruction: the fixed account-reference list
//! the venue program's calling convention requires, followed by the price
//! oracle of every market where the target holds a nonzero position, and the
//! fixed instruction opcode.

use vstd::prelude::*;
use crate::model::{active, positions_valid, Addr, Market, MarketPosition, Markets, State, User,
    UserPositions};

verus! {

/// One entry of an instruction's account list.
#[derive(Clone, Copy, PartialEq, Eq, Structural, Debug)]
pub struct AccountRef {
    pub addr: Addr,
    pub is_signer: bool,
    pub is_writable: bool,
}

/// A ledger instruction: the program addressed, the accounts it may touch, and
/// its opcode bytes.
#[derive(Clone, Debug)]
pub struct Instruction {
    pub program_id: Addr,
    pub accounts: Vec<AccountRef>,
    pub data: Vec<u8>,
}

pub open spec fn readonly_ref(a: Addr) -> AccountRef {
    AccountRef { addr: a, is_signer: false, is_writable: false }
}

pub open spec fn writable_ref(a: Addr) -> AccountRef {
    AccountRef { addr: a, is_signer: false, is_writable: true }
}

/// The fixed head of the liquidation account list, in the order the venue
/// program's calling convention requires: parameters record, signing
/// submitter, the submitter's venue account, the target account, both vaults
/// with their authorities, the token program, the market table, the target's
/// position set, and the three history logs.
pub open spec fn liquidation_fixed_accounts(
    state_key: Addr,
    state: State,
    payer: Addr,
    liquidator_account: Addr,
    user_key: Addr,
    user_positions_key: Addr,
    token_program: Addr,
) -> Seq<AccountRef> {
    seq![
        readonly_ref(state_key),
        AccountRef { addr: payer, is_signer: true, is_writable: true },
        writable_ref(liquidator_account),
        writable_ref(user_key),
        writable_ref(state.collateral_vault),
        readonly_ref(state.collateral_vault_authority),
        writable_ref(state.insurance_vault),
        readonly_ref(state.insurance_vault_authority),
        readonly_ref(token_program),
        writable_ref(state.markets),
        writable_ref(user_positions_key),
        writable_ref(state.trade_history),
        writable_ref(state.liquidation_history),
        writable_ref(state.funding_payment_history),
    ]
}

/// The oracle references contributed by the first `n` positions: one readonly
/// reference to the market's price oracle per active position, in position
/// order; inactive positions contribute nothing.
pub open spec fn oracle_refs_prefix(ps: Seq<MarketPosition>, ms: Seq<Market>, n: int) -> Seq<
    AccountRef,
>
    decreases n,
{
    if n <= 0 {
        Seq::empty()
    } else {
        oracle_refs_prefix(ps, ms, n - 1) + if active(ps[n - 1]) {
            seq![readonly_ref(ms[ps[n - 1].market_index as int].amm.oracle)]
        } else {
            Seq::empty()
        }
    }
}

/// The oracle tail of the liquidation account list.
pub open spec fn oracle_refs(ps: Seq<MarketPosition>, ms: Seq<Market>) -> Seq<AccountRef> {
    oracle_refs_prefix(ps, ms, ps.len() as int)
}

/// The indices of the active positions among the first `n`, in position order.
pub open spec fn active_indices_prefix(ps: Seq<MarketPosition>, n: int) -> Seq<int>
    decreases n,
{
    if n <= 0 {
        Seq::empty()
    } else {
        active_indices_prefix(ps, n - 1) + if active(ps[n - 1]) {
            seq![n - 1]
        } else {
            Seq::empty()
        }
    }
}

/// The indices of all active positions, in position order.
pub open spec fn active_indices(ps: Seq<MarketPosition>) -> Seq<int> {
    active_indices_prefix(ps, ps.len() as int)
}

proof fn lemma_oracle_list_prefix(ps: Seq<MarketPosition>, ms: Seq<Market>, n: int)
    requires
        0 <= n <= ps.len(),
    ensures
        oracle_refs_prefix(ps, ms, n).len() == active_indices_prefix(ps, n).len(),
        forall|k: int|
            0 <= k < active_indices_prefix(ps, n).len() ==> 0 <= #[trigger] active_indices_prefix(
                ps,
                n,
            )[k] < n && active(ps[active_indices_prefix(ps, n)[k]]),
        forall|k: int|
            0 <= k < active_indices_prefix(ps, n).len() ==> #[trigger] oracle_refs_prefix(
                ps,
                ms,
                n,
            )[k] == readonly_ref(
                ms[ps[active_indices_prefix(ps, n)[k]].market_index as int].amm.oracle,
            ),
        forall|k1: int, k2: int|
            0 <= k1 < k2 < active_indices_prefix(ps, n).len()
                ==> #[trigger] active_indices_prefix(ps, n)[k1] < #[trigger] active_indices_prefix(
                ps,
                n,
            )[k2],
        forall|j: int| 0 <= j < n && active(#[trigger] ps[j]) ==> active_indices_prefix(ps, n).contains(j),
    decreases n,
{
    if n > 0 {
        lemma_oracle_list_prefix(ps, ms, n - 1);
        assert forall|k: int|
            0 <= k < active_indices_prefix(ps, n).len() implies 0 <= #[trigger] active_indices_prefix(
            ps,
            n,
        )[k] < n && active(ps[active_indices_prefix(ps, n)[k]]) by {
            lemma_oracle_step(ps, ms, n, k);
        }
        assert forall|k: int|
            0 <= k < active_indices_prefix(ps, n).len() implies #[trigger] oracle_refs_prefix(
            ps,
            ms,
            n,
        )[k] == readonly_ref(
            ms[ps[active_indices_prefix(ps, n)[k]].market_index as int].amm.oracle,
        ) by {
            lemma_oracle_step(ps, ms, n, k);
        }
        assert forall|k1: int, k2: int|
            0 <= k1 < k2 < active_indices_prefix(ps, n).len() implies #[trigger] active_indices_prefix(
            ps,
            n,
        )[k1] < #[trigger] active_indices_prefix(ps, n)[k2] by {
            lemma_oracle_step(ps, ms, n, k1);
            lemma_oracle_step(ps, ms, n, k2);
            if k2 >= active_indices_prefix(ps, n - 1).len() {
                assert(active_indices_prefix(ps, n)[k2] == n - 1);
                assert(0 <= active_indices_prefix(ps, n - 1)[k1] < n - 1);
            }
        }
        assert forall|j: int|
            0 <= j < n && active(#[trigger] ps[j]) implies active_indices_prefix(ps, n).contains(
            j,
        ) by {
            if j < n - 1 {
                let k = choose|k: int|
                    0 <= k < active_indices_prefix(ps, n - 1).len()
                        && #[trigger] active_indices_prefix(ps, n - 1)[k] == j;
                lemma_oracle_step(ps, ms, n, k);
                assert(active_indices_prefix(ps, n)[k] == j);
            } else {
                assert(active(ps[n - 1]));
                assert(active_indices_prefix(ps, n).last() == j);
            }
        }
    }
}

/// One unfolding step: how entry `k` of the prefix lists for `n` relates to
/// the lists for `n - 1`.
proof fn lemma_oracle_step(ps: Seq<MarketPosition>, ms: Seq<Market>, n: int, k: int)
    requires
        0 < n <= ps.len(),
        oracle_refs_prefix(ps, ms, n - 1).len() == active_indices_prefix(ps, n - 1).len(),
        forall|k0: int|
            0 <= k0 < active_indices_prefix(ps, n - 1).len()
                ==> 0 <= #[trigger] active_indices_prefix(ps, n - 1)[k0] < n - 1 && active(
                ps[active_indices_prefix(ps, n - 1)[k0]],
            ),
        forall|k0: int|
            0 <= k0 < active_indices_prefix(ps, n - 1).len() ==> #[trigger] oracle_refs_prefix(
                ps,
                ms,
                n - 1,
            )[k0] == readonly_ref(
                ms[ps[active_indices_prefix(ps, n - 1)[k0]].market_index as int].amm.oracle,
            ),
        0 <= k < active_indices_prefix(ps, n).len(),
    ensures
        oracle_refs_prefix(ps, ms, n).len() == active_indices_prefix(ps, n).len(),
        k < active_indices_prefix(ps, n - 1).len() ==> active_indices_prefix(ps, n)[k]
            == active_indices_prefix(ps, n - 1)[k] && oracle_refs_prefix(ps, ms, n)[k]
            == oracle_refs_prefix(ps, ms, n - 1)[k],
        k >= active_indices_prefix(ps, n - 1).len() ==> active(ps[n - 1]) && active_indices_prefix(
            ps,
            n,
        )[k] == n - 1 && oracle_refs_prefix(ps, ms, n)[k] == readonly_ref(
            ms[ps[n - 1].market_index as int].amm.oracle,
        ),
        0 <= active_indices_prefix(ps, n)[k] < n && active(ps[active_indices_prefix(ps, n)[k]]),
        oracle_refs_prefix(ps, ms, n)[k] == readonly_ref(
            ms[ps[active_indices_prefix(ps, n)[k]].market_index as int].amm.oracle,
        ),
{
    if active(ps[n - 1]) {
        assert(active_indices_prefix(ps, n) == active_indices_prefix(ps, n - 1) + seq![n - 1]);
        assert(oracle_refs_prefix(ps, ms, n) == oracle_refs_prefix(ps, ms, n - 1) + seq![
            readonly_ref(ms[ps[n - 1].market_index as int].amm.oracle),
        ]);
    } else {
        assert(active_indices_prefix(ps, n) == active_indices_prefix(ps, n - 1) + Seq::empty());
        assert(active_indices_prefix(ps, n) =~= active_indices_prefix(ps, n - 1));
        assert(oracle_refs_prefix(ps, ms, n) =~= oracle_refs_prefix(ps, ms, n - 1));
    }
}

/// Oracle-list completeness: the oracle tail holds exactly one readonly
/// reference to the market oracle of each position with nonzero exposure, in
/// position order (the position indices behind consecutive references rise
/// strictly), and nothing for positions with zero exposure; when active
/// positions reference pairwise distinct markets, no market's oracle stands
/// for two references.
pub proof fn lemma_oracle_list_complete(ps: Seq<MarketPosition>, ms: Seq<Market>)
    ensures
        oracle_refs(ps, ms).len() == active_indices(ps).len(),
        forall|k: int|
            0 <= k < active_indices(ps).len() ==> 0 <= #[trigger] active_indices(ps)[k] < ps.len()
                && active(ps[active_indices(ps)[k]]),
        forall|k: int|
            0 <= k < active_indices(ps).len() ==> #[trigger] oracle_refs(ps, ms)[k] == readonly_ref(
                ms[ps[active_indices(ps)[k]].market_index as int].amm.oracle,
            ),
        forall|k1: int, k2: int|
            0 <= k1 < k2 < active_indices(ps).len() ==> #[trigger] active_indices(ps)[k1]
                < #[trigger] active_indices(ps)[k2],
        forall|j: int| 0 <= j < ps.len() && active(#[trigger] ps[j]) ==> active_indices(ps).contains(j),
        crate::model::positions_distinct(ps) ==> forall|k1: int, k2: int|
            0 <= k1 < k2 < active_indices(ps).len()
                ==> ps[#[trigger] active_indices(ps)[k1]].market_index != ps[#[trigger] active_indices(
                ps,
            )[k2]].market_index,
{
    let n = ps.len() as int;
    lemma_oracle_list_prefix(ps, ms, n);
    if crate::model::positions_distinct(ps) {
        assert forall|k1: int, k2: int|
            0 <= k1 < k2 < active_indices(ps).len() implies ps[#[trigger] active_indices(
            ps,
        )[k1]].market_index != ps[#[trigger] active_indices(ps)[k2]].market_index by {
            assert(0 <= active_indices_prefix(ps, n)[k1] < n && active(
                ps[active_indices_prefix(ps, n)[k1]],
            ));
            assert(0 <= active_indices_prefix(ps, n)[k2] < n && active(
                ps[active_indices_prefix(ps, n)[k2]],
            ));
            assert(active_indices_prefix(ps, n)[k1] < active_indices_prefix(ps, n)[k2]);
        }
    }
}

/// Builds the ordered account-reference list of a liquidation instruction:
/// the fixed head demanded by the venue program's calling convention, then the
/// price oracle of every market where the target holds a nonzero position, in
/// position order.
pub fn build_liquidation_accounts(
    state_key: Addr,
    state: &State,
    payer: Addr,
    liquidator_account: Addr,
    user_key: Addr,
    user: &User,
    user_positions: &UserPositions,
    markets: &Markets,
    token_program: Addr,
) -> (r: Vec<AccountRef>)
    requires
        positions_valid(user_positions.positions@, markets.markets@),
    ensures
        r@ == liquidation_fixed_accounts(
            state_key,
            *state,
            payer,
            liquidator_account,
            user_key,
            user.positions,
            token_program,
        ) + oracle_refs(user_positions.positions@, markets.markets@),
{
    let ghost ps = user_positions.positions@;
    let ghost ms = markets.markets@;
    let ghost fixed = liquidation_fixed_accounts(
        state_key,
        *state,
        payer,
        liquidator_account,
        user_key,
        user.positions,
        token_program,
    );
    let mut accounts: Vec<AccountRef> = Vec::new();
    accounts.push(AccountRef { addr: state_key, is_signer: false, is_writable: false });
    accounts.push(AccountRef { addr: payer, is_signer: true, is_writable: true });
    accounts.push(AccountRef { addr: liquidator_account, is_signer: false, is_writable: true });
    accounts.push(AccountRef { addr: user_key, is_signer: false, is_writable: true });
    accounts.push(AccountRef { addr: state.collateral_vault, is_signer: false, is_writable: true });
    accounts.push(
        AccountRef { addr: state.collateral_vault_authority, is_signer: false, is_writable: false },
    );
    accounts.push(AccountRef { addr: state.insurance_vault, is_signer: false, is_writable: true });
    accounts.push(
        AccountRef { addr: state.insurance_vault_authority, is_signer: false, is_writable: false },
    );
    accounts.push(AccountRef { addr: token_program, is_signer: false, is_writable: false });
    accounts.push(AccountRef { addr: state.markets, is_signer: false, is_writable: true });
    accounts.push(AccountRef { addr: user.positions, is_signer: false, is_writable: true });
    accounts.push(AccountRef { addr: state.trade_history, is_signer: false, is_writable: true });
    accounts.push(
        AccountRef { addr: state.liquidation_history, is_signer: false, is_writable: true },
    );
    accounts.push(
        AccountRef { addr: state.funding_payment_history, is_signer: false, is_writable: true },
    );
    assert(accounts@ =~= fixed);
    let n = user_positions.positions.len();
    let mut i: usize = 0;
    while i < n
        invariant
            ps == user_positions.positions@,
            ms == markets.markets@,
            positions_valid(ps, ms),
            n == ps.len(),
            0 <= i <= n,
            accounts@ == fixed + oracle_refs_prefix(ps, ms, i as int),
        decreases n - i,
    {
        let p = user_positions.positions[i];
        if p.base_asset_amount != 0 {
            assert(active(ps[i as int]) && (ps[i as int].market_index as int) < ms.len());
            let table_len = markets.markets.len();
            assert((p.market_index as int) < table_len as int);
            let idx = p.market_index as usize;
            let oracle = markets.markets[idx].amm.oracle;
            accounts.push(AccountRef { addr: oracle, is_signer: false, is_writable: false });
        }
        proof {
            assert(accounts@ =~= fixed + oracle_refs_prefix(ps, ms, i + 1));
        }
        i = i + 1;
    }
    accounts
}


/// The value of a hexadecimal digit, either case; `-1` for any other
/// character.
pub open spec fn hex_digit_value(c: char) -> int {
    let v = c as int;
    if 48 <= v <= 57 {
        v - 48
    } else if 65 <= v <= 70 {
        v - 55
    } else if 97 <= v <= 102 {
        v - 87
    } else {
        -1
    }
}

pub open spec fn is_hex_digit(c: char) -> bool {
    hex_digit_value(c) >= 0
}

/// A string of hexadecimal digit pairs: even length, every character a digit.
pub open spec fn valid_hex(s: Seq<char>) -> bool
    decreases s.len(),
{
    if s.len() == 0 {
        true
    } else if s.len() == 1 {
        false
    } else {
        is_hex_digit(s[0]) && is_hex_digit(s[1]) && valid_hex(s.skip(2))
    }
}

/// The bytes a string of hexadecimal digit pairs denotes, high digit first.
pub open spec fn hex_bytes(s: Seq<char>) -> Seq<u8>
    decreases s.len(),
{
    if s.len() < 2 {
        Seq::empty()
    } else {
        seq![(16 * hex_digit_value(s[0]) + hex_digit_value(s[1])) as u8] + hex_bytes(s.skip(2))
    }
}

/// Relies on `hex::decode`: each pair of hexadecimal digits (either case)
/// becomes one byte, high digit first; an odd length or a character that is
/// no hexadecimal digit is an error.
#[verifier::external_body]
fn decode_hex(s: &str) -> (r: Option<Vec<u8>>)
    ensures
        r is Some <==> valid_hex(s@),
        r matches Some(v) ==> v@ == hex_bytes(s@),
{
    match hex::decode(s) {
        Ok(v) => Some(v),
        Err(_) => None,
    }
}

/// The fixed opcode of the venue program's liquidation instruction.
pub open spec fn liquidate_opcode() -> Seq<u8> {
    seq![0xdfu8, 0xb3u8, 0xe2u8, 0x7du8, 0x30u8, 0x2eu8, 0x27u8, 0x4au8]
}

/// The liquidation opcode as transmitted: the decoding of its fixed
/// hexadecimal spelling.
pub fn liquidation_instruction_data() -> (r: Vec<u8>)
    ensures
        r@ == liquidate_opcode(),
{
    proof {
        reveal_strlit("dfb3e27d302e274a");
        lemma_opcode_decodes();
    }
    match decode_hex("dfb3e27d302e274a") {
        Some(v) => v,
        None => {
            // unreachable: the spelling above is sixteen hexadecimal digits
            Vec::new()
        },
    }
}

/// The fixed spelling of the liquidation opcode is valid hexadecimal and
/// denotes exactly the opcode bytes.
proof fn lemma_opcode_decodes()
    ensures
        valid_hex("dfb3e27d302e274a"@),
        hex_bytes("dfb3e27d302e274a"@) == liquidate_opcode(),
{
    reveal_strlit("dfb3e27d302e274a");
    let s0 = "dfb3e27d302e274a"@;
    let s2 = s0.skip(2);
    let s4 = s2.skip(2);
    let s6 = s4.skip(2);
    let s8 = s6.skip(2);
    let s10 = s8.skip(2);
    let s12 = s10.skip(2);
    let s14 = s12.skip(2);
    let s16 = s14.skip(2);
    assert(s0.len() == 16);
    assert(s16.len() == 0);
    assert(valid_hex(s16));
    assert(hex_bytes(s16) =~= Seq::<u8>::empty());
    assert(s14[0] == s0[14] && s14[1] == s0[15]);
    assert(valid_hex(s14));
    assert(hex_bytes(s14) =~= seq![0x4au8]);
    assert(s12[0] == s0[12] && s12[1] == s0[13]);
    assert(valid_hex(s12));
    assert(hex_bytes(s12) =~= seq![0x27u8, 0x4au8]);
    assert(s10[0] == s0[10] && s10[1] == s0[11]);
    assert(valid_hex(s10));
    assert(hex_bytes(s10) =~= seq![0x2eu8, 0x27u8, 0x4au8]);
    assert(s8[0] == s0[8] && s8[1] == s0[9]);
    assert(valid_hex(s8));
    assert(hex_bytes(s8) =~= seq![0x30u8, 0x2eu8, 0x27u8, 0x4au8]);
    assert(s6[0] == s0[6] && s6[1] == s0[7]);
    assert(valid_hex(s6));
    assert(hex_bytes(s6) =~= seq![0x7du8, 0x30u8, 0x2eu8, 0x27u8, 0x4au8]);
    assert(s4[0] == s0[4] && s4[1] == s0[5]);
    assert(valid_hex(s4));
    assert(hex_bytes(s4) =~= seq![0xe2u8, 0x7du8, 0x30u8, 0x2eu8, 0x27u8, 0x4au8]);
    assert(s2[0] == s0[2] && s2[1] == s0[3]);
    assert(valid_hex(s2));
    assert(hex_bytes(s2) =~= seq![0xb3u8, 0xe2u8, 0x7du8, 0x30u8, 0x2eu8, 0x27u8, 0x4au8]);
    assert(valid_hex(s0));
    assert(hex_bytes(s0) =~= liquidate_opcode());
}

/// Assembles the complete liquidation instruction for a target account: the
/// venue program addressed, the fixed account head followed by the oracle of
/// every market the target is exposed to, and the fixed opcode.
pub fn build_liquidation_instruction(
    program_id: Addr,
    state_key: Addr,
    state: &State,
    payer: Addr,
    liquidator_account: Addr,
    user_key: Addr,
    user: &User,
    user_positions: &UserPositions,
    markets: &Markets,
    token_program: Addr,
) -> (r: Instruction)
    requires
        positions_valid(user_positions.positions@, markets.markets@),
    ensures
        r.program_id == program_id,
        r.accounts@ == liquidation_fixed_accounts(
            state_key,
            *state,
            payer,
            liquidator_account,
            user_key,
            user.positions,
            token_program,
        ) + oracle_refs(user_positions.positions@, markets.markets@),
        r.data@ == liquidate_opcode(),
{
    let accounts = build_liquidation_accounts(
        state_key,
        state,
        payer,
        liquidator_account,
        user_key,
        user,
        user_positions,
        markets,
        token_program,
    );
    let data = liquidation_instruction_data();
    Instruction { program_id, accounts, data }
}

} // verus!

