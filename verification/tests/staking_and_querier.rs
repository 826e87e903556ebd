use amm_core::asset::{amount_of, AssetInfo, Coin};
use amm_core::error::ContractError;
use amm_core::pair::Instruction;
use amm_core::querier::{pairs_to_map, AstroportFactoryQuerier};
use amm_core::staking::{receive_cw20, Config, Cw20HookMsg};

const ASTRO: u64 = 1;
const XASTRO: u64 = 2;

fn config() -> Config {
    Config { astro_token_addr: ASTRO, xastro_token_addr: XASTRO }
}

#[test]
fn first_stake_mints_one_for_one() {
    // the queried deposit total already contains the 100 that just arrived
    let msgs = receive_cw20(&config(), ASTRO, 3, 100, 100, 0, Cw20HookMsg::Enter).unwrap();
    assert_eq!(msgs, vec![Instruction::Mint { token: XASTRO, recipient: 3, amount: 100 }]);
}

#[test]
fn stake_after_a_donation_mints_floored_pro_rata() {
    // 100 staked, 20 donated, then 10 more arrive: the ratio nets the
    // arrival out first, and 10 * 100 / 120 floors to 8
    let msgs = receive_cw20(&config(), ASTRO, 3, 10, 130, 100, Cw20HookMsg::Enter).unwrap();
    assert_eq!(msgs, vec![Instruction::Mint { token: XASTRO, recipient: 3, amount: 8 }]);
}

#[test]
fn stake_without_netting_would_overpay() {
    // the same arrival measured against the un-netted total would mint 7:
    // the ledger must not do that
    assert_ne!(10 * 100 / 130, 10 * 100 / 120);
}

#[test]
fn only_the_deposit_token_enters() {
    assert_eq!(
        receive_cw20(&config(), XASTRO, 3, 10, 130, 100, Cw20HookMsg::Enter),
        Err(ContractError::Unauthorized)
    );
}

#[test]
fn leave_pays_the_pro_rata_slice() {
    // 120 deposited over 100 shares: 8 shares buy back floor(8*120/100) = 9
    let msgs = receive_cw20(&config(), XASTRO, 3, 8, 120, 100, Cw20HookMsg::Leave).unwrap();
    assert_eq!(
        msgs,
        vec![
            Instruction::Burn { token: XASTRO, amount: 8 },
            Instruction::Transfer {
                info: AssetInfo::Token { id: ASTRO },
                recipient: 3,
                amount: 9,
            },
        ]
    );
}

#[test]
fn leave_with_no_shares_is_a_division_error() {
    assert_eq!(
        receive_cw20(&config(), XASTRO, 3, 5, 120, 0, Cw20HookMsg::Leave),
        Err(ContractError::DivisionByZero)
    );
}

#[test]
fn only_the_share_token_leaves() {
    assert_eq!(
        receive_cw20(&config(), ASTRO, 3, 5, 120, 100, Cw20HookMsg::Leave),
        Err(ContractError::Unauthorized)
    );
}

#[test]
fn share_arithmetic_overflow_is_reported() {
    assert_eq!(
        receive_cw20(&config(), ASTRO, 3, u128::MAX - 1, u128::MAX, 2, Cw20HookMsg::Enter),
        Err(ContractError::ArithmeticOverflow)
    );
    assert_eq!(
        receive_cw20(&config(), XASTRO, 3, u128::MAX, 2, 1, Cw20HookMsg::Leave),
        Err(ContractError::ArithmeticOverflow)
    );
}

#[test]
fn pair_table_keeps_the_last_entry_per_key() {
    let entries = vec![
        ("uusdasset".to_string(), "pair0000".to_string()),
        ("ulunaasset".to_string(), "pair0001".to_string()),
        ("uusdasset".to_string(), "pair0002".to_string()),
    ];
    let m = pairs_to_map(&entries);
    assert_eq!(m.get(&"uusdasset".to_string()), Some(&"pair0002".to_string()));
    assert_eq!(m.get(&"ulunaasset".to_string()), Some(&"pair0001".to_string()));
    assert_eq!(m.get(&"missing".to_string()), None);
}

#[test]
fn factory_querier_wraps_the_pair_table() {
    let entries = vec![("uusduluna".to_string(), "pair0000".to_string())];
    let q = AstroportFactoryQuerier::new(&entries);
    assert_eq!(q.pairs.get(&"uusduluna".to_string()), Some(&"pair0000".to_string()));
}

#[test]
fn amount_of_finds_the_first_matching_denomination() {
    let coins = vec![
        Coin { denom: "uusd".to_string(), amount: 7 },
        Coin { denom: "uluna".to_string(), amount: 9 },
    ];
    assert_eq!(amount_of(&coins, "uluna".to_string()), 9);
    assert_eq!(amount_of(&coins, "uusd".to_string()), 7);
    assert_eq!(amount_of(&coins, "ukrw".to_string()), 0);
}
