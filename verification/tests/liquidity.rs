use amm_core::asset::{Asset, AssetInfo};
use amm_core::error::ContractError;
use amm_core::pair::{
    get_share_in_assets, instantiate, mint_liquidity_token_message, provide_liquidity, query_pool,
    query_share, reply, withdraw_liquidity, Config, Instruction,
};

const TOKEN_A: AssetInfo = AssetInfo::Token { id: 1 };
const TOKEN_B: AssetInfo = AssetInfo::Token { id: 2 };
const NATIVE_U: AssetInfo = AssetInfo::NativeToken { id: 11 };

fn fresh_config() -> Config {
    let mut config = instantiate([TOKEN_A, TOKEN_B]).unwrap();
    reply(&mut config, 9).unwrap();
    config
}

#[test]
fn instantiate_rejects_twin_assets() {
    assert_eq!(instantiate([TOKEN_A, TOKEN_A]), Err(ContractError::DoublingAssets));
}

#[test]
fn reply_sets_share_token_once() {
    let mut config = instantiate([TOKEN_A, TOKEN_B]).unwrap();
    assert_eq!(reply(&mut config, 9), Ok(()));
    assert_eq!(config.liquidity_token, 9);
    assert_eq!(reply(&mut config, 10), Err(ContractError::Unauthorized));
    assert_eq!(config.liquidity_token, 9);
}

#[test]
fn first_deposit_mints_geometric_mean() {
    let mut config = fresh_config();
    let assets = [
        Asset { info: TOKEN_A, amount: 100 },
        Asset { info: TOKEN_B, amount: 100 },
    ];
    let pools = [
        Asset { info: TOKEN_A, amount: 0 },
        Asset { info: TOKEN_B, amount: 0 },
    ];
    let (msgs, share) =
        provide_liquidity(&mut config, 5, 77, 3, assets, pools, 0, None, false, 3, None).unwrap();
    assert_eq!(share, 100);
    assert_eq!(
        msgs,
        vec![
            Instruction::TransferFrom { token: 1, owner: 3, recipient: 77, amount: 100 },
            Instruction::TransferFrom { token: 2, owner: 3, recipient: 77, amount: 100 },
            Instruction::Mint { token: 9, recipient: 3, amount: 100 },
        ]
    );
}

#[test]
fn first_deposit_of_unequal_amounts() {
    let mut config = fresh_config();
    let assets = [
        Asset { info: TOKEN_A, amount: 2 },
        Asset { info: TOKEN_B, amount: 8 },
    ];
    let pools = [
        Asset { info: TOKEN_A, amount: 0 },
        Asset { info: TOKEN_B, amount: 0 },
    ];
    let (_msgs, share) =
        provide_liquidity(&mut config, 5, 77, 3, assets, pools, 0, None, false, 3, None).unwrap();
    // floor(sqrt(16)) = 4
    assert_eq!(share, 4);
}

#[test]
fn second_deposit_mints_pro_rata() {
    let mut config = fresh_config();
    let assets = [
        Asset { info: TOKEN_A, amount: 100 },
        Asset { info: TOKEN_B, amount: 100 },
    ];
    let pools = [
        Asset { info: TOKEN_A, amount: 100 },
        Asset { info: TOKEN_B, amount: 100 },
    ];
    let (_msgs, share) =
        provide_liquidity(&mut config, 5, 77, 3, assets, pools, 100, None, false, 3, None)
            .unwrap();
    assert_eq!(share, 100);
}

#[test]
fn asymmetric_deposit_mints_the_lesser_valuation() {
    let mut config = fresh_config();
    let assets = [
        Asset { info: TOKEN_A, amount: 100 },
        Asset { info: TOKEN_B, amount: 70 },
    ];
    let pools = [
        Asset { info: TOKEN_A, amount: 1_000 },
        Asset { info: TOKEN_B, amount: 1_000 },
    ];
    // 70/1000 of the supply is the lesser side; the wide tolerance lets the
    // skewed ratio through so the minting rule itself is visible
    let half = amm_core::MAX_ALLOWED_SLIPPAGE_RATE;
    let (_msgs, share) = provide_liquidity(
        &mut config, 5, 77, 3, assets, pools, 500, Some(half), false, 3, None,
    )
    .unwrap();
    assert_eq!(share, 35);
}

#[test]
fn deposit_of_zero_is_rejected() {
    let mut config = fresh_config();
    let assets = [
        Asset { info: TOKEN_A, amount: 0 },
        Asset { info: TOKEN_B, amount: 5 },
    ];
    let pools = [
        Asset { info: TOKEN_A, amount: 0 },
        Asset { info: TOKEN_B, amount: 0 },
    ];
    assert_eq!(
        provide_liquidity(&mut config, 5, 77, 3, assets, pools, 0, None, false, 3, None),
        Err(ContractError::InvalidZeroAmount)
    );
}

#[test]
fn deposit_of_foreign_asset_is_rejected() {
    let mut config = fresh_config();
    let assets = [
        Asset { info: NATIVE_U, amount: 10 },
        Asset { info: TOKEN_B, amount: 10 },
    ];
    let pools = [
        Asset { info: TOKEN_A, amount: 0 },
        Asset { info: TOKEN_B, amount: 0 },
    ];
    assert_eq!(
        provide_liquidity(&mut config, 5, 77, 3, assets, pools, 0, None, false, 3, None),
        Err(ContractError::AssetMismatch)
    );
}

#[test]
fn native_deposit_is_netted_not_pulled() {
    let mut config = instantiate([NATIVE_U, TOKEN_B]).unwrap();
    reply(&mut config, 9).unwrap();
    let assets = [
        Asset { info: NATIVE_U, amount: 50 },
        Asset { info: TOKEN_B, amount: 50 },
    ];
    // the native balance was already credited when queried
    let pools = [
        Asset { info: NATIVE_U, amount: 50 },
        Asset { info: TOKEN_B, amount: 0 },
    ];
    let (msgs, share) =
        provide_liquidity(&mut config, 5, 77, 3, assets, pools, 0, None, false, 3, None).unwrap();
    assert_eq!(share, 50);
    // only the external token is pulled
    assert_eq!(
        msgs,
        vec![
            Instruction::TransferFrom { token: 2, owner: 3, recipient: 77, amount: 50 },
            Instruction::Mint { token: 9, recipient: 3, amount: 50 },
        ]
    );
}

#[test]
fn auto_stake_needs_a_generator() {
    let mut config = fresh_config();
    let assets = [
        Asset { info: TOKEN_A, amount: 10 },
        Asset { info: TOKEN_B, amount: 10 },
    ];
    let pools = [
        Asset { info: TOKEN_A, amount: 0 },
        Asset { info: TOKEN_B, amount: 0 },
    ];
    assert_eq!(
        provide_liquidity(&mut config, 5, 77, 3, assets, pools, 0, None, true, 3, None),
        Err(ContractError::AutoStakeError)
    );
    let (msgs, _share) =
        provide_liquidity(&mut config, 5, 77, 3, assets, pools, 0, None, true, 3, Some(42))
            .unwrap();
    assert_eq!(
        msgs[2..],
        [
            Instruction::Mint { token: 9, recipient: 77, amount: 10 },
            Instruction::SendToGenerator { token: 9, generator: 42, amount: 10, depositor: 3 },
        ]
    );
}

#[test]
fn mint_message_goes_straight_to_recipient() {
    let config = fresh_config();
    let msgs = mint_liquidity_token_message(&config, 77, 3, 25, false, None).unwrap();
    assert_eq!(msgs, vec![Instruction::Mint { token: 9, recipient: 3, amount: 25 }]);
}

#[test]
fn bootstrap_round_trip_returns_the_deposit() {
    // deposit (100, 100), mint 100 shares, withdraw them all at once
    let mut config = fresh_config();
    let pools = [
        Asset { info: TOKEN_A, amount: 100 },
        Asset { info: TOKEN_B, amount: 100 },
    ];
    let msgs = withdraw_liquidity(&mut config, 5, 9, 3, 100, pools, 100).unwrap();
    assert_eq!(
        msgs,
        vec![
            Instruction::Transfer { info: TOKEN_A, recipient: 3, amount: 100 },
            Instruction::Transfer { info: TOKEN_B, recipient: 3, amount: 100 },
            Instruction::Burn { token: 9, amount: 100 },
        ]
    );
}

#[test]
fn withdrawal_is_pro_rata_rounded_down() {
    let mut config = fresh_config();
    let pools = [
        Asset { info: TOKEN_A, amount: 999 },
        Asset { info: TOKEN_B, amount: 100 },
    ];
    let msgs = withdraw_liquidity(&mut config, 5, 9, 3, 30, pools, 100).unwrap();
    assert_eq!(
        msgs[0],
        Instruction::Transfer { info: TOKEN_A, recipient: 3, amount: 299 }
    );
    assert_eq!(
        msgs[1],
        Instruction::Transfer { info: TOKEN_B, recipient: 3, amount: 30 }
    );
}

#[test]
fn withdrawal_only_for_the_share_token() {
    let mut config = fresh_config();
    let pools = [
        Asset { info: TOKEN_A, amount: 100 },
        Asset { info: TOKEN_B, amount: 100 },
    ];
    assert_eq!(
        withdraw_liquidity(&mut config, 5, 8, 3, 100, pools, 100),
        Err(ContractError::Unauthorized)
    );
}

#[test]
fn share_query_matches_redemption() {
    let pools = [
        Asset { info: TOKEN_A, amount: 999 },
        Asset { info: TOKEN_B, amount: 100 },
    ];
    let refunds = query_share(pools, 30, 100).unwrap();
    assert_eq!(
        refunds,
        vec![
            Asset { info: TOKEN_A, amount: 299 },
            Asset { info: TOKEN_B, amount: 30 },
        ]
    );
    // with no shares outstanding the claim is empty
    let refunds = get_share_in_assets(&pools, 30, 0).unwrap();
    assert_eq!(refunds[0].amount, 0);
    assert_eq!(refunds[1].amount, 0);
}

#[test]
fn pool_query_echoes_reserves() {
    let pools = [
        Asset { info: TOKEN_A, amount: 7 },
        Asset { info: TOKEN_B, amount: 8 },
    ];
    let resp = query_pool(pools, 15);
    assert_eq!(resp.assets[0].amount, 7);
    assert_eq!(resp.assets[1].amount, 8);
    assert_eq!(resp.total_share, 15);
}

#[test]
fn oversized_share_claim_overflows() {
    let pools = [
        Asset { info: TOKEN_A, amount: u128::MAX },
        Asset { info: TOKEN_B, amount: u128::MAX },
    ];
    assert_eq!(
        query_share(pools, u128::MAX, 2),
        Err(ContractError::ArithmeticOverflow)
    );
}
