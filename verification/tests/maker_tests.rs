use amm_core::asset::AssetInfo;
use amm_core::error::ContractError;
use amm_core::maker::{
    build_distribute_msg, collect, distribute_rewards, enable_rewards, get_pool,
    swap_bridge_assets, try_build_swap_msg, update_bridges, validate_bridge, AssetWithLimit,
    BridgeMap, Config, PairInfo, PoolRegistry, RewardDistributionState, BRIDGES_EXECUTION_MAX_DEPTH,
    BRIDGES_INITIAL_DEPTH,
};
use amm_core::pair::Instruction;

const UUSD: AssetInfo = AssetInfo::NativeToken { id: 1 };
const ULUNA: AssetInfo = AssetInfo::NativeToken { id: 2 };
const USDC: AssetInfo = AssetInfo::Token { id: 3 };
const TEST: AssetInfo = AssetInfo::Token { id: 4 };
const BRIDGE2: AssetInfo = AssetInfo::Token { id: 5 };
const ASTRO: AssetInfo = AssetInfo::Token { id: 6 };

const OWNER: u64 = 100;

fn config() -> Config {
    Config {
        owner: OWNER,
        factory: 101,
        staking: 102,
        governance: Some(103),
        governance_percent: 10,
        astro_token: ASTRO,
        max_spread: amm_core::RATE_SCALE / 2,
    }
}

fn pair(n: u64, a: AssetInfo, b: AssetInfo) -> PairInfo {
    PairInfo { contract_addr: n, asset_infos: [a, b] }
}

/// The five pools of the deep-bridge scenario: only BRIDGE2 trades
/// directly against the protocol token.
fn deep_registry() -> PoolRegistry {
    PoolRegistry {
        pairs: vec![
            pair(201, UUSD, ULUNA),
            pair(202, ULUNA, USDC),
            pair(203, USDC, TEST),
            pair(204, TEST, BRIDGE2),
            pair(205, BRIDGE2, ASTRO),
        ],
    }
}

#[test]
fn pool_lookup_is_order_insensitive() {
    let registry = deep_registry();
    assert_eq!(get_pool(&registry, ULUNA, UUSD).unwrap().contract_addr, 201);
    assert_eq!(get_pool(&registry, UUSD, ULUNA).unwrap().contract_addr, 201);
    assert_eq!(
        get_pool(&registry, UUSD, ASTRO),
        Err(ContractError::InvalidBridgeNoPool(UUSD, ASTRO))
    );
}

#[test]
fn bridge_chain_beyond_max_depth_is_rejected_at_configuration() {
    let cfg = config();
    let registry = deep_registry();
    let mut bridges = BridgeMap::new();
    // USDC -> TEST -> BRIDGE2 -> ASTRO resolves within two hops
    let add = vec![(TEST, BRIDGE2), (USDC, TEST), (ULUNA, USDC)];
    assert_eq!(
        update_bridges(&cfg, &registry, &mut bridges, OWNER, &add, &vec![]),
        Ok(())
    );
    // one more hop in front would need a third: rejected now, not at
    // collection time, and the accepted edges above stay untouched
    let too_deep = vec![(UUSD, ULUNA)];
    assert_eq!(
        update_bridges(&cfg, &registry, &mut bridges, OWNER, &too_deep, &vec![]),
        Err(ContractError::MaxBridgeDepth(2))
    );
    assert_eq!(bridges.load(UUSD), None);
    assert_eq!(bridges.load(ULUNA), Some(USDC));
}

#[test]
fn one_bad_edge_rejects_the_whole_update() {
    let cfg = config();
    let registry = deep_registry();
    let mut bridges = BridgeMap::new();
    // the first edge is fine on its own, the second has no pool
    let add = vec![(TEST, BRIDGE2), (UUSD, USDC)];
    assert_eq!(
        update_bridges(&cfg, &registry, &mut bridges, OWNER, &add, &vec![]),
        Err(ContractError::InvalidBridgeNoPool(UUSD, USDC))
    );
    // nothing was kept
    assert_eq!(bridges.load(TEST), None);
}

#[test]
fn bridge_with_no_route_onward_is_rejected() {
    let cfg = config();
    // a pool for the edge, but the bridge token goes nowhere
    let registry = PoolRegistry { pairs: vec![pair(201, UUSD, ULUNA)] };
    let mut bridges = BridgeMap::new();
    assert_eq!(
        update_bridges(&cfg, &registry, &mut bridges, OWNER, &vec![(UUSD, ULUNA)], &vec![]),
        Err(ContractError::InvalidBridgeDestination(UUSD))
    );
}

#[test]
fn only_the_owner_configures_bridges() {
    let cfg = config();
    let registry = deep_registry();
    let mut bridges = BridgeMap::new();
    assert_eq!(
        update_bridges(&cfg, &registry, &mut bridges, 7, &vec![(TEST, BRIDGE2)], &vec![]),
        Err(ContractError::Unauthorized)
    );
}

#[test]
fn removing_a_bridge_is_unconditional() {
    let cfg = config();
    let registry = deep_registry();
    let mut bridges = BridgeMap::new();
    update_bridges(&cfg, &registry, &mut bridges, OWNER, &vec![(TEST, BRIDGE2)], &vec![])
        .unwrap();
    assert_eq!(bridges.load(TEST), Some(BRIDGE2));
    update_bridges(&cfg, &registry, &mut bridges, OWNER, &vec![], &vec![TEST]).unwrap();
    assert_eq!(bridges.load(TEST), None);
}

#[test]
fn validate_bridge_accepts_a_direct_second_hop() {
    let registry = deep_registry();
    let bridges = BridgeMap::new();
    let p = validate_bridge(&registry, &bridges, TEST, BRIDGE2, ASTRO, BRIDGES_INITIAL_DEPTH)
        .unwrap();
    assert_eq!(p.contract_addr, 204);
}

#[test]
fn collect_routes_directly_and_over_bridges() {
    let cfg = config();
    let registry = deep_registry();
    let mut bridges = BridgeMap::new();
    update_bridges(
        &cfg,
        &registry,
        &mut bridges,
        OWNER,
        &vec![(TEST, BRIDGE2), (USDC, TEST)],
        &vec![],
    )
    .unwrap();
    let items = vec![
        (AssetWithLimit { info: ASTRO, limit: None }, 10),
        (AssetWithLimit { info: BRIDGE2, limit: None }, 40),
        (AssetWithLimit { info: USDC, limit: Some(15) }, 20),
        (AssetWithLimit { info: TEST, limit: None }, 0),
    ];
    let msgs = collect(&cfg, &registry, &bridges, &items).unwrap();
    // ASTRO itself and the empty TEST balance are skipped; BRIDGE2 swaps
    // straight to ASTRO; USDC takes its bridge, capped at its limit
    assert_eq!(msgs.len(), 3);
    assert_eq!(
        msgs[0],
        Instruction::TokenSwap { token: 5, pair: 205, amount: 40, max_spread: cfg.max_spread }
    );
    assert_eq!(
        msgs[1],
        Instruction::TokenSwap { token: 3, pair: 203, amount: 15, max_spread: cfg.max_spread }
    );
    assert_eq!(
        msgs[2],
        Instruction::SwapBridgeAssets { assets: vec![TEST], depth: BRIDGES_INITIAL_DEPTH + 1 }
    );
}

#[test]
fn collect_without_bridge_work_ends_in_distribution() {
    let cfg = config();
    let registry = deep_registry();
    let bridges = BridgeMap::new();
    let items = vec![(AssetWithLimit { info: BRIDGE2, limit: None }, 40)];
    let msgs = collect(&cfg, &registry, &bridges, &items).unwrap();
    assert_eq!(msgs.len(), 2);
    assert_eq!(msgs[1], Instruction::DistributeRewards);
}

#[test]
fn collect_rejects_duplicates_before_any_effect() {
    let cfg = config();
    let registry = deep_registry();
    let bridges = BridgeMap::new();
    let items = vec![
        (AssetWithLimit { info: BRIDGE2, limit: None }, 40),
        (AssetWithLimit { info: BRIDGE2, limit: Some(1) }, 40),
    ];
    assert_eq!(
        collect(&cfg, &registry, &bridges, &items),
        Err(ContractError::DuplicatedAsset)
    );
}

#[test]
fn collect_with_no_swap_destination_fails() {
    let cfg = config();
    let registry = deep_registry();
    let bridges = BridgeMap::new();
    let items = vec![(AssetWithLimit { info: UUSD, limit: None }, 100)];
    assert_eq!(
        collect(&cfg, &registry, &bridges, &items),
        Err(ContractError::CannotSwap(UUSD))
    );
}

#[test]
fn bridge_follow_up_is_depth_bounded() {
    let cfg = config();
    let registry = deep_registry();
    let bridges = BridgeMap::new();
    assert_eq!(
        swap_bridge_assets(&cfg, &registry, &bridges, &vec![(BRIDGE2, 5)], BRIDGES_EXECUTION_MAX_DEPTH),
        Err(ContractError::MaxBridgeDepth(BRIDGES_EXECUTION_MAX_DEPTH))
    );
    let msgs =
        swap_bridge_assets(&cfg, &registry, &bridges, &vec![(BRIDGE2, 5)], 1).unwrap();
    assert_eq!(msgs.len(), 2);
    assert_eq!(msgs[1], Instruction::DistributeRewards);
}

#[test]
fn swap_message_shape_follows_the_asset_kind() {
    let cfg = config();
    let registry = deep_registry();
    let native = try_build_swap_msg(&cfg, &registry, UUSD, ULUNA, 33).unwrap();
    assert_eq!(
        native,
        Instruction::NativeSwap {
            pair: 201,
            offer: amm_core::asset::Asset { info: UUSD, amount: 33 },
            max_spread: cfg.max_spread,
        }
    );
    assert_eq!(build_distribute_msg(vec![], 2), Instruction::DistributeRewards);
}

#[test]
fn rewards_enable_only_once_and_only_by_owner() {
    let mut state = RewardDistributionState::new();
    assert_eq!(
        enable_rewards(&mut state, 7, OWNER, 1000, 10, 218),
        Err(ContractError::Unauthorized)
    );
    assert_eq!(
        enable_rewards(&mut state, OWNER, OWNER, 1000, 0, 218),
        Err(ContractError::InvalidBlocksNumber)
    );
    assert_eq!(enable_rewards(&mut state, OWNER, OWNER, 1000, 10, 218), Ok(()));
    assert_eq!(
        enable_rewards(&mut state, OWNER, OWNER, 1000, 1, 218),
        Err(ContractError::RewardsAlreadyEnabled)
    );
    assert_eq!(state.pre_upgrade_amount, 218);
    assert_eq!(state.remainder_reward, 218);
}

#[test]
fn vesting_releases_one_slice_per_block_and_is_idempotent() {
    let cfg = config();
    let mut state = RewardDistributionState::new();
    enable_rewards(&mut state, OWNER, OWNER, 1000, 10, 218).unwrap();

    // same block: nothing vests, nothing new arrived
    let (msgs, collected, released) =
        distribute_rewards(&cfg, &mut state, 1000, 218).unwrap();
    assert_eq!((collected, released), (0, 0));
    assert!(msgs.is_empty());

    // one block later: one slice of 218/10 = 21
    let (msgs, collected, released) =
        distribute_rewards(&cfg, &mut state, 1001, 218).unwrap();
    assert_eq!((collected, released), (0, 21));
    assert_eq!(state.remainder_reward, 197);
    // 10% of 21 to governance, the rest to staking
    assert_eq!(
        msgs,
        vec![
            Instruction::Transfer { info: ASTRO, recipient: 103, amount: 2 },
            Instruction::Transfer { info: ASTRO, recipient: 102, amount: 19 },
        ]
    );

    // a second call within the same block releases zero more
    let (_msgs, collected, released) =
        distribute_rewards(&cfg, &mut state, 1001, 197).unwrap();
    assert_eq!((collected, released), (0, 0));
    assert_eq!(state.remainder_reward, 197);
}

#[test]
fn vesting_distributes_new_fees_alongside_the_slice() {
    let cfg = config();
    let mut state = RewardDistributionState::new();
    enable_rewards(&mut state, OWNER, OWNER, 1000, 10, 218).unwrap();
    distribute_rewards(&cfg, &mut state, 1001, 218).unwrap();
    // 30 newly collected while one more slice vests
    let (_msgs, collected, released) =
        distribute_rewards(&cfg, &mut state, 1002, 227).unwrap();
    assert_eq!((collected, released), (30, 21));
    assert_eq!(state.remainder_reward, 176);
    // eight more blocks release eight slices
    let (_msgs, collected, released) =
        distribute_rewards(&cfg, &mut state, 1010, 176).unwrap();
    assert_eq!((collected, released), (0, 168));
    assert_eq!(state.remainder_reward, 8);
    // the tail is capped by the remainder and vesting then ends for good
    let (_msgs, collected, released) =
        distribute_rewards(&cfg, &mut state, 1011, 8).unwrap();
    assert_eq!((collected, released), (0, 8));
    assert_eq!(state.remainder_reward, 0);
    // later collections pass through undiminished
    let (msgs, collected, released) =
        distribute_rewards(&cfg, &mut state, 1012, 115).unwrap();
    assert_eq!((collected, released), (115, 0));
    assert_eq!(
        msgs,
        vec![
            Instruction::Transfer { info: ASTRO, recipient: 103, amount: 11 },
            Instruction::Transfer { info: ASTRO, recipient: 102, amount: 104 },
        ]
    );
}
