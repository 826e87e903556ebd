//! Fee-routing graph resolver: converts collected trading fees into the
//! protocol token over a bridge-token graph, and distributes the proceeds.
//!
//! Bridge edges are validated eagerly at configuration time — a pool must
//! exist at every hop and the chain must reach the protocol token within a
//! bounded depth — never discovered broken later at collection time.

use crate::asset::{Asset, AssetInfo};
use crate::error::ContractError;
use crate::pair::{id_of, Instruction};
use vstd::prelude::*;

verus! {

/// The starting depth of a bridge resolution.
pub const BRIDGES_INITIAL_DEPTH: u64 = 0;

/// The deepest bridge chain a configuration may need.
pub const BRIDGES_MAX_DEPTH: u64 = 2;

/// The deepest chain of collection follow-ups the router executes.
pub const BRIDGES_EXECUTION_MAX_DEPTH: u64 = 3;

/// The fee router's configuration.
#[derive(Clone, Copy, PartialEq, Eq, Debug)]
pub struct Config {
    pub owner: u64,
    pub factory: u64,
    pub staking: u64,
    pub governance: Option<u64>,
    /// Percentage of distributed rewards sent to governance, 0 to 100.
    pub governance_percent: u64,
    pub astro_token: AssetInfo,
    /// The spread bound attached to every routed swap.
    pub max_spread: u128,
}

/// A pair the registry serves: its contract and its two assets.
#[derive(Clone, Copy, PartialEq, Eq, Debug)]
pub struct PairInfo {
    pub contract_addr: u64,
    pub asset_infos: [AssetInfo; 2],
}

/// Whether a pair trades the two given assets, in either order.
pub open spec fn pair_matches(p: PairInfo, a: AssetInfo, b: AssetInfo) -> bool {
    (p.asset_infos[0] == a && p.asset_infos[1] == b) || (p.asset_infos[0] == b
        && p.asset_infos[1] == a)
}

/// The first pair serving the two assets, if any.
pub open spec fn find_pool(s: Seq<PairInfo>, a: AssetInfo, b: AssetInfo) -> Option<PairInfo>
    decreases s.len(),
{
    if s.len() == 0 {
        None
    } else if pair_matches(s[0], a, b) {
        Some(s[0])
    } else {
        find_pool(s.skip(1), a, b)
    }
}

/// The pool registry: what the factory knows of existing pairs.
#[derive(Clone, Debug)]
pub struct PoolRegistry {
    pub pairs: Vec<PairInfo>,
}

proof fn lemma_find_pool_step(s: Seq<PairInfo>, a: AssetInfo, b: AssetInfo, i: int)
    requires
        0 <= i < s.len(),
        !pair_matches(s[i], a, b),
    ensures
        find_pool(s.skip(i), a, b) == find_pool(s.skip(i + 1), a, b),
{
    assert(s.skip(i)[0] == s[i]);
    assert(s.skip(i).skip(1) =~= s.skip(i + 1));
}

/// Looks a trading pair up in the registry; a missing pair is the
/// bridge-configuration error naming both assets.
pub fn get_pool(registry: &PoolRegistry, from: AssetInfo, to: AssetInfo) -> (r: Result<
    PairInfo,
    ContractError,
>)
    ensures
        match r {
            Ok(p) => find_pool(registry.pairs@, from, to) == Some(p),
            Err(e) => find_pool(registry.pairs@, from, to) is None && e
                == ContractError::InvalidBridgeNoPool(from, to),
        },
{
    let n = registry.pairs.len();
    let mut i: usize = 0;
    proof {
        assert(registry.pairs@.skip(0) =~= registry.pairs@);
    }
    while i < n
        invariant
            0 <= i <= n,
            n == registry.pairs@.len(),
            find_pool(registry.pairs@, from, to) == find_pool(registry.pairs@.skip(i as int), from, to),
        decreases n - i,
    {
        let p = registry.pairs[i];
        let hit = (p.asset_infos[0].equal(&from) && p.asset_infos[1].equal(&to)) || (
        p.asset_infos[0].equal(&to) && p.asset_infos[1].equal(&from));
        proof {
            assert(registry.pairs@.skip(i as int)[0] == registry.pairs@[i as int]);
        }
        if hit {
            return Ok(p);
        }
        proof {
            lemma_find_pool_step(registry.pairs@, from, to, i as int);
        }
        i += 1;
    }
    proof {
        assert(registry.pairs@.skip(n as int) =~= Seq::<PairInfo>::empty());
    }
    Err(ContractError::InvalidBridgeNoPool(from, to))
}

/// The configured bridge edges: each fee token has at most one next hop.
/// A later entry for the same token overrides an earlier one, so the last
/// match is the edge in force; updates keep at most one entry per token.
#[derive(Clone, Debug)]
pub struct BridgeMap {
    pub entries: Vec<(AssetInfo, AssetInfo)>,
}

/// The next hop configured for a token, if any: the last entry wins.
pub open spec fn bridge_to(s: Seq<(AssetInfo, AssetInfo)>, from: AssetInfo) -> Option<AssetInfo>
    decreases s.len(),
{
    if s.len() == 0 {
        None
    } else if s.last().0 == from {
        Some(s.last().1)
    } else {
        bridge_to(s.drop_last(), from)
    }
}

/// The entries with the edge of `from` removed.
pub open spec fn without_key(
    s: Seq<(AssetInfo, AssetInfo)>,
    from: AssetInfo,
) -> Seq<(AssetInfo, AssetInfo)>
    decreases s.len(),
{
    if s.len() == 0 {
        Seq::empty()
    } else if s.last().0 == from {
        without_key(s.drop_last(), from)
    } else {
        without_key(s.drop_last(), from).push(s.last())
    }
}

impl BridgeMap {
    /// A map with no edges.
    pub fn new() -> (r: BridgeMap)
        ensures
            r.entries@ =~= Seq::<(AssetInfo, AssetInfo)>::empty(),
    {
        BridgeMap { entries: Vec::new() }
    }

    /// The next hop configured for a token.
    pub fn load(&self, from: AssetInfo) -> (r: Option<AssetInfo>)
        ensures
            r == bridge_to(self.entries@, from),
    {
        let n = self.entries.len();
        let mut i: usize = n;
        proof {
            assert(self.entries@.take(n as int) =~= self.entries@);
        }
        while i > 0
            invariant
                0 <= i <= n,
                n == self.entries@.len(),
                bridge_to(self.entries@, from) == bridge_to(self.entries@.take(i as int), from),
            decreases i,
        {
            let entry = self.entries[i - 1];
            proof {
                assert(self.entries@.take(i as int).last() == self.entries@[i - 1]);
                assert(self.entries@.take(i as int).drop_last() =~= self.entries@.take(i - 1));
            }
            if entry.0.equal(&from) {
                return Some(entry.1);
            }
            i -= 1;
        }
        None
    }

    /// Removes the edge of `from`, if one is configured.
    pub fn remove(&mut self, from: AssetInfo)
        ensures
            final(self).entries@ =~= without_key(old(self).entries@, from),
    {
        let n = self.entries.len();
        let mut out: Vec<(AssetInfo, AssetInfo)> = Vec::new();
        let mut i: usize = 0;
        proof {
            assert(self.entries@.take(0) =~= Seq::<(AssetInfo, AssetInfo)>::empty());
        }
        while i < n
            invariant
                0 <= i <= n,
                n == self.entries@.len(),
                out@ =~= without_key(self.entries@.take(i as int), from),
            decreases n - i,
        {
            let entry = self.entries[i];
            proof {
                assert(self.entries@.take(i + 1).last() == self.entries@[i as int]);
                assert(self.entries@.take(i + 1).drop_last() =~= self.entries@.take(i as int));
            }
            if !entry.0.equal(&from) {
                out.push(entry);
            }
            i += 1;
        }
        proof {
            assert(self.entries@.take(n as int) =~= self.entries@);
        }
        self.entries = out;
    }

    /// Configures the edge of `from`, replacing any earlier one.
    pub fn insert(&mut self, from: AssetInfo, to: AssetInfo)
        ensures
            final(self).entries@ =~= without_key(old(self).entries@, from).push((from, to)),
            bridge_to(final(self).entries@, from) == Some(to),
    {
        self.remove(from);
        self.entries.push((from, to));
        proof {
            assert(self.entries@.last() == (from, to));
        }
    }
}

/// What validating a bridge edge decides, exactly as the resolver walks
/// it: the pool of the edge must exist, and from the bridge token either a
/// direct pool to the protocol token exists, or — within the depth bound —
/// a further edge is configured and resolves in turn.
pub open spec fn validate_result(
    registry: Seq<PairInfo>,
    bridges: Seq<(AssetInfo, AssetInfo)>,
    from_token: AssetInfo,
    bridge_token: AssetInfo,
    astro_token: AssetInfo,
    depth: u64,
) -> Result<PairInfo, ContractError>
    decreases BRIDGES_MAX_DEPTH - depth
        when depth <= BRIDGES_MAX_DEPTH
{
    match find_pool(registry, from_token, bridge_token) {
        None => Err(ContractError::InvalidBridgeNoPool(from_token, bridge_token)),
        Some(bridge_pool) => {
            if find_pool(registry, bridge_token, astro_token) is Some {
                Ok(bridge_pool)
            } else if depth >= BRIDGES_MAX_DEPTH {
                Err(ContractError::MaxBridgeDepth(depth))
            } else {
                match bridge_to(bridges, bridge_token) {
                    None => Err(ContractError::InvalidBridgeDestination(from_token)),
                    Some(next) => match validate_result(
                        registry,
                        bridges,
                        bridge_token,
                        next,
                        astro_token,
                        (depth + 1) as u64,
                    ) {
                        Ok(_) => Ok(bridge_pool),
                        Err(e) => Err(e),
                    },
                }
            }
        },
    }
}

/// Validates a bridge edge at configuration time: rejects a chain that
/// would need more hops than the bound allows, a hop with no pool, or a
/// bridge token with no further route — nothing is left to fail later at
/// collection time.
pub fn validate_bridge(
    registry: &PoolRegistry,
    bridges: &BridgeMap,
    from_token: AssetInfo,
    bridge_token: AssetInfo,
    astro_token: AssetInfo,
    depth: u64,
) -> (r: Result<PairInfo, ContractError>)
    requires
        depth <= BRIDGES_MAX_DEPTH,
    ensures
        r == validate_result(
            registry.pairs@,
            bridges.entries@,
            from_token,
            bridge_token,
            astro_token,
            depth,
        ),
    decreases BRIDGES_MAX_DEPTH - depth,
{
    let bridge_pool = match get_pool(registry, from_token, bridge_token) {
        Ok(p) => p,
        Err(e) => {
            return Err(e);
        },
    };
    match get_pool(registry, bridge_token, astro_token) {
        Ok(_) => Ok(bridge_pool),
        Err(_) => {
            if depth >= BRIDGES_MAX_DEPTH {
                return Err(ContractError::MaxBridgeDepth(depth));
            }
            let next = match bridges.load(bridge_token) {
                Some(n) => n,
                None => {
                    return Err(ContractError::InvalidBridgeDestination(from_token));
                },
            };
            match validate_bridge(registry, bridges, bridge_token, next, astro_token, depth + 1) {
                Ok(_) => Ok(bridge_pool),
                Err(e) => Err(e),
            }
        },
    }
}

/// The swap instruction that sends an amount of a fee token into a pair:
/// a native offer rides as attached funds, an external token is sent with
/// a swap hook.
pub open spec fn swap_msg(cfg: Config, pool: PairInfo, from: AssetInfo, amount_in: u128) -> Instruction {
    if from is NativeToken {
        Instruction::NativeSwap {
            pair: pool.contract_addr,
            offer: Asset { info: from, amount: amount_in },
            max_spread: cfg.max_spread,
        }
    } else {
        Instruction::TokenSwap {
            token: id_of(from),
            pair: pool.contract_addr,
            amount: amount_in,
            max_spread: cfg.max_spread,
        }
    }
}

/// Builds the swap instruction for a known pool.
pub fn build_swap_msg(
    cfg: &Config,
    pool: PairInfo,
    from: AssetInfo,
    amount_in: u128,
) -> (r: Instruction)
    ensures
        r == swap_msg(*cfg, pool, from, amount_in),
{
    if from.is_native_token() {
        Instruction::NativeSwap {
            pair: pool.contract_addr,
            offer: Asset { info: from, amount: amount_in },
            max_spread: cfg.max_spread,
        }
    } else {
        match from {
            AssetInfo::Token { id } => Instruction::TokenSwap {
                token: id,
                pair: pool.contract_addr,
                amount: amount_in,
                max_spread: cfg.max_spread,
            },
            AssetInfo::NativeToken { .. } => {
                proof {
                    assert(false);
                }
                Instruction::DistributeRewards
            },
        }
    }
}

/// Looks the pair up and builds its swap instruction.
pub fn try_build_swap_msg(
    cfg: &Config,
    registry: &PoolRegistry,
    from: AssetInfo,
    to: AssetInfo,
    amount_in: u128,
) -> (r: Result<Instruction, ContractError>)
    ensures
        match r {
            Ok(m) => find_pool(registry.pairs@, from, to) is Some && m == swap_msg(
                *cfg,
                find_pool(registry.pairs@, from, to)->0,
                from,
                amount_in,
            ),
            Err(e) => find_pool(registry.pairs@, from, to) is None && e
                == ContractError::InvalidBridgeNoPool(from, to),
        },
{
    let pool = match get_pool(registry, from, to) {
        Ok(p) => p,
        Err(e) => {
            return Err(e);
        },
    };
    Ok(build_swap_msg(cfg, pool, from, amount_in))
}

/// The follow-up instruction a collection ends with: swap the bridge
/// assets that were produced, or — when none were — distribute what was
/// collected.
pub fn build_distribute_msg(bridge_assets: Vec<AssetInfo>, depth: u64) -> (r: Instruction)
    ensures
        bridge_assets@.len() > 0 ==> (r matches Instruction::SwapBridgeAssets {
            assets: a,
            depth: d,
        } && a@ == bridge_assets@ && d == depth),
        bridge_assets@.len() == 0 ==> r == Instruction::DistributeRewards,
{
    if bridge_assets.len() > 0 {
        Instruction::SwapBridgeAssets { assets: bridge_assets, depth }
    } else {
        Instruction::DistributeRewards
    }
}

/// How one fee token is routed: straight into a pool with the protocol
/// token when one exists, else along its configured bridge edge — whose
/// output must then be collected in a follow-up — and otherwise nowhere.
pub open spec fn route_swap_result(
    cfg: Config,
    registry: Seq<PairInfo>,
    bridges: Seq<(AssetInfo, AssetInfo)>,
    from: AssetInfo,
    amount_in: u128,
) -> Result<(Instruction, Option<AssetInfo>), ContractError> {
    match find_pool(registry, from, cfg.astro_token) {
        Some(pool) => Ok((swap_msg(cfg, pool, from, amount_in), None)),
        None => match bridge_to(bridges, from) {
            Some(next) => match find_pool(registry, from, next) {
                Some(pool) => Ok((swap_msg(cfg, pool, from, amount_in), Some(next))),
                None => Err(ContractError::InvalidBridgeNoPool(from, next)),
            },
            None => Err(ContractError::CannotSwap(from)),
        },
    }
}

/// Routes one fee token toward the protocol token.
fn route_swap(
    cfg: &Config,
    registry: &PoolRegistry,
    bridges: &BridgeMap,
    from: AssetInfo,
    amount_in: u128,
) -> (r: Result<(Instruction, Option<AssetInfo>), ContractError>)
    ensures
        r == route_swap_result(*cfg, registry.pairs@, bridges.entries@, from, amount_in),
{
    match get_pool(registry, from, cfg.astro_token) {
        Ok(pool) => Ok((build_swap_msg(cfg, pool, from, amount_in), None)),
        Err(_) => {
            let next = match bridges.load(from) {
                Some(n) => n,
                None => {
                    return Err(ContractError::CannotSwap(from));
                },
            };
            let pool = match get_pool(registry, from, next) {
                Ok(p) => p,
                Err(e) => {
                    return Err(e);
                },
            };
            Ok((build_swap_msg(cfg, pool, from, amount_in), Some(next)))
        },
    }
}

/// An asset to collect, optionally capped at an amount.
#[derive(Clone, Copy, Debug)]
pub struct AssetWithLimit {
    pub info: AssetInfo,
    pub limit: Option<u128>,
}

/// The amount of a balance a collection request takes: the whole balance,
/// or the cap when one is given and is lower.
pub open spec fn capped_amount(limit: Option<u128>, balance: u128) -> u128 {
    match limit {
        Some(l) => if l < balance {
            l
        } else {
            balance
        },
        None => balance,
    }
}

/// What routing a whole request list yields: the swap instructions in
/// request order — the protocol token itself and empty balances are
/// skipped — and the distinct bridge tokens whose output a follow-up must
/// collect.  The first unroutable token is the error.
pub open spec fn route_all_result(
    cfg: Config,
    registry: Seq<PairInfo>,
    bridges: Seq<(AssetInfo, AssetInfo)>,
    items: Seq<(AssetWithLimit, u128)>,
) -> Result<(Seq<Instruction>, Seq<AssetInfo>), ContractError>
    decreases items.len(),
{
    if items.len() == 0 {
        Ok((Seq::empty(), Seq::empty()))
    } else {
        match route_all_result(cfg, registry, bridges, items.drop_last()) {
            Err(e) => Err(e),
            Ok(acc) => {
                let item = items.last();
                let amount = capped_amount(item.0.limit, item.1);
                if item.0.info == cfg.astro_token || amount == 0 {
                    Ok(acc)
                } else {
                    match route_swap_result(cfg, registry, bridges, item.0.info, amount) {
                        Err(e) => Err(e),
                        Ok((msg, hop)) => Ok(
                            (
                                acc.0.push(msg),
                                match hop {
                                    Some(b) => if acc.1.contains(b) {
                                        acc.1
                                    } else {
                                        acc.1.push(b)
                                    },
                                    None => acc.1,
                                },
                            ),
                        ),
                    }
                }
            },
        }
    }
}

/// Whether an asset identity occurs in a sequence.
fn contains_info(v: &Vec<AssetInfo>, info: AssetInfo) -> (r: bool)
    ensures
        r == v@.contains(info),
{
    let n = v.len();
    let mut i: usize = 0;
    while i < n
        invariant
            0 <= i <= n,
            n == v@.len(),
            forall|j: int| 0 <= j < i ==> v@[j] != info,
        decreases n - i,
    {
        if v[i].equal(&info) {
            return true;
        }
        i += 1;
    }
    false
}

/// Routes every requested asset, gathering the bridge tokens that need a
/// follow-up collection.
fn route_all(
    cfg: &Config,
    registry: &PoolRegistry,
    bridges: &BridgeMap,
    items: &Vec<(AssetWithLimit, u128)>,
) -> (r: Result<(Vec<Instruction>, Vec<AssetInfo>), ContractError>)
    ensures
        match r {
            Ok(out) => route_all_result(*cfg, registry.pairs@, bridges.entries@, items@) matches Ok(
                spec_out,
            ) && out.0@ =~= spec_out.0 && out.1@ =~= spec_out.1,
            Err(e) => route_all_result(*cfg, registry.pairs@, bridges.entries@, items@) == Err::<
                (Seq<Instruction>, Seq<AssetInfo>),
                ContractError,
            >(e),
        },
{
    let n = items.len();
    let mut msgs: Vec<Instruction> = Vec::new();
    let mut hops: Vec<AssetInfo> = Vec::new();
    let mut i: usize = 0;
    proof {
        assert(items@.take(0) =~= Seq::<(AssetWithLimit, u128)>::empty());
    }
    while i < n
        invariant
            0 <= i <= n,
            n == items@.len(),
            route_all_result(*cfg, registry.pairs@, bridges.entries@, items@.take(i as int))
                matches Ok(acc) && msgs@ =~= acc.0 && hops@ =~= acc.1,
        decreases n - i,
    {
        let item = items[i];
        proof {
            assert(items@.take(i + 1).last() == items@[i as int]);
            assert(items@.take(i + 1).drop_last() =~= items@.take(i as int));
        }
        let amount = match item.0.limit {
            Some(l) => if l < item.1 {
                l
            } else {
                item.1
            },
            None => item.1,
        };
        if !(item.0.info.equal(&cfg.astro_token) || amount == 0) {
            match route_swap(cfg, registry, bridges, item.0.info, amount) {
                Ok((msg, hop)) => {
                    msgs.push(msg);
                    match hop {
                        Some(b) => {
                            if !contains_info(&hops, b) {
                                hops.push(b);
                            }
                        },
                        None => (),
                    }
                },
                Err(e) => {
                    proof {
                        lemma_route_all_error_extends(
                            *cfg,
                            registry.pairs@,
                            bridges.entries@,
                            items@,
                            i + 1,
                        );
                    }
                    return Err(e);
                },
            }
        }
        i += 1;
    }
    proof {
        assert(items@.take(n as int) =~= items@);
    }
    Ok((msgs, hops))
}

/// A routing error in a prefix is the error of the whole list.
proof fn lemma_route_all_error_extends(
    cfg: Config,
    registry: Seq<PairInfo>,
    bridges: Seq<(AssetInfo, AssetInfo)>,
    items: Seq<(AssetWithLimit, u128)>,
    i: int,
)
    requires
        0 <= i <= items.len(),
        route_all_result(cfg, registry, bridges, items.take(i)) is Err,
    ensures
        route_all_result(cfg, registry, bridges, items) == route_all_result(
            cfg,
            registry,
            bridges,
            items.take(i),
        ),
    decreases items.len() - i,
{
    if i < items.len() {
        assert(items.take(i + 1).drop_last() =~= items.take(i));
        lemma_route_all_error_extends(cfg, registry, bridges, items, i + 1);
        assert(items.take(items.len() as int) =~= items);
    } else {
        assert(items.take(i) =~= items);
    }
}

/// Whether a collection request names the same asset twice.
pub open spec fn has_duplicate(items: Seq<(AssetWithLimit, u128)>) -> bool {
    exists|i: int, j: int| 0 <= i < j < items.len() && items[i].0.info == items[j].0.info
}

/// Rejects a request list that names an asset twice.
fn assert_no_duplicates(items: &Vec<(AssetWithLimit, u128)>) -> (r: Result<(), ContractError>)
    ensures
        r is Ok <==> !has_duplicate(items@),
        r is Err ==> r->Err_0 == ContractError::DuplicatedAsset,
{
    let n = items.len();
    let mut i: usize = 0;
    while i < n
        invariant
            0 <= i <= n,
            n == items@.len(),
            forall|a: int, b: int|
                0 <= a < b < n && a < i ==> items@[a].0.info != items@[b].0.info,
        decreases n - i,
    {
        let mut j: usize = i + 1;
        while j < n
            invariant
                0 <= i < j <= n,
                n == items@.len(),
                forall|b: int| i < b < j ==> items@[i as int].0.info != items@[b].0.info,
            decreases n - j,
        {
            if items[i].0.info.equal(&items[j].0.info) {
                return Err(ContractError::DuplicatedAsset);
            }
            j += 1;
        }
        i += 1;
    }
    Ok(())
}

/// Collects the requested fee tokens: each distinct one — the protocol
/// token and empty balances aside — is swapped toward the protocol token,
/// and the call ends with a follow-up that either swaps the produced
/// bridge tokens or distributes the proceeds.  Duplicate requests are
/// rejected before any effect.
pub fn collect(
    cfg: &Config,
    registry: &PoolRegistry,
    bridges: &BridgeMap,
    items: &Vec<(AssetWithLimit, u128)>,
) -> (r: Result<Vec<Instruction>, ContractError>)
    ensures
        has_duplicate(items@) ==> r == Err::<Vec<Instruction>, ContractError>(
            ContractError::DuplicatedAsset,
        ),
        !has_duplicate(items@) ==> match route_all_result(
            *cfg,
            registry.pairs@,
            bridges.entries@,
            items@,
        ) {
            Err(e) => r == Err::<Vec<Instruction>, ContractError>(e),
            Ok(out) => (r matches Ok(v) && v@.len() == out.0.len() + 1 && v@.take(
                out.0.len() as int,
            ) =~= out.0 && (out.1.len() == 0 ==> v@.last() == Instruction::DistributeRewards) && (
            out.1.len() > 0 ==> (v@.last() matches Instruction::SwapBridgeAssets {
                assets: a,
                depth: d,
            } && a@ =~= out.1 && d == BRIDGES_INITIAL_DEPTH + 1))),
        },
{
    match assert_no_duplicates(items) {
        Ok(()) => (),
        Err(e) => {
            return Err(e);
        },
    }
    let (mut msgs, hops) = match route_all(cfg, registry, bridges, items) {
        Ok(out) => out,
        Err(e) => {
            return Err(e);
        },
    };
    let follow_up = build_distribute_msg(hops, BRIDGES_INITIAL_DEPTH + 1);
    msgs.push(follow_up);
    Ok(msgs)
}

/// One follow-up step of a multi-hop collection: swaps the bridge tokens
/// produced so far, bounded by the execution depth so the chain of
/// follow-ups cannot fan out without end.
pub fn swap_bridge_assets(
    cfg: &Config,
    registry: &PoolRegistry,
    bridges: &BridgeMap,
    assets: &Vec<(AssetInfo, u128)>,
    depth: u64,
) -> (r: Result<Vec<Instruction>, ContractError>)
    ensures
        depth >= BRIDGES_EXECUTION_MAX_DEPTH ==> r == Err::<Vec<Instruction>, ContractError>(
            ContractError::MaxBridgeDepth(depth),
        ),
        depth < BRIDGES_EXECUTION_MAX_DEPTH ==> ({
            let items = assets@.map_values(
                |p: (AssetInfo, u128)| (AssetWithLimit { info: p.0, limit: None }, p.1),
            );
            match route_all_result(*cfg, registry.pairs@, bridges.entries@, items) {
                Err(e) => r == Err::<Vec<Instruction>, ContractError>(e),
                Ok(out) => (r matches Ok(v) && v@.len() == out.0.len() + 1 && v@.take(
                    out.0.len() as int,
                ) =~= out.0 && (out.1.len() == 0 ==> v@.last() == Instruction::DistributeRewards)
                    && (out.1.len() > 0 ==> (v@.last() matches Instruction::SwapBridgeAssets {
                    assets: a,
                    depth: d,
                } && a@ =~= out.1 && d == depth + 1))),
            }
        }),
{
    if depth >= BRIDGES_EXECUTION_MAX_DEPTH {
        return Err(ContractError::MaxBridgeDepth(depth));
    }
    let n = assets.len();
    let mut items: Vec<(AssetWithLimit, u128)> = Vec::new();
    let mut i: usize = 0;
    let ghost mapped = assets@.map_values(
        |p: (AssetInfo, u128)| (AssetWithLimit { info: p.0, limit: None }, p.1),
    );
    while i < n
        invariant
            0 <= i <= n,
            n == assets@.len(),
            mapped == assets@.map_values(
                |p: (AssetInfo, u128)| (AssetWithLimit { info: p.0, limit: None }, p.1),
            ),
            items@ =~= mapped.take(i as int),
        decreases n - i,
    {
        let a = assets[i];
        items.push((AssetWithLimit { info: a.0, limit: None }, a.1));
        i += 1;
    }
    proof {
        assert(mapped.take(n as int) =~= mapped);
    }
    let (mut msgs, hops) = match route_all(cfg, registry, bridges, &items) {
        Ok(out) => out,
        Err(e) => {
            return Err(e);
        },
    };
    let follow_up = build_distribute_msg(hops, depth + 1);
    msgs.push(follow_up);
    Ok(msgs)
}

/// What a list of bridge additions does to the edge set: each edge is
/// validated against the registry and the edges configured so far — those
/// added earlier in the same list included — then stored.  The first
/// invalid edge is the error.
pub open spec fn apply_adds(
    registry: Seq<PairInfo>,
    astro_token: AssetInfo,
    entries: Seq<(AssetInfo, AssetInfo)>,
    add: Seq<(AssetInfo, AssetInfo)>,
) -> Result<Seq<(AssetInfo, AssetInfo)>, ContractError>
    decreases add.len(),
{
    if add.len() == 0 {
        Ok(entries)
    } else {
        match apply_adds(registry, astro_token, entries, add.drop_last()) {
            Err(e) => Err(e),
            Ok(cur) => match validate_result(
                registry,
                cur,
                add.last().0,
                add.last().1,
                astro_token,
                BRIDGES_INITIAL_DEPTH,
            ) {
                Err(e) => Err(e),
                Ok(_) => Ok(without_key(cur, add.last().0).push(add.last())),
            },
        }
    }
}

/// What a list of bridge removals does to the edge set.
pub open spec fn apply_removes(
    entries: Seq<(AssetInfo, AssetInfo)>,
    remove: Seq<AssetInfo>,
) -> Seq<(AssetInfo, AssetInfo)>
    decreases remove.len(),
{
    if remove.len() == 0 {
        entries
    } else {
        without_key(apply_removes(entries, remove.drop_last()), remove.last())
    }
}

/// Reconfigures the bridge graph: only the owner may, every added edge is
/// validated eagerly, and a single invalid edge rejects the whole update —
/// no partial edge set is kept.
pub fn update_bridges(
    cfg: &Config,
    registry: &PoolRegistry,
    bridges: &mut BridgeMap,
    caller: u64,
    add: &Vec<(AssetInfo, AssetInfo)>,
    remove: &Vec<AssetInfo>,
) -> (r: Result<(), ContractError>)
    ensures
        r is Err ==> final(bridges).entries@ == old(bridges).entries@,
        caller != cfg.owner ==> r == Err::<(), ContractError>(ContractError::Unauthorized),
        caller == cfg.owner ==> match apply_adds(
            registry.pairs@,
            cfg.astro_token,
            old(bridges).entries@,
            add@,
        ) {
            Err(e) => r == Err::<(), ContractError>(e),
            Ok(mid) => r == Ok::<(), ContractError>(()) && final(bridges).entries@ =~= apply_removes(
                mid,
                remove@,
            ),
        },
{
    if caller != cfg.owner {
        return Err(ContractError::Unauthorized);
    }
    let mut scratch = BridgeMap { entries: Vec::new() };
    let n0 = bridges.entries.len();
    let mut k: usize = 0;
    while k < n0
        invariant
            0 <= k <= n0,
            n0 == bridges.entries@.len(),
            scratch.entries@ =~= bridges.entries@.take(k as int),
        decreases n0 - k,
    {
        let entry = bridges.entries[k];
        scratch.entries.push(entry);
        k += 1;
    }
    proof {
        assert(bridges.entries@.take(n0 as int) =~= bridges.entries@);
    }
    let na = add.len();
    let mut i: usize = 0;
    proof {
        assert(add@.take(0) =~= Seq::<(AssetInfo, AssetInfo)>::empty());
    }
    while i < na
        invariant
            caller == cfg.owner,
            0 <= i <= na,
            na == add@.len(),
            apply_adds(registry.pairs@, cfg.astro_token, old(bridges).entries@, add@.take(i as int))
                matches Ok(cur) && scratch.entries@ =~= cur,
            bridges.entries@ == old(bridges).entries@,
        decreases na - i,
    {
        let (from, to) = add[i];
        proof {
            assert(add@.take(i + 1).last() == add@[i as int]);
            assert(add@.take(i + 1).drop_last() =~= add@.take(i as int));
        }
        match validate_bridge(registry, &scratch, from, to, cfg.astro_token, BRIDGES_INITIAL_DEPTH) {
            Ok(_) => (),
            Err(e) => {
                proof {
                    lemma_apply_adds_error_extends(
                        registry.pairs@,
                        cfg.astro_token,
                        old(bridges).entries@,
                        add@,
                        i + 1,
                    );
                }
                return Err(e);
            },
        }
        scratch.insert(from, to);
        i += 1;
    }
    proof {
        assert(add@.take(na as int) =~= add@);
    }
    let nr = remove.len();
    let mut j: usize = 0;
    proof {
        assert(remove@.take(0) =~= Seq::<AssetInfo>::empty());
    }
    while j < nr
        invariant
            caller == cfg.owner,
            0 <= j <= nr,
            nr == remove@.len(),
            apply_adds(registry.pairs@, cfg.astro_token, old(bridges).entries@, add@) matches Ok(
                mid,
            ) && scratch.entries@ =~= apply_removes(mid, remove@.take(j as int)),
            bridges.entries@ == old(bridges).entries@,
        decreases nr - j,
    {
        let target = remove[j];
        proof {
            assert(remove@.take(j + 1).last() == remove@[j as int]);
            assert(remove@.take(j + 1).drop_last() =~= remove@.take(j as int));
        }
        scratch.remove(target);
        j += 1;
    }
    proof {
        assert(remove@.take(nr as int) =~= remove@);
    }
    bridges.entries = scratch.entries;
    Ok(())
}

/// A validation error in a prefix of additions is the error of the whole
/// list.
proof fn lemma_apply_adds_error_extends(
    registry: Seq<PairInfo>,
    astro_token: AssetInfo,
    entries: Seq<(AssetInfo, AssetInfo)>,
    add: Seq<(AssetInfo, AssetInfo)>,
    i: int,
)
    requires
        0 <= i <= add.len(),
        apply_adds(registry, astro_token, entries, add.take(i)) is Err,
    ensures
        apply_adds(registry, astro_token, entries, add) == apply_adds(
            registry,
            astro_token,
            entries,
            add.take(i),
        ),
    decreases add.len() - i,
{
    if i < add.len() {
        assert(add.take(i + 1).drop_last() =~= add.take(i));
        lemma_apply_adds_error_extends(registry, astro_token, entries, add, i + 1);
        assert(add.take(add.len() as int) =~= add);
    } else {
        assert(add.take(i) =~= add);
    }
}

/// Tracks the linear vesting of a lump-sum historical balance: once
/// enabled, each block releases an equal slice of the snapshot until the
/// remainder reaches zero, after which collections pass through
/// undiminished.
#[derive(Clone, Copy, PartialEq, Eq, Structural, Debug)]
pub struct RewardDistributionState {
    pub pre_upgrade_amount: u128,
    pub remainder_reward: u128,
    pub last_distribution_block: u64,
    pub distribution_blocks_target: u64,
    pub enabled: bool,
}

impl RewardDistributionState {
    /// The state before rewards are enabled: nothing vests.
    pub fn new() -> (r: RewardDistributionState)
        ensures
            r == (RewardDistributionState {
                pre_upgrade_amount: 0,
                remainder_reward: 0,
                last_distribution_block: 0,
                distribution_blocks_target: 0,
                enabled: false,
            }),
    {
        RewardDistributionState {
            pre_upgrade_amount: 0,
            remainder_reward: 0,
            last_distribution_block: 0,
            distribution_blocks_target: 0,
            enabled: false,
        }
    }

    /// Whatever enabled vesting also set a positive block target.
    pub open spec fn well_formed(self) -> bool {
        self.enabled ==> self.distribution_blocks_target >= 1
    }
}

/// Starts the vesting schedule, once: snapshots the current protocol-token
/// balance and spreads it over the given number of blocks.  Only the owner
/// may; a second enablement and a zero block count are refused.
pub fn enable_rewards(
    state: &mut RewardDistributionState,
    caller: u64,
    owner: u64,
    current_block: u64,
    blocks: u64,
    astro_balance: u128,
) -> (r: Result<(), ContractError>)
    requires
        old(state).well_formed(),
    ensures
        r is Err ==> *final(state) == (*old(state)),
        caller != owner ==> r == Err::<(), ContractError>(ContractError::Unauthorized),
        caller == owner && old(state).enabled ==> r == Err::<(), ContractError>(
            ContractError::RewardsAlreadyEnabled,
        ),
        caller == owner && !old(state).enabled && blocks == 0 ==> r == Err::<(), ContractError>(
            ContractError::InvalidBlocksNumber,
        ),
        caller == owner && !old(state).enabled && blocks > 0 ==> r == Ok::<(), ContractError>(())
            && *final(state) == (RewardDistributionState {
            pre_upgrade_amount: astro_balance,
            remainder_reward: astro_balance,
            last_distribution_block: current_block,
            distribution_blocks_target: blocks,
            enabled: true,
        }),
        final(state).well_formed(),
{
    if caller != owner {
        return Err(ContractError::Unauthorized);
    }
    if state.enabled {
        return Err(ContractError::RewardsAlreadyEnabled);
    }
    if blocks == 0 {
        return Err(ContractError::InvalidBlocksNumber);
    }
    *state = RewardDistributionState {
        pre_upgrade_amount: astro_balance,
        remainder_reward: astro_balance,
        last_distribution_block: current_block,
        distribution_blocks_target: blocks,
        enabled: true,
    };
    Ok(())
}

/// How much of the pre-upgrade balance one step at `current_block`
/// releases: the elapsed blocks times the per-block slice, capped by what
/// is still unvested; nothing before enablement or within an already
/// distributed block.
pub open spec fn vested_release(state: RewardDistributionState, current_block: u64) -> int {
    if !state.enabled || current_block <= state.last_distribution_block {
        0
    } else {
        let rate = state.pre_upgrade_amount as int / state.distribution_blocks_target as int;
        let amount = (current_block - state.last_distribution_block) * rate;
        if amount > state.remainder_reward {
            state.remainder_reward as int
        } else {
            amount
        }
    }
}

/// The payout instructions of a distribution: the governance share first,
/// then the staking share, empty transfers omitted.
pub open spec fn distribute_messages(
    astro_token: AssetInfo,
    governance: Option<u64>,
    staking: u64,
    to_governance: int,
    to_staking: int,
) -> Seq<Instruction> {
    let first: Seq<Instruction> = if to_governance > 0 {
        seq![
            Instruction::Transfer {
                info: astro_token,
                recipient: governance->0,
                amount: to_governance as u128,
            },
        ]
    } else {
        Seq::empty()
    };
    let second: Seq<Instruction> = if to_staking > 0 {
        seq![
            Instruction::Transfer {
                info: astro_token,
                recipient: staking,
                amount: to_staking as u128,
            },
        ]
    } else {
        Seq::empty()
    };
    first + second
}

/// One reward-distribution step.
///
/// The newly collected amount is the balance above the unvested remainder;
/// to it the step adds the vested slice of the pre-upgrade snapshot, then
/// splits the total between governance and staking by the configured
/// percentage.  Within one block the vested slice is released once: a
/// second step at the same block releases zero more.  Returns the payout
/// instructions with the newly collected and the released amounts.
pub fn distribute_rewards(
    cfg: &Config,
    state: &mut RewardDistributionState,
    current_block: u64,
    astro_balance: u128,
) -> (r: Result<(Vec<Instruction>, u128, u128), ContractError>)
    requires
        old(state).well_formed(),
        cfg.governance_percent <= 100,
    ensures
        r is Err ==> *final(state) == (*old(state)),
        astro_balance < old(state).remainder_reward ==> r == Err::<
            (Vec<Instruction>, u128, u128),
            ContractError,
        >(ContractError::ArithmeticOverflow),
        astro_balance >= old(state).remainder_reward ==> ({
            let released = vested_release(*old(state), current_block);
            let collected = astro_balance - old(state).remainder_reward;
            let total = collected + released;
            let to_governance = if cfg.governance is Some {
                (total * cfg.governance_percent) / 100
            } else {
                0
            };
            let to_staking = total - to_governance;
            &&& r is Ok
            &&& r->Ok_0.1 == collected
            &&& r->Ok_0.2 == released
            &&& r->Ok_0.0@ =~= distribute_messages(
                cfg.astro_token,
                cfg.governance,
                cfg.staking,
                to_governance,
                to_staking,
            )
            &&& *final(state) == (RewardDistributionState {
                remainder_reward: (old(state).remainder_reward - released) as u128,
                last_distribution_block: current_block,
                ..*old(state)
            })
        }),
        final(state).well_formed(),
{
    if astro_balance < state.remainder_reward {
        return Err(ContractError::ArithmeticOverflow);
    }
    let collected = astro_balance - state.remainder_reward;
    let released: u128;
    if !state.enabled || current_block <= state.last_distribution_block {
        released = 0;
    } else {
        let rate = state.pre_upgrade_amount / state.distribution_blocks_target as u128;
        let elapsed = current_block - state.last_distribution_block;
        let amount_w = crate::wide::mul_u128(elapsed as u128, rate);
        let remainder_w = crate::wide::Wide::from_u128(state.remainder_reward);
        if remainder_w.wide_lt(&amount_w) {
            released = state.remainder_reward;
        } else {
            released = amount_w.to_u128();
        }
    }
    let total = collected + released;
    let to_governance: u128;
    match cfg.governance {
        Some(_) => {
            proof {
                lemma_percent_share_fits(total as int, cfg.governance_percent as int);
            }
            to_governance = match crate::wide::mul_div_floor(
                total,
                cfg.governance_percent as u128,
                100,
            ) {
                Some(v) => v,
                None => {
                    proof {
                        assert(false);
                    }
                    0
                },
            };
        },
        None => {
            to_governance = 0;
        },
    }
    let to_staking = total - to_governance;
    let mut messages: Vec<Instruction> = Vec::new();
    if to_governance > 0 {
        match cfg.governance {
            Some(g) => {
                messages.push(
                    Instruction::Transfer {
                        info: cfg.astro_token,
                        recipient: g,
                        amount: to_governance,
                    },
                );
            },
            None => (),
        }
    }
    if to_staking > 0 {
        messages.push(
            Instruction::Transfer {
                info: cfg.astro_token,
                recipient: cfg.staking,
                amount: to_staking,
            },
        );
    }
    state.remainder_reward = state.remainder_reward - released;
    state.last_distribution_block = current_block;
    Ok((messages, collected, released))
}

/// A percentage share of a fitting total fits as well.
proof fn lemma_percent_share_fits(total: int, percent: int)
    requires
        total >= 0,
        0 <= percent <= 100,
    ensures
        0 <= (total * percent) / 100 <= total,
{
    vstd::arithmetic::mul::lemma_mul_nonnegative(total, percent);
    vstd::arithmetic::div_mod::lemma_div_pos_is_pos(total * percent, 100);
    assert(total * percent <= 100 * total) by {
        vstd::arithmetic::mul::lemma_mul_inequality(percent, 100, total);
        vstd::arithmetic::mul::lemma_mul_is_commutative(total, percent);
        vstd::arithmetic::mul::lemma_mul_is_commutative(percent, total);
        vstd::arithmetic::mul::lemma_mul_is_commutative(100, total);
    }
    vstd::arithmetic::div_mod::lemma_multiply_divide_le(total * percent, 100, total);
}

/// Within one block the vesting is released at most once: after a step
/// has run at a block, any further step at that block releases zero more
/// of the pre-upgrade balance.
pub proof fn lemma_same_block_releases_nothing(
    state: RewardDistributionState,
    current_block: u64,
)
    requires
        state.last_distribution_block >= current_block,
    ensures
        vested_release(state, current_block) == 0,
{
}

} // verus!
