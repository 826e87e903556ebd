//! The trading pair: liquidity provision and withdrawal, swaps, and the
//! queries over a pair's state.
//!
//! Every operation takes the live balances and share supply as arguments —
//! the host queries them — computes the outcome, and returns the list of
//! instructions the host executes atomically.

use crate::asset::{Asset, AssetInfo};
use crate::error::ContractError;
use crate::oracle::{accumulate_prices, accumulation, accumulation_overflows};
use crate::swap::{
    assert_max_spread, assert_slippage_tolerance, calculate_maker_fee, commission_of, compute_swap,
    compute_offer_amount, max_spread_check, return_before_commission, slippage_check, swap_spread,
};
use crate::wide::{isqrt_of_product, mul_div_floor};
use vstd::arithmetic::div_mod::{
    lemma_div_by_multiple, lemma_div_is_ordered, lemma_div_pos_is_pos, lemma_fundamental_div_mod,
};
use vstd::arithmetic::mul::{
    lemma_mul_inequality, lemma_mul_is_commutative, lemma_mul_is_distributive_add,
    lemma_mul_nonnegative,
};
use vstd::prelude::*;

verus! {

/// Persistent pair state: the two asset identities, the share token, and
/// the oracle counters.
#[derive(Clone, Copy, PartialEq, Eq, Debug)]
pub struct Config {
    pub asset_infos: [AssetInfo; 2],
    /// Host identifier of the liquidity share token; zero until the token
    /// contract reports its address.
    pub liquidity_token: u64,
    pub block_time_last: u64,
    pub price0_cumulative_last: u128,
    pub price1_cumulative_last: u128,
}

/// An outbound instruction the host executes after the call commits.
#[derive(Clone, PartialEq, Eq, Debug)]
pub enum Instruction {
    /// Pull an external token from `owner` into `recipient`.
    TransferFrom { token: u64, owner: u64, recipient: u64, amount: u128 },
    /// Pay an asset out to `recipient`.
    Transfer { info: AssetInfo, recipient: u64, amount: u128 },
    /// Mint share tokens to `recipient`.
    Mint { token: u64, recipient: u64, amount: u128 },
    /// Burn share tokens held by the contract.
    Burn { token: u64, amount: u128 },
    /// Send minted share tokens to the staking generator on behalf of a
    /// depositor.
    SendToGenerator { token: u64, generator: u64, amount: u128, depositor: u64 },
    /// Swap a native offer on a pair, the offer attached as funds.
    NativeSwap { pair: u64, offer: Asset, max_spread: u128 },
    /// Send an external token into a pair with a swap hook.
    TokenSwap { token: u64, pair: u64, amount: u128, max_spread: u128 },
    /// Re-enter the fee router to swap collected bridge assets.
    SwapBridgeAssets { assets: Vec<AssetInfo>, depth: u64 },
    /// Re-enter the fee router to distribute collected rewards.
    DistributeRewards,
}

/// The pair state after one oracle step over the given reserves.
pub open spec fn advanced_config(config: Config, block_time: u64, x: u128, y: u128) -> Config {
    match accumulation(
        block_time as int,
        config.block_time_last as int,
        config.price0_cumulative_last as int,
        config.price1_cumulative_last as int,
        x as int,
        y as int,
    ) {
        None => config,
        Some(p) => Config {
            price0_cumulative_last: p.0 as u128,
            price1_cumulative_last: p.1 as u128,
            block_time_last: block_time,
            ..config
        },
    }
}

/// Creates the state of a new pair over two distinct assets.
pub fn instantiate(asset_infos: [AssetInfo; 2]) -> (r: Result<Config, ContractError>)
    ensures
        asset_infos[0] == asset_infos[1] ==> r == Err::<Config, ContractError>(
            ContractError::DoublingAssets,
        ),
        asset_infos[0] != asset_infos[1] ==> r == Ok::<Config, ContractError>(
            Config {
                asset_infos,
                liquidity_token: 0,
                block_time_last: 0,
                price0_cumulative_last: 0,
                price1_cumulative_last: 0,
            },
        ),
{
    if asset_infos[0].equal(&asset_infos[1]) {
        return Err(ContractError::DoublingAssets);
    }
    Ok(
        Config {
            asset_infos,
            liquidity_token: 0,
            block_time_last: 0,
            price0_cumulative_last: 0,
            price1_cumulative_last: 0,
        },
    )
}

/// Records the share token's address, once: a second report is refused.
pub fn reply(config: &mut Config, liquidity_token: u64) -> (r: Result<(), ContractError>)
    ensures
        old(config).liquidity_token != 0 ==> r == Err::<(), ContractError>(
            ContractError::Unauthorized,
        ) && *final(config) == (*old(config)),
        old(config).liquidity_token == 0 ==> r == Ok::<(), ContractError>(()) && *final(config)
            == (Config { liquidity_token, ..*old(config) }),
{
    if config.liquidity_token != 0 {
        return Err(ContractError::Unauthorized);
    }
    config.liquidity_token = liquidity_token;
    Ok(())
}

/// A holder's pro-rata claim on one reserve: zero while no shares exist.
pub open spec fn refund_amount(pool: int, amount: int, total_share: int) -> int {
    if total_share == 0 {
        0
    } else {
        (pool * amount) / total_share
    }
}

/// The pro-rata redemption of `amount` shares against both reserves.
pub fn get_share_in_assets(pools: &[Asset; 2], amount: u128, total_share: u128) -> (r: Result<
    Vec<Asset>,
    ContractError,
>)
    ensures
        match r {
            Ok(v) => refund_amount(pools[0].amount as int, amount as int, total_share as int)
                <= u128::MAX && refund_amount(
                pools[1].amount as int,
                amount as int,
                total_share as int,
            ) <= u128::MAX && v@ =~= seq![
                Asset {
                    info: pools[0].info,
                    amount: refund_amount(
                        pools[0].amount as int,
                        amount as int,
                        total_share as int,
                    ) as u128,
                },
                Asset {
                    info: pools[1].info,
                    amount: refund_amount(
                        pools[1].amount as int,
                        amount as int,
                        total_share as int,
                    ) as u128,
                },
            ],
            Err(e) => e == ContractError::ArithmeticOverflow && (refund_amount(
                pools[0].amount as int,
                amount as int,
                total_share as int,
            ) > u128::MAX || refund_amount(
                pools[1].amount as int,
                amount as int,
                total_share as int,
            ) > u128::MAX),
        },
{
    if total_share == 0 {
        let mut v: Vec<Asset> = Vec::new();
        v.push(Asset { info: pools[0].info, amount: 0 });
        v.push(Asset { info: pools[1].info, amount: 0 });
        return Ok(v);
    }
    let r0 = match mul_div_floor(pools[0].amount, amount, total_share) {
        Some(a) => a,
        None => {
            return Err(ContractError::ArithmeticOverflow);
        },
    };
    let r1 = match mul_div_floor(pools[1].amount, amount, total_share) {
        Some(a) => a,
        None => {
            return Err(ContractError::ArithmeticOverflow);
        },
    };
    let mut v: Vec<Asset> = Vec::new();
    v.push(Asset { info: pools[0].info, amount: r0 });
    v.push(Asset { info: pools[1].info, amount: r1 });
    Ok(v)
}

/// The instructions that hand freshly minted shares to their owner: a
/// plain mint, or a mint to the pair followed by a staking deposit on the
/// recipient's behalf.
pub open spec fn mint_messages(
    liquidity_token: u64,
    contract: u64,
    recipient: u64,
    amount: u128,
    auto_stake: bool,
    generator: Option<u64>,
) -> Seq<Instruction> {
    if !auto_stake {
        seq![Instruction::Mint { token: liquidity_token, recipient, amount }]
    } else {
        seq![
            Instruction::Mint { token: liquidity_token, recipient: contract, amount },
            Instruction::SendToGenerator {
                token: liquidity_token,
                generator: generator->0,
                amount,
                depositor: recipient,
            },
        ]
    }
}

/// Mints shares to the recipient, or stakes them on the recipient's
/// behalf when auto-staking is requested; fails closed when no staking
/// generator is configured.
pub fn mint_liquidity_token_message(
    config: &Config,
    contract: u64,
    recipient: u64,
    amount: u128,
    auto_stake: bool,
    generator: Option<u64>,
) -> (r: Result<Vec<Instruction>, ContractError>)
    ensures
        match r {
            Ok(v) => (auto_stake ==> generator is Some) && v@ =~= mint_messages(
                config.liquidity_token,
                contract,
                recipient,
                amount,
                auto_stake,
                generator,
            ),
            Err(e) => e == ContractError::AutoStakeError && auto_stake && generator is None,
        },
{
    if !auto_stake {
        let mut v: Vec<Instruction> = Vec::new();
        v.push(Instruction::Mint { token: config.liquidity_token, recipient, amount });
        return Ok(v);
    }
    match generator {
        None => Err(ContractError::AutoStakeError),
        Some(g) => {
            let mut v: Vec<Instruction> = Vec::new();
            v.push(Instruction::Mint { token: config.liquidity_token, recipient: contract, amount });
            v.push(
                Instruction::SendToGenerator {
                    token: config.liquidity_token,
                    generator: g,
                    amount,
                    depositor: recipient,
                },
            );
            Ok(v)
        },
    }
}

/// The numeric identifier inside an asset identity.
pub open spec fn id_of(info: AssetInfo) -> u64 {
    match info {
        AssetInfo::NativeToken { id } => id,
        AssetInfo::Token { id } => id,
    }
}

/// Which declared deposit funds the pool with identity `info`: the first
/// matching entry, whichever order the caller listed the two in.
pub open spec fn matched_deposit(assets: [Asset; 2], info: AssetInfo) -> Option<u128> {
    if assets[0].info == info {
        Some(assets[0].amount)
    } else if assets[1].info == info {
        Some(assets[1].amount)
    } else {
        None
    }
}

/// A pool balance with the just-received deposit netted out.  A native
/// balance already includes the deposit when queried, so it is subtracted;
/// an external token is pulled by a later instruction, so it is not.
pub open spec fn netted_reserve(pool: Asset, deposit: u128) -> int {
    if pool.info is Token {
        pool.amount as int
    } else {
        pool.amount - deposit
    }
}

/// The pull instructions of a deposit: one transfer-from per external
/// token side.
pub open spec fn pull_messages(
    pools: [Asset; 2],
    d0: u128,
    d1: u128,
    sender: u64,
    contract: u64,
) -> Seq<Instruction> {
    let first: Seq<Instruction> = if pools[0].info is Token {
        seq![
            Instruction::TransferFrom {
                token: id_of(pools[0].info),
                owner: sender,
                recipient: contract,
                amount: d0,
            },
        ]
    } else {
        Seq::empty()
    };
    let second: Seq<Instruction> = if pools[1].info is Token {
        seq![
            Instruction::TransferFrom {
                token: id_of(pools[1].info),
                owner: sender,
                recipient: contract,
                amount: d1,
            },
        ]
    } else {
        Seq::empty()
    };
    first + second
}

/// The share amount a non-bootstrap deposit mints: the lesser of the two
/// pro-rata valuations, so an asymmetric deposit cannot extract value.
pub open spec fn proportional_share(d0: int, d1: int, p0: int, p1: int, total_share: int) -> int {
    vstd::math::min((d0 * total_share) / p0, (d1 * total_share) / p1)
}

/// Provides liquidity to the pair.
///
/// Deposits are matched to the two pools by identity; both must be
/// strictly positive.  Ratio math runs over pre-deposit reserves: a native
/// balance is netted by the just-received deposit, an external token is
/// pulled by an emitted instruction instead.  The bootstrap deposit mints
/// the integer square root of the deposit product; later deposits mint the
/// lesser pro-rata valuation and must pass the slippage assertion.  The
/// oracle then advances over the pre-deposit reserves.
pub fn provide_liquidity(
    config: &mut Config,
    env_time: u64,
    contract: u64,
    sender: u64,
    assets: [Asset; 2],
    pools_queried: [Asset; 2],
    total_share: u128,
    slippage_tolerance: Option<u128>,
    auto_stake: bool,
    receiver: u64,
    generator: Option<u64>,
) -> (r: Result<(Vec<Instruction>, u128), ContractError>)
    ensures
        r is Err ==> *final(config) == (*old(config)),
        ({
            let d_opt = matched_deposit(assets, pools_queried[0].info);
            let e_opt = matched_deposit(assets, pools_queried[1].info);
            &&& (d_opt is None || e_opt is None) ==> r == Err::<(Vec<Instruction>, u128),
            ContractError>(ContractError::AssetMismatch)
            &&& (d_opt is Some && e_opt is Some) ==> ({
                let d = d_opt->0;
                let e = e_opt->0;
                let p0n = netted_reserve(pools_queried[0], d);
                let p1n = netted_reserve(pools_queried[1], e);
                &&& (d == 0 || e == 0) ==> r == Err::<(Vec<Instruction>, u128), ContractError>(
                    ContractError::InvalidZeroAmount,
                )
                &&& d > 0 && e > 0 && (p0n < 0 || p1n < 0) ==> r == Err::<
                    (Vec<Instruction>, u128),
                    ContractError,
                >(ContractError::ArithmeticOverflow)
                &&& d > 0 && e > 0 && p0n >= 0 && p1n >= 0 ==> ({
                    let slippage = slippage_check(
                        slippage_tolerance,
                        d,
                        e,
                        p0n as u128,
                        p1n as u128,
                    );
                    &&& total_share > 0 && slippage is Err ==> r is Err && r->Err_0 == (
                    slippage->Err_0)
                    &&& (total_share == 0 || slippage is Ok) ==> ({
                        &&& total_share > 0 && ((d * total_share) / p0n > u128::MAX || (e
                            * total_share) / p1n > u128::MAX) ==> r == Err::<
                            (Vec<Instruction>, u128),
                            ContractError,
                        >(ContractError::ArithmeticOverflow)
                        &&& (total_share == 0 || ((d * total_share) / p0n <= u128::MAX && (e
                            * total_share) / p1n <= u128::MAX)) ==> ({
                            &&& auto_stake && generator is None ==> r == Err::<
                                (Vec<Instruction>, u128),
                                ContractError,
                            >(ContractError::AutoStakeError)
                            &&& !(auto_stake && generator is None) ==> ({
                                &&& accumulation_overflows(
                                    env_time as int,
                                    old(config).block_time_last as int,
                                    p0n,
                                    p1n,
                                ) ==> r == Err::<(Vec<Instruction>, u128), ContractError>(
                                    ContractError::ArithmeticOverflow,
                                )
                                &&& !accumulation_overflows(
                                    env_time as int,
                                    old(config).block_time_last as int,
                                    p0n,
                                    p1n,
                                ) ==> ({
                                    &&& r is Ok
                                    &&& ({
                                        let share = r->Ok_0.1;
                                        let msgs = r->Ok_0.0;
                                        &&& total_share == 0 ==> share * share <= d * e < (share
                                            + 1) * (share + 1)
                                        &&& total_share > 0 ==> share == proportional_share(
                                            d as int,
                                            e as int,
                                            p0n,
                                            p1n,
                                            total_share as int,
                                        )
                                        &&& msgs@ =~= pull_messages(
                                            pools_queried,
                                            d,
                                            e,
                                            sender,
                                            contract,
                                        ) + mint_messages(
                                            old(config).liquidity_token,
                                            contract,
                                            receiver,
                                            share,
                                            auto_stake,
                                            generator,
                                        )
                                        &&& *final(config) == (advanced_config(
                                            *old(config),
                                            env_time,
                                            p0n as u128,
                                            p1n as u128,
                                        ))
                                    })
                                })
                            })
                        })
                    })
                })
            })
        }),
{
    let d = if assets[0].info.equal(&pools_queried[0].info) {
        assets[0].amount
    } else if assets[1].info.equal(&pools_queried[0].info) {
        assets[1].amount
    } else {
        return Err(ContractError::AssetMismatch);
    };
    let e = if assets[0].info.equal(&pools_queried[1].info) {
        assets[0].amount
    } else if assets[1].info.equal(&pools_queried[1].info) {
        assets[1].amount
    } else {
        return Err(ContractError::AssetMismatch);
    };
    if d == 0 || e == 0 {
        return Err(ContractError::InvalidZeroAmount);
    }
    let mut messages: Vec<Instruction> = Vec::new();
    let p0n: u128;
    if pools_queried[0].info.is_native_token() {
        if d > pools_queried[0].amount {
            return Err(ContractError::ArithmeticOverflow);
        }
        p0n = pools_queried[0].amount - d;
    } else {
        match pools_queried[0].info {
            AssetInfo::Token { id } => {
                messages.push(
                    Instruction::TransferFrom {
                        token: id,
                        owner: sender,
                        recipient: contract,
                        amount: d,
                    },
                );
            },
            AssetInfo::NativeToken { .. } => {
                proof {
                    assert(false);
                }
            },
        }
        p0n = pools_queried[0].amount;
    }
    let p1n: u128;
    if pools_queried[1].info.is_native_token() {
        if e > pools_queried[1].amount {
            return Err(ContractError::ArithmeticOverflow);
        }
        p1n = pools_queried[1].amount - e;
    } else {
        match pools_queried[1].info {
            AssetInfo::Token { id } => {
                messages.push(
                    Instruction::TransferFrom {
                        token: id,
                        owner: sender,
                        recipient: contract,
                        amount: e,
                    },
                );
            },
            AssetInfo::NativeToken { .. } => {
                proof {
                    assert(false);
                }
            },
        }
        p1n = pools_queried[1].amount;
    }
    let share: u128;
    if total_share == 0 {
        share = isqrt_of_product(d, e);
    } else {
        match assert_slippage_tolerance(slippage_tolerance, [d, e], [p0n, p1n]) {
            Ok(()) => (),
            Err(err) => {
                return Err(err);
            },
        }
        // the slippage assertion has ruled out zero pre-deposit reserves
        proof {
            assert(slippage_check(slippage_tolerance, d, e, p0n, p1n) is Ok);
            assert(p0n > 0 && p1n > 0);
        }
        let s0 = match mul_div_floor(d, total_share, p0n) {
            Some(s) => s,
            None => {
                return Err(ContractError::ArithmeticOverflow);
            },
        };
        let s1 = match mul_div_floor(e, total_share, p1n) {
            Some(s) => s,
            None => {
                return Err(ContractError::ArithmeticOverflow);
            },
        };
        share = if s0 <= s1 {
            s0
        } else {
            s1
        };
    }
    let mut mint_msgs = match mint_liquidity_token_message(
        config,
        contract,
        receiver,
        share,
        auto_stake,
        generator,
    ) {
        Ok(v) => v,
        Err(err) => {
            return Err(err);
        },
    };
    messages.append(&mut mint_msgs);
    match accumulate_prices(
        env_time,
        config.block_time_last,
        config.price0_cumulative_last,
        config.price1_cumulative_last,
        p0n,
        p1n,
    ) {
        Ok(Some((pc0, pc1, t))) => {
            config.price0_cumulative_last = pc0;
            config.price1_cumulative_last = pc1;
            config.block_time_last = t;
        },
        Ok(None) => (),
        Err(err) => {
            return Err(err);
        },
    }
    Ok((messages, share))
}

/// Share conservation round trip, bootstrap case: the first deposit mints
/// shares that, redeemed at once against the deposited reserves and the
/// freshly minted supply, return exactly the deposit.
pub proof fn lemma_bootstrap_round_trip(d0: int, d1: int, share: int)
    requires
        d0 >= 0,
        d1 >= 0,
        share >= 1,
    ensures
        refund_amount(d0, share, share) == d0,
        refund_amount(d1, share, share) == d1,
{
    lemma_div_by_multiple(d0, share);
    lemma_div_by_multiple(d1, share);
}

/// The bootstrap share is positive whenever both deposits are: the
/// integer square root of a positive product is at least one.
pub proof fn lemma_bootstrap_share_positive(d0: int, d1: int, share: int)
    requires
        d0 >= 1,
        d1 >= 1,
        share * share <= d0 * d1 < (share + 1) * (share + 1),
        share >= 0,
    ensures
        share >= 1,
{
    if share == 0 {
        assert((share + 1) * (share + 1) == 1) by (nonlinear_arith)
            requires
                share == 0,
        ;
        assert(d0 * d1 >= 1) by (nonlinear_arith)
            requires
                d0 >= 1,
                d1 >= 1,
        ;
        assert(false);
    }
}

/// Share conservation round trip: a proportional deposit's shares,
/// redeemed at once against the grown reserves and supply, return at most
/// what was deposited, componentwise.
pub proof fn lemma_round_trip_bound(d0: int, d1: int, p0: int, p1: int, total: int)
    requires
        d0 >= 0,
        d1 >= 0,
        p0 >= 1,
        p1 >= 1,
        total >= 1,
    ensures
        ({
            let s = proportional_share(d0, d1, p0, p1, total);
            &&& refund_amount(p0 + d0, s, total + s) <= d0
            &&& refund_amount(p1 + d1, s, total + s) <= d1
        }),
{
    let s = proportional_share(d0, d1, p0, p1, total);
    lemma_one_side_round_trip(d0, d1, p0, p1, total, s, p0, d0);
    lemma_one_side_round_trip(d0, d1, p0, p1, total, s, p1, d1);
}

/// One side of the round-trip bound: when the minted shares are at most
/// the side's own pro-rata valuation, redeeming them returns at most the
/// side's deposit.
proof fn lemma_one_side_round_trip(
    d0: int,
    d1: int,
    p0: int,
    p1: int,
    total: int,
    s: int,
    p: int,
    d: int,
)
    requires
        d >= 0,
        p >= 1,
        total >= 1,
        d0 >= 0,
        d1 >= 0,
        p0 >= 1,
        p1 >= 1,
        s == proportional_share(d0, d1, p0, p1, total),
        s <= (d * total) / p,
    ensures
        refund_amount(p + d, s, total + s) <= d,
{
    let q = (d * total) / p;
    lemma_mul_nonnegative(d, total);
    lemma_div_pos_is_pos(d * total, p);
    lemma_div_pos_is_pos(d0 * total, p0);
    lemma_div_pos_is_pos(d1 * total, p1);
    lemma_mul_nonnegative(d0, total);
    lemma_mul_nonnegative(d1, total);
    assert(s >= 0);
    assert(q * p <= d * total) by {
        lemma_fundamental_div_mod(d * total, p);
        assert(d * total == p * q + (d * total) % p);
        lemma_mul_is_commutative(p, q);
    }
    assert(s * p <= q * p) by {
        lemma_mul_inequality(s, q, p);
    }
    assert((p + d) * s == p * s + d * s) by {
        lemma_mul_is_distributive_add(s, p, d);
        lemma_mul_is_commutative(s, p);
        lemma_mul_is_commutative(s, d);
        lemma_mul_is_commutative(s, p + d);
    }
    assert(p * s <= d * total) by {
        lemma_mul_is_commutative(p, s);
    }
    assert(d * total + d * s == d * (total + s)) by {
        lemma_mul_is_distributive_add(d, total, s);
    }
    assert((p + d) * s <= d * (total + s));
    assert(((p + d) * s) / (total + s) <= (d * (total + s)) / (total + s)) by {
        lemma_div_is_ordered((p + d) * s, d * (total + s), total + s);
    }
    assert((d * (total + s)) / (total + s) == d) by {
        lemma_div_by_multiple(d, total + s);
    }
}

/// The fee terms a pool's registry sets: the total rate withheld from
/// swaps, the protocol's cut of it, and where that cut is sent.
#[derive(Clone, Copy, Debug)]
pub struct FeeInfo {
    pub total_fee_rate: u128,
    pub maker_fee_rate: u128,
    pub fee_address: Option<u64>,
}

/// The outcome of a swap: the outbound instructions and the quote that
/// produced them.
#[derive(Clone, PartialEq, Eq, Debug)]
pub struct SwapOutcome {
    pub messages: Vec<Instruction>,
    pub return_amount: u128,
    pub spread_amount: u128,
    pub commission_amount: u128,
    pub maker_fee_amount: u128,
}

/// Which pool side the asset identity names.
pub open spec fn offer_side(pools: [Asset; 2], info: AssetInfo) -> Option<int> {
    if pools[0].info == info {
        Some(0int)
    } else if pools[1].info == info {
        Some(1int)
    } else {
        None
    }
}

/// The payout instructions of a swap: the return to the receiver, and the
/// protocol's cut to the fee collector when one is configured and the cut
/// is nonzero.
pub open spec fn swap_messages(
    ask_info: AssetInfo,
    receiver: u64,
    return_amount: u128,
    fee_address: Option<u64>,
    maker_fee: int,
) -> Seq<Instruction> {
    let base = seq![
        Instruction::Transfer { info: ask_info, recipient: receiver, amount: return_amount },
    ];
    if fee_address is Some && maker_fee > 0 {
        base + seq![
            Instruction::Transfer {
                info: ask_info,
                recipient: fee_address->0,
                amount: maker_fee as u128,
            },
        ]
    } else {
        base
    }
}

/// Swaps an offered asset against the pair.
///
/// The queried balance of the offer side already includes the just-sent
/// offer, so it is netted out before pricing.  The quote must pass the
/// spread assertion; the protocol's cut of the commission goes to the fee
/// collector; the oracle advances over the netted reserves.
pub fn swap(
    config: &mut Config,
    env_time: u64,
    sender: u64,
    offer_asset: Asset,
    belief_price: Option<u128>,
    max_spread: Option<u128>,
    to: Option<u64>,
    pools_queried: [Asset; 2],
    fee: FeeInfo,
) -> (r: Result<SwapOutcome, ContractError>)
    requires
        fee.total_fee_rate <= crate::RATE_SCALE,
        fee.maker_fee_rate <= crate::RATE_SCALE,
    ensures
        r is Err ==> *final(config) == (*old(config)),
        ({
            let side = offer_side(pools_queried, offer_asset.info);
            &&& side is None ==> r == Err::<SwapOutcome, ContractError>(
                ContractError::AssetMismatch,
            )
            &&& side is Some ==> ({
                let i = side->0;
                let offer_reserve = pools_queried[i].amount - offer_asset.amount;
                let ask_reserve = pools_queried[1 - i].amount as int;
                &&& offer_reserve < 0 ==> r == Err::<SwapOutcome, ContractError>(
                    ContractError::ArithmeticOverflow,
                )
                &&& offer_reserve == 0 ==> r == Err::<SwapOutcome, ContractError>(
                    ContractError::DivisionByZero,
                )
                &&& offer_reserve > 0 ==> ({
                    let gross = return_before_commission(
                        offer_reserve,
                        ask_reserve,
                        offer_asset.amount as int,
                    );
                    let fee_amount = commission_of(gross, fee.total_fee_rate as int);
                    let spread = swap_spread(offer_reserve, ask_reserve, offer_asset.amount as int);
                    &&& spread > u128::MAX ==> r == Err::<SwapOutcome, ContractError>(
                        ContractError::ArithmeticOverflow,
                    )
                    &&& spread <= u128::MAX ==> ({
                        let check = max_spread_check(
                            belief_price,
                            max_spread,
                            offer_asset.amount,
                            gross as u128,
                            spread as u128,
                        );
                        let n0 = if i == 0 {
                            offer_reserve
                        } else {
                            pools_queried[0].amount as int
                        };
                        let n1 = if i == 1 {
                            offer_reserve
                        } else {
                            pools_queried[1].amount as int
                        };
                        &&& check is Err ==> r is Err && r->Err_0 == (check->Err_0)
                        &&& check is Ok && accumulation_overflows(
                            env_time as int,
                            old(config).block_time_last as int,
                            n0,
                            n1,
                        ) ==> r == Err::<SwapOutcome, ContractError>(
                            ContractError::ArithmeticOverflow,
                        )
                        &&& check is Ok && !accumulation_overflows(
                            env_time as int,
                            old(config).block_time_last as int,
                            n0,
                            n1,
                        ) ==> ({
                            let maker_fee = if fee.fee_address is Some {
                                commission_of(fee_amount, fee.maker_fee_rate as int)
                            } else {
                                0
                            };
                            let receiver = match to {
                                Some(t) => t,
                                None => sender,
                            };
                            &&& r is Ok
                            &&& ({
                                let o = r->Ok_0;
                                &&& o.return_amount == gross - fee_amount
                                &&& o.spread_amount == spread
                                &&& o.commission_amount == fee_amount
                                &&& o.maker_fee_amount == (if fee.fee_address is Some && maker_fee
                                    > 0 {
                                    maker_fee
                                } else {
                                    0
                                })
                                &&& o.messages@ =~= swap_messages(
                                    pools_queried[1 - i].info,
                                    receiver,
                                    (gross - fee_amount) as u128,
                                    fee.fee_address,
                                    maker_fee,
                                )
                                &&& *final(config) == (advanced_config(
                                    *old(config),
                                    env_time,
                                    n0 as u128,
                                    n1 as u128,
                                ))
                            })
                        })
                    })
                })
            })
        }),
{
    let offer_idx: usize;
    let ask_idx: usize;
    if offer_asset.info.equal(&pools_queried[0].info) {
        offer_idx = 0;
        ask_idx = 1;
    } else if offer_asset.info.equal(&pools_queried[1].info) {
        offer_idx = 1;
        ask_idx = 0;
    } else {
        return Err(ContractError::AssetMismatch);
    }
    if offer_asset.amount > pools_queried[offer_idx].amount {
        return Err(ContractError::ArithmeticOverflow);
    }
    let offer_reserve = pools_queried[offer_idx].amount - offer_asset.amount;
    let ask_reserve = pools_queried[ask_idx].amount;
    let quote = match compute_swap(offer_reserve, ask_reserve, offer_asset.amount, fee.total_fee_rate) {
        Ok(t) => t,
        Err(err) => {
            return Err(err);
        },
    };
    let (return_amount, spread_amount, commission_amount) = quote;
    match assert_max_spread(
        belief_price,
        max_spread,
        offer_asset.amount,
        return_amount + commission_amount,
        spread_amount,
    ) {
        Ok(()) => (),
        Err(err) => {
            return Err(err);
        },
    }
    let receiver = match to {
        Some(t) => t,
        None => sender,
    };
    let mut messages: Vec<Instruction> = Vec::new();
    messages.push(
        Instruction::Transfer {
            info: pools_queried[ask_idx].info,
            recipient: receiver,
            amount: return_amount,
        },
    );
    let mut maker_fee_amount: u128 = 0;
    match fee.fee_address {
        Some(addr) => {
            match calculate_maker_fee(
                pools_queried[ask_idx].info,
                commission_amount,
                fee.maker_fee_rate,
            ) {
                Some(f) => {
                    messages.push(
                        Instruction::Transfer { info: f.info, recipient: addr, amount: f.amount },
                    );
                    maker_fee_amount = f.amount;
                },
                None => (),
            }
        },
        None => (),
    }
    proof {
        // tie the paid maker fee back to the quote's commission
        assert(maker_fee_amount == (if fee.fee_address is Some && commission_of(
            commission_amount as int,
            fee.maker_fee_rate as int,
        ) > 0 {
            commission_of(commission_amount as int, fee.maker_fee_rate as int)
        } else {
            0
        }));
    }
    let n0 = if offer_idx == 0 {
        offer_reserve
    } else {
        pools_queried[0].amount
    };
    let n1 = if offer_idx == 1 {
        offer_reserve
    } else {
        pools_queried[1].amount
    };
    match accumulate_prices(
        env_time,
        config.block_time_last,
        config.price0_cumulative_last,
        config.price1_cumulative_last,
        n0,
        n1,
    ) {
        Ok(Some((pc0, pc1, t))) => {
            config.price0_cumulative_last = pc0;
            config.price1_cumulative_last = pc1;
            config.block_time_last = t;
        },
        Ok(None) => (),
        Err(err) => {
            return Err(err);
        },
    }
    Ok(
        SwapOutcome {
            messages,
            return_amount,
            spread_amount,
            commission_amount,
            maker_fee_amount,
        },
    )
}

/// Withdraws liquidity: burns the sent shares and refunds the pro-rata
/// claim on both reserves.  Only the share token contract itself may
/// invoke this, reporting whose shares arrived.
pub fn withdraw_liquidity(
    config: &mut Config,
    env_time: u64,
    caller: u64,
    sender: u64,
    amount: u128,
    pools_queried: [Asset; 2],
    total_share: u128,
) -> (r: Result<Vec<Instruction>, ContractError>)
    ensures
        r is Err ==> *final(config) == (*old(config)),
        caller != old(config).liquidity_token ==> r == Err::<Vec<Instruction>, ContractError>(
            ContractError::Unauthorized,
        ),
        caller == old(config).liquidity_token ==> ({
            let r0 = refund_amount(pools_queried[0].amount as int, amount as int, total_share as int);
            let r1 = refund_amount(pools_queried[1].amount as int, amount as int, total_share as int);
            &&& (r0 > u128::MAX || r1 > u128::MAX) ==> r == Err::<Vec<Instruction>, ContractError>(
                ContractError::ArithmeticOverflow,
            )
            &&& r0 <= u128::MAX && r1 <= u128::MAX && accumulation_overflows(
                env_time as int,
                old(config).block_time_last as int,
                pools_queried[0].amount as int,
                pools_queried[1].amount as int,
            ) ==> r == Err::<Vec<Instruction>, ContractError>(ContractError::ArithmeticOverflow)
            &&& r0 <= u128::MAX && r1 <= u128::MAX && !accumulation_overflows(
                env_time as int,
                old(config).block_time_last as int,
                pools_queried[0].amount as int,
                pools_queried[1].amount as int,
            ) ==> r is Ok && r->Ok_0@ =~= seq![
                Instruction::Transfer {
                    info: pools_queried[0].info,
                    recipient: sender,
                    amount: r0 as u128,
                },
                Instruction::Transfer {
                    info: pools_queried[1].info,
                    recipient: sender,
                    amount: r1 as u128,
                },
                Instruction::Burn { token: old(config).liquidity_token, amount },
            ] && *final(config) == (advanced_config(
                *old(config),
                env_time,
                pools_queried[0].amount,
                pools_queried[1].amount,
            ))
        }),
{
    if caller != config.liquidity_token {
        return Err(ContractError::Unauthorized);
    }
    let refunds = match get_share_in_assets(&pools_queried, amount, total_share) {
        Ok(v) => v,
        Err(err) => {
            return Err(err);
        },
    };
    match accumulate_prices(
        env_time,
        config.block_time_last,
        config.price0_cumulative_last,
        config.price1_cumulative_last,
        pools_queried[0].amount,
        pools_queried[1].amount,
    ) {
        Ok(Some((pc0, pc1, t))) => {
            config.price0_cumulative_last = pc0;
            config.price1_cumulative_last = pc1;
            config.block_time_last = t;
        },
        Ok(None) => (),
        Err(err) => {
            return Err(err);
        },
    }
    let mut messages: Vec<Instruction> = Vec::new();
    messages.push(
        Instruction::Transfer {
            info: pools_queried[0].info,
            recipient: sender,
            amount: refunds[0].amount,
        },
    );
    messages.push(
        Instruction::Transfer {
            info: pools_queried[1].info,
            recipient: sender,
            amount: refunds[1].amount,
        },
    );
    messages.push(Instruction::Burn { token: config.liquidity_token, amount });
    Ok(messages)
}

/// A hook carried by a token transfer into the pair.
#[derive(Clone, Copy, Debug)]
pub enum Cw20HookMsg {
    Swap { belief_price: Option<u128>, max_spread: Option<u128>, to: Option<u64> },
    WithdrawLiquidity,
}

/// What a token-transfer hook asks the pair to do next.
#[derive(Clone, Copy, Debug)]
pub enum ReceiveAction {
    ExecuteSwap {
        sender: u64,
        offer_asset: Asset,
        belief_price: Option<u128>,
        max_spread: Option<u128>,
        to: Option<u64>,
    },
    ExecuteWithdraw { caller: u64, sender: u64, amount: u128 },
}

/// Dispatches a token-transfer hook.
///
/// A swap hook is honoured only when the calling token contract is one of
/// the pair's own assets; the offer is then the tokens that arrived with
/// the hook.  A withdraw hook is passed on; the withdrawal itself checks
/// that the caller is the share token.
pub fn receive_cw20(
    config: &Config,
    info_sender: u64,
    cw20_sender: u64,
    amount: u128,
    msg: Cw20HookMsg,
) -> (r: Result<ReceiveAction, ContractError>)
    ensures
        match msg {
            Cw20HookMsg::Swap { belief_price, max_spread, to } => ({
                let authorized = config.asset_infos[0] == (AssetInfo::Token { id: info_sender })
                    || config.asset_infos[1] == (AssetInfo::Token { id: info_sender });
                &&& !authorized ==> r == Err::<ReceiveAction, ContractError>(
                    ContractError::Unauthorized,
                )
                &&& authorized ==> r == Ok::<ReceiveAction, ContractError>(
                    ReceiveAction::ExecuteSwap {
                        sender: cw20_sender,
                        offer_asset: Asset {
                            info: AssetInfo::Token { id: info_sender },
                            amount,
                        },
                        belief_price,
                        max_spread,
                        to,
                    },
                )
            }),
            Cw20HookMsg::WithdrawLiquidity => r == Ok::<ReceiveAction, ContractError>(
                ReceiveAction::ExecuteWithdraw { caller: info_sender, sender: cw20_sender, amount },
            ),
        },
{
    match msg {
        Cw20HookMsg::Swap { belief_price, max_spread, to } => {
            let mut authorized = false;
            match config.asset_infos[0] {
                AssetInfo::Token { id } => {
                    if id == info_sender {
                        authorized = true;
                    }
                },
                AssetInfo::NativeToken { .. } => (),
            }
            match config.asset_infos[1] {
                AssetInfo::Token { id } => {
                    if id == info_sender {
                        authorized = true;
                    }
                },
                AssetInfo::NativeToken { .. } => (),
            }
            if !authorized {
                return Err(ContractError::Unauthorized);
            }
            Ok(
                ReceiveAction::ExecuteSwap {
                    sender: cw20_sender,
                    offer_asset: Asset { info: AssetInfo::Token { id: info_sender }, amount },
                    belief_price,
                    max_spread,
                    to,
                },
            )
        },
        Cw20HookMsg::WithdrawLiquidity => Ok(
            ReceiveAction::ExecuteWithdraw { caller: info_sender, sender: cw20_sender, amount },
        ),
    }
}

/// A forward swap quote, as a query answer.
#[derive(Clone, Copy, PartialEq, Eq, Structural, Debug)]
pub struct SimulationResponse {
    pub return_amount: u128,
    pub spread_amount: u128,
    pub commission_amount: u128,
}

/// A reverse swap quote, as a query answer.
#[derive(Clone, Copy, PartialEq, Eq, Structural, Debug)]
pub struct ReverseSimulationResponse {
    pub offer_amount: u128,
    pub spread_amount: u128,
    pub commission_amount: u128,
}

/// A pool snapshot, as a query answer.
#[derive(Clone, Copy, Debug)]
pub struct PoolResponse {
    pub assets: [Asset; 2],
    pub total_share: u128,
}

/// The oracle counters brought up to the query time.
#[derive(Clone, Copy, Debug)]
pub struct CumulativePricesResponse {
    pub assets: [Asset; 2],
    pub total_share: u128,
    pub price0_cumulative_last: u128,
    pub price1_cumulative_last: u128,
}

/// The pair's control settings, as a query answer.
#[derive(Clone, Copy, PartialEq, Eq, Structural, Debug)]
pub struct ConfigResponse {
    pub block_time_last: u64,
}

/// Simulates a forward swap against the current reserves.
pub fn query_simulation(
    pools: [Asset; 2],
    offer_asset: Asset,
    total_fee_rate: u128,
) -> (r: Result<SimulationResponse, ContractError>)
    requires
        total_fee_rate <= crate::RATE_SCALE,
    ensures
        ({
            let side = offer_side(pools, offer_asset.info);
            &&& side is None ==> r == Err::<SimulationResponse, ContractError>(
                ContractError::AssetMismatch,
            )
            &&& side is Some ==> ({
                let op = pools[side->0].amount as int;
                let ap = pools[1 - side->0].amount as int;
                let amt = offer_asset.amount as int;
                &&& op == 0 ==> r == Err::<SimulationResponse, ContractError>(
                    ContractError::DivisionByZero,
                )
                &&& op > 0 && (op + amt > u128::MAX || swap_spread(op, ap, amt) > u128::MAX) ==> r
                    == Err::<SimulationResponse, ContractError>(ContractError::ArithmeticOverflow)
                &&& op > 0 && op + amt <= u128::MAX && swap_spread(op, ap, amt) <= u128::MAX ==> r
                    == Ok::<SimulationResponse, ContractError>(
                    SimulationResponse {
                        return_amount: (return_before_commission(op, ap, amt) - commission_of(
                            return_before_commission(op, ap, amt),
                            total_fee_rate as int,
                        )) as u128,
                        spread_amount: swap_spread(op, ap, amt) as u128,
                        commission_amount: commission_of(
                            return_before_commission(op, ap, amt),
                            total_fee_rate as int,
                        ) as u128,
                    },
                )
            })
        }),
{
    let offer_idx: usize;
    let ask_idx: usize;
    if offer_asset.info.equal(&pools[0].info) {
        offer_idx = 0;
        ask_idx = 1;
    } else if offer_asset.info.equal(&pools[1].info) {
        offer_idx = 1;
        ask_idx = 0;
    } else {
        return Err(ContractError::AssetMismatch);
    }
    match compute_swap(
        pools[offer_idx].amount,
        pools[ask_idx].amount,
        offer_asset.amount,
        total_fee_rate,
    ) {
        Ok((return_amount, spread_amount, commission_amount)) => Ok(
            SimulationResponse { return_amount, spread_amount, commission_amount },
        ),
        Err(err) => Err(err),
    }
}

/// Simulates a reverse swap against the current reserves.
pub fn query_reverse_simulation(
    pools: [Asset; 2],
    ask_asset: Asset,
    total_fee_rate: u128,
) -> (r: Result<ReverseSimulationResponse, ContractError>)
    requires
        total_fee_rate < crate::RATE_SCALE,
    ensures
        ({
            let side = offer_side(pools, ask_asset.info);
            &&& side is None ==> r == Err::<ReverseSimulationResponse, ContractError>(
                ContractError::AssetMismatch,
            )
            &&& side is Some ==> ({
                let ap = pools[side->0].amount as int;
                let op = pools[1 - side->0].amount as int;
                let amt = ask_asset.amount as int;
                let rate = total_fee_rate as int;
                &&& (op == 0 || crate::swap::before_commission(amt, rate) >= ap) ==> r == Err::<
                    ReverseSimulationResponse,
                    ContractError,
                >(ContractError::DivisionByZero)
                &&& op > 0 && crate::swap::before_commission(amt, rate) < ap && (
                crate::swap::reverse_offer_amount(op, ap, amt, rate) > u128::MAX
                    || crate::swap::reverse_spread(op, ap, amt, rate) > u128::MAX) ==> r == Err::<
                    ReverseSimulationResponse,
                    ContractError,
                >(ContractError::ArithmeticOverflow)
                &&& op > 0 && crate::swap::before_commission(amt, rate) < ap
                    && crate::swap::reverse_offer_amount(op, ap, amt, rate) <= u128::MAX
                    && crate::swap::reverse_spread(op, ap, amt, rate) <= u128::MAX ==> r == Ok::<
                    ReverseSimulationResponse,
                    ContractError,
                >(
                    ReverseSimulationResponse {
                        offer_amount: crate::swap::reverse_offer_amount(op, ap, amt, rate) as u128,
                        spread_amount: crate::swap::reverse_spread(op, ap, amt, rate) as u128,
                        commission_amount: crate::swap::reverse_commission(amt, rate) as u128,
                    },
                )
            })
        }),
{
    let ask_idx: usize;
    let offer_idx: usize;
    if ask_asset.info.equal(&pools[0].info) {
        ask_idx = 0;
        offer_idx = 1;
    } else if ask_asset.info.equal(&pools[1].info) {
        ask_idx = 1;
        offer_idx = 0;
    } else {
        return Err(ContractError::AssetMismatch);
    }
    match compute_offer_amount(
        pools[offer_idx].amount,
        pools[ask_idx].amount,
        ask_asset.amount,
        total_fee_rate,
    ) {
        Ok((offer_amount, spread_amount, commission_amount)) => Ok(
            ReverseSimulationResponse { offer_amount, spread_amount, commission_amount },
        ),
        Err(err) => Err(err),
    }
}

/// The pool's reserves and outstanding shares.
pub fn query_pool(pools: [Asset; 2], total_share: u128) -> (r: PoolResponse)
    ensures
        r.assets == pools,
        r.total_share == total_share,
{
    PoolResponse { assets: pools, total_share }
}

/// The pro-rata claim a share amount holds on the pool.
pub fn query_share(pools: [Asset; 2], amount: u128, total_share: u128) -> (r: Result<
    Vec<Asset>,
    ContractError,
>)
    ensures
        ({
            let r0 = refund_amount(pools[0].amount as int, amount as int, total_share as int);
            let r1 = refund_amount(pools[1].amount as int, amount as int, total_share as int);
            &&& (r0 > u128::MAX || r1 > u128::MAX) ==> r == Err::<Vec<Asset>, ContractError>(
                ContractError::ArithmeticOverflow,
            )
            &&& r0 <= u128::MAX && r1 <= u128::MAX ==> (r matches Ok(v) && v@ =~= seq![
                Asset { info: pools[0].info, amount: r0 as u128 },
                Asset { info: pools[1].info, amount: r1 as u128 },
            ])
        }),
{
    get_share_in_assets(&pools, amount, total_share)
}

/// The oracle counters as they stand at the query time, the pending
/// interval applied read-only.
pub fn query_cumulative_prices(
    config: &Config,
    env_time: u64,
    pools: [Asset; 2],
    total_share: u128,
) -> (r: Result<CumulativePricesResponse, ContractError>)
    ensures
        accumulation_overflows(
            env_time as int,
            config.block_time_last as int,
            pools[0].amount as int,
            pools[1].amount as int,
        ) ==> r == Err::<CumulativePricesResponse, ContractError>(
            ContractError::ArithmeticOverflow,
        ),
        !accumulation_overflows(
            env_time as int,
            config.block_time_last as int,
            pools[0].amount as int,
            pools[1].amount as int,
        ) ==> (r matches Ok(resp) && resp.assets == pools && resp.total_share == total_share && ({
            let advanced = advanced_config(*config, env_time, pools[0].amount, pools[1].amount);
            resp.price0_cumulative_last == advanced.price0_cumulative_last
                && resp.price1_cumulative_last == advanced.price1_cumulative_last
        })),
{
    let mut p0 = config.price0_cumulative_last;
    let mut p1 = config.price1_cumulative_last;
    match accumulate_prices(
        env_time,
        config.block_time_last,
        config.price0_cumulative_last,
        config.price1_cumulative_last,
        pools[0].amount,
        pools[1].amount,
    ) {
        Ok(Some((pc0, pc1, _))) => {
            p0 = pc0;
            p1 = pc1;
        },
        Ok(None) => (),
        Err(err) => {
            return Err(err);
        },
    }
    Ok(
        CumulativePricesResponse {
            assets: pools,
            total_share,
            price0_cumulative_last: p0,
            price1_cumulative_last: p1,
        },
    )
}

/// The pair's control settings.
pub fn query_config(config: &Config) -> (r: ConfigResponse)
    ensures
        r.block_time_last == config.block_time_last,
{
    ConfigResponse { block_time_last: config.block_time_last }
}

} // verus!
