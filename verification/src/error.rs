//! The failure taxonomy shared by every component: invalid input, missing
//! authority, arithmetic edge cases, breached slippage or spread bounds,
//! and bridge-graph configuration faults.

use crate::asset::AssetInfo;
use vstd::prelude::*;

verus! {

#[derive(Clone, Copy, PartialEq, Eq, Structural, Debug)]
pub enum ContractError {
    /// The requested operation is not offered.
    NonSupported,
    /// A pair was created over twice the same asset.
    DoublingAssets,
    /// The caller is not the party this operation is reserved for.
    Unauthorized,
    /// A deposit amount was zero.
    InvalidZeroAmount,
    /// An asset does not belong to the pair it was used with.
    AssetMismatch,
    /// Auto-staking was requested while no staking contract is configured.
    AutoStakeError,
    /// A caller-supplied spread or slippage bound exceeds the protocol cap.
    AllowedSpreadAssertion,
    /// The swap's spread exceeds the caller's bound.
    MaxSpreadAssertion,
    /// The deposit ratio moved against the pool by more than the tolerance.
    MaxSlippageAssertion,
    /// A wide intermediate did not fit the native amount width.
    ArithmeticOverflow,
    /// A pool-depletion edge case led to a zero divisor.
    DivisionByZero,
    /// The same asset was requested twice in one collection.
    DuplicatedAsset,
    /// A bridge chain would need more hops than allowed; carries the depth
    /// at which resolution stopped.
    MaxBridgeDepth(u64),
    /// A bridge token has no further route to the protocol token.
    InvalidBridgeDestination(AssetInfo),
    /// No pool exists between the two assets of a bridge edge.
    InvalidBridgeNoPool(AssetInfo, AssetInfo),
    /// A fee token has neither a direct pool nor a bridge edge.
    CannotSwap(AssetInfo),
    /// Reward distribution was enabled a second time.
    RewardsAlreadyEnabled,
    /// Reward distribution was enabled over zero blocks.
    InvalidBlocksNumber,
}

} // verus!
