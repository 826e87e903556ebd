//! Core financial logic of a constant-product automated market maker:
//! swap pricing, liquidity share accounting, a time-weighted average price
//! accumulator, fee routing over a bridge-token graph, and a staking share
//! ledger.

use vstd::prelude::*;

pub mod asset;
pub mod error;
pub mod maker;
pub mod oracle;
pub mod pair;
pub mod querier;
pub mod staking;
pub mod swap;
pub mod wide;

verus! {

/// Scale of all fixed-point rates: a rate `r` stands for the fraction
/// `r / RATE_SCALE`.
pub const RATE_SCALE: u128 = 1_000_000_000_000_000_000;

/// Default slippage bound (0.5%) applied when a caller gives none.
pub const DEFAULT_SLIPPAGE_RATE: u128 = 5_000_000_000_000_000;

/// Protocol-wide cap (50%) on caller-supplied spread and slippage bounds.
pub const MAX_ALLOWED_SLIPPAGE_RATE: u128 = 500_000_000_000_000_000;

} // verus!
