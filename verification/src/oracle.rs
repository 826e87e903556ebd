//! Time-weighted average price accumulator.
//!
//! Each pool keeps two cumulative price counters that advance by
//! `elapsed_seconds * precision * price` whenever wall-clock time strictly
//! increases and both reserves are nonzero.  The counters add with
//! intentional wraparound at the native width: consumers difference two
//! samples modulo 2^128.

use crate::error::ContractError;
use crate::wide::{half_base, mul_div_floor, wrapping_add_u128};
use vstd::arithmetic::mul::lemma_mul_inequality;
use vstd::prelude::*;

verus! {

/// Decimal places of the accumulated prices.
pub const TWAP_PRECISION: u32 = 6;

/// The scale the accumulated prices carry: 10^TWAP_PRECISION.
pub const PRICE_PRECISION: u128 = 1_000_000;

/// How much a cumulative counter advances over an interval: the elapsed
/// seconds at the price precision, times the reserve ratio, rounded down.
pub open spec fn price_increment(elapsed: int, this_pool: int, other_pool: int) -> int {
    (elapsed * PRICE_PRECISION * other_pool) / this_pool
}

/// Whether an accumulation step would overflow the native width.
pub open spec fn accumulation_overflows(
    block_time: int,
    block_time_last: int,
    x: int,
    y: int,
) -> bool {
    block_time > block_time_last && x != 0 && y != 0 && (price_increment(
        block_time - block_time_last,
        x,
        y,
    ) > u128::MAX || price_increment(block_time - block_time_last, y, x) > u128::MAX)
}

/// What an accumulation step yields: `None` when time has not advanced,
/// otherwise the two counters, frozen over a zero-reserve interval and
/// advanced modulo 2^128 otherwise.
pub open spec fn accumulation(
    block_time: int,
    block_time_last: int,
    p0: int,
    p1: int,
    x: int,
    y: int,
) -> Option<(int, int)> {
    if block_time <= block_time_last {
        None
    } else if x == 0 || y == 0 {
        Some((p0, p1))
    } else {
        let elapsed = block_time - block_time_last;
        Some(
            (
                (p0 + price_increment(elapsed, x, y)) % half_base(),
                (p1 + price_increment(elapsed, y, x)) % half_base(),
            ),
        )
    }
}

/// One accumulation step.
///
/// No-op (`None`) when time has not advanced.  With a zero reserve the
/// counters stay frozen while the time pointer still advances.  Otherwise
/// both counters advance by their exact increment, added modulo 2^128; an
/// increment beyond the native width is an error.
pub fn accumulate_prices(
    block_time: u64,
    block_time_last: u64,
    price0_cumulative_last: u128,
    price1_cumulative_last: u128,
    x: u128,
    y: u128,
) -> (r: Result<Option<(u128, u128, u64)>, ContractError>)
    ensures
        accumulation_overflows(block_time as int, block_time_last as int, x as int, y as int)
            ==> r == Err::<Option<(u128, u128, u64)>, ContractError>(
            ContractError::ArithmeticOverflow,
        ),
        !accumulation_overflows(block_time as int, block_time_last as int, x as int, y as int)
            ==> match accumulation(
            block_time as int,
            block_time_last as int,
            price0_cumulative_last as int,
            price1_cumulative_last as int,
            x as int,
            y as int,
        ) {
            None => r == Ok::<Option<(u128, u128, u64)>, ContractError>(None),
            Some(p) => r == Ok::<Option<(u128, u128, u64)>, ContractError>(
                Some((p.0 as u128, p.1 as u128, block_time)),
            ),
        },
{
    if block_time <= block_time_last {
        return Ok(None);
    }
    if x == 0 || y == 0 {
        return Ok(Some((price0_cumulative_last, price1_cumulative_last, block_time)));
    }
    let elapsed = block_time - block_time_last;
    proof {
        lemma_mul_inequality(elapsed as int, u64::MAX as int, PRICE_PRECISION as int);
    }
    let scaled = (elapsed as u128) * PRICE_PRECISION;
    let inc0 = match mul_div_floor(scaled, y, x) {
        Some(v) => v,
        None => {
            return Err(ContractError::ArithmeticOverflow);
        },
    };
    let inc1 = match mul_div_floor(scaled, x, y) {
        Some(v) => v,
        None => {
            return Err(ContractError::ArithmeticOverflow);
        },
    };
    let p0 = wrapping_add_u128(price0_cumulative_last, inc0);
    let p1 = wrapping_add_u128(price1_cumulative_last, inc1);
    Ok(Some((p0, p1, block_time)))
}

} // verus!
