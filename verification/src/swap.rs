//! Pool pricing engine: constant-product swap quotes, the reverse quote,
//! and the spread and slippage assertions.
//!
//! All rates are fixed-point fractions of [`crate::RATE_SCALE`].  The quote
//! subtracts a ceiling-rounded quotient from the ask reserve, so rounding
//! always favours the pool.

use crate::asset::{Asset, AssetInfo};
use crate::error::ContractError;
use crate::wide::{
    mul_div_ceil, mul_div_floor, mul_div_floor_wide, mul_u128, wide_add_u128, wide_ratio_gt, Wide,
};
use crate::{DEFAULT_SLIPPAGE_RATE, MAX_ALLOWED_SLIPPAGE_RATE, RATE_SCALE};
use vstd::arithmetic::div_mod::{
    lemma_div_is_ordered, lemma_div_pos_is_pos, lemma_fundamental_div_mod,
    lemma_multiply_divide_le, lemma_multiply_divide_lt,
};
use vstd::arithmetic::mul::{
    lemma_mul_inequality, lemma_mul_is_commutative, lemma_mul_is_distributive_add_other_way,
    lemma_mul_nonnegative,
};
use vstd::prelude::*;

verus! {

/// Division rounded towards positive infinity.
pub open spec fn ceil_div(n: int, d: int) -> int {
    (n + d - 1) / d
}

/// What the ask reserve releases before commission: the reserve minus the
/// ceiling-rounded constant-product quotient.
pub open spec fn return_before_commission(offer_pool: int, ask_pool: int, offer_amount: int) -> int {
    ask_pool - ceil_div(offer_pool * ask_pool, offer_pool + offer_amount)
}

/// The commission withheld from a gross return at the given rate.
pub open spec fn commission_of(gross: int, rate: int) -> int {
    (gross * rate) / (RATE_SCALE as int)
}

/// The no-slippage quote: the offer amount priced at the current reserve
/// ratio, rounded down.
pub open spec fn ideal_return(offer_pool: int, ask_pool: int, offer_amount: int) -> int {
    (offer_amount * ask_pool) / offer_pool
}

/// The spread of a forward swap: how far the quote falls short of the
/// no-slippage quote, clamped at zero.
pub open spec fn swap_spread(offer_pool: int, ask_pool: int, offer_amount: int) -> int {
    let short = ideal_return(offer_pool, ask_pool, offer_amount) - return_before_commission(
        offer_pool,
        ask_pool,
        offer_amount,
    );
    if short > 0 {
        short
    } else {
        0
    }
}

/// The ceiling-rounded constant-product quotient stays within the ask
/// reserve, and covers the constant product when multiplied back.
proof fn lemma_quote_bounds(offer_pool: int, ask_pool: int, offer_amount: int)
    requires
        offer_pool >= 1,
        ask_pool >= 0,
        offer_amount >= 0,
    ensures
        0 <= ceil_div(offer_pool * ask_pool, offer_pool + offer_amount) <= ask_pool,
        ceil_div(offer_pool * ask_pool, offer_pool + offer_amount) * (offer_pool + offer_amount)
            >= offer_pool * ask_pool,
{
    let x = offer_pool + offer_amount;
    let cp = offer_pool * ask_pool;
    let c = ceil_div(cp, x);
    lemma_mul_nonnegative(offer_pool, ask_pool);
    lemma_div_pos_is_pos(cp + x - 1, x);
    assert(cp + x - 1 < x * (ask_pool + 1)) by {
        lemma_mul_inequality(offer_pool, x, ask_pool);
        lemma_mul_is_commutative(x, ask_pool);
        lemma_mul_is_distributive_add_other_way(x, ask_pool, 1);
        lemma_mul_is_commutative(x, ask_pool + 1);
    }
    assert(c < ask_pool + 1) by {
        lemma_multiply_divide_lt(cp + x - 1, x, ask_pool + 1);
    }
    assert(c * x >= cp) by {
        lemma_fundamental_div_mod(cp + x - 1, x);
        assert(cp + x - 1 == x * c + (cp + x - 1) % x);
        assert((cp + x - 1) % x < x);
        lemma_mul_is_commutative(x, c);
    }
}

/// The commission never exceeds what it is taken from.
proof fn lemma_commission_le(gross: int, rate: int)
    requires
        gross >= 0,
        0 <= rate <= RATE_SCALE,
    ensures
        0 <= commission_of(gross, rate) <= gross,
{
    lemma_mul_nonnegative(gross, rate);
    lemma_div_pos_is_pos(gross * rate, RATE_SCALE as int);
    assert(gross * rate <= (RATE_SCALE as int) * gross) by {
        lemma_mul_inequality(rate, RATE_SCALE as int, gross);
        lemma_mul_is_commutative(gross, rate);
        lemma_mul_is_commutative(rate, gross);
    }
    assert((gross * rate) / (RATE_SCALE as int) <= gross) by {
        lemma_multiply_divide_le(gross * rate, RATE_SCALE as int, gross);
    }
}

/// A forward swap quote.
///
/// Returns `(return_amount, spread_amount, commission_amount)`: the net
/// amount paid out of the ask reserve, the shortfall against the
/// no-slippage price, and the commission absorbed back into the pool.
pub fn compute_swap(
    offer_pool: u128,
    ask_pool: u128,
    offer_amount: u128,
    commission_rate: u128,
) -> (r: Result<(u128, u128, u128), ContractError>)
    requires
        commission_rate <= RATE_SCALE,
    ensures
        match r {
            Ok(t) => offer_pool > 0 && offer_pool + offer_amount <= u128::MAX && swap_spread(
                offer_pool as int,
                ask_pool as int,
                offer_amount as int,
            ) <= u128::MAX && t.0 == return_before_commission(
                offer_pool as int,
                ask_pool as int,
                offer_amount as int,
            ) - commission_of(
                return_before_commission(offer_pool as int, ask_pool as int, offer_amount as int),
                commission_rate as int,
            ) && t.0 + t.2 <= ask_pool && t.1 == swap_spread(
                offer_pool as int,
                ask_pool as int,
                offer_amount as int,
            ) && t.2 == commission_of(
                return_before_commission(offer_pool as int, ask_pool as int, offer_amount as int),
                commission_rate as int,
            ),
            Err(e) => if offer_pool == 0 {
                e == ContractError::DivisionByZero
            } else {
                e == ContractError::ArithmeticOverflow && (offer_pool + offer_amount > u128::MAX
                    || swap_spread(offer_pool as int, ask_pool as int, offer_amount as int)
                    > u128::MAX)
            },
        },
{
    if offer_pool == 0 {
        return Err(ContractError::DivisionByZero);
    }
    if offer_amount > u128::MAX - offer_pool {
        return Err(ContractError::ArithmeticOverflow);
    }
    let x = offer_pool + offer_amount;
    proof {
        lemma_quote_bounds(offer_pool as int, ask_pool as int, offer_amount as int);
    }
    let quote = match mul_div_ceil(offer_pool, ask_pool, x) {
        Some(c) => c,
        None => {
            proof {
                assert(false);
            }
            0
        },
    };
    let gross = ask_pool - quote;
    let ideal_w = mul_div_floor_wide(offer_amount, ask_pool, offer_pool);
    let gross_w = Wide::from_u128(gross);
    let spread_w = if gross_w.wide_lt(&ideal_w) {
        ideal_w.wide_sub(&gross_w)
    } else {
        Wide { hi: 0, lo: 0 }
    };
    if !spread_w.fits_u128() {
        return Err(ContractError::ArithmeticOverflow);
    }
    let spread_amount = spread_w.to_u128();
    proof {
        lemma_commission_le(gross as int, commission_rate as int);
    }
    let commission_amount = match mul_div_floor(gross, commission_rate, RATE_SCALE) {
        Some(c) => c,
        None => {
            proof {
                assert(false);
            }
            0
        },
    };
    let return_amount = gross - commission_amount;
    Ok((return_amount, spread_amount, commission_amount))
}

/// The ask amount grossed back up by the commission: what must leave the
/// ask reserve so that `ask_amount` remains after the fee.
pub open spec fn before_commission(ask_amount: int, rate: int) -> int {
    (ask_amount * RATE_SCALE) / (RATE_SCALE - rate)
}

/// The reverse quote: the offer amount whose forward swap yields the
/// requested ask amount.
pub open spec fn reverse_offer_amount(
    offer_pool: int,
    ask_pool: int,
    ask_amount: int,
    rate: int,
) -> int {
    (offer_pool * ask_pool) / (ask_pool - before_commission(ask_amount, rate)) - offer_pool
}

/// The spread of a reverse quote, clamped at zero.
pub open spec fn reverse_spread(offer_pool: int, ask_pool: int, ask_amount: int, rate: int) -> int {
    let offer_amount = reverse_offer_amount(offer_pool, ask_pool, ask_amount, rate);
    let short = (offer_amount * ask_pool) / offer_pool - before_commission(ask_amount, rate);
    if short > 0 {
        short
    } else {
        0
    }
}

/// The commission of a reverse quote.
pub open spec fn reverse_commission(ask_amount: int, rate: int) -> int {
    (before_commission(ask_amount, rate) * rate) / (RATE_SCALE as int)
}

/// A reverse swap quote.
///
/// Returns `(offer_amount, spread_amount, commission_amount)`: what must be
/// offered to receive `ask_amount` net of commission.  Reports an error
/// when the grossed-up ask amount would deplete the ask reserve.
pub fn compute_offer_amount(
    offer_pool: u128,
    ask_pool: u128,
    ask_amount: u128,
    commission_rate: u128,
) -> (r: Result<(u128, u128, u128), ContractError>)
    requires
        commission_rate < RATE_SCALE,
    ensures
        match r {
            Ok(t) => offer_pool > 0 && before_commission(ask_amount as int, commission_rate as int)
                < ask_pool && reverse_offer_amount(
                offer_pool as int,
                ask_pool as int,
                ask_amount as int,
                commission_rate as int,
            ) <= u128::MAX && reverse_spread(
                offer_pool as int,
                ask_pool as int,
                ask_amount as int,
                commission_rate as int,
            ) <= u128::MAX && t.0 == reverse_offer_amount(
                offer_pool as int,
                ask_pool as int,
                ask_amount as int,
                commission_rate as int,
            ) && t.1 == reverse_spread(
                offer_pool as int,
                ask_pool as int,
                ask_amount as int,
                commission_rate as int,
            ) && t.2 == reverse_commission(ask_amount as int, commission_rate as int),
            Err(e) => if offer_pool == 0 || before_commission(
                ask_amount as int,
                commission_rate as int,
            ) >= ask_pool {
                e == ContractError::DivisionByZero
            } else {
                e == ContractError::ArithmeticOverflow && (reverse_offer_amount(
                    offer_pool as int,
                    ask_pool as int,
                    ask_amount as int,
                    commission_rate as int,
                ) > u128::MAX || reverse_spread(
                    offer_pool as int,
                    ask_pool as int,
                    ask_amount as int,
                    commission_rate as int,
                ) > u128::MAX)
            },
        },
{
    if offer_pool == 0 {
        return Err(ContractError::DivisionByZero);
    }
    let grossed_w = mul_div_floor_wide(ask_amount, RATE_SCALE, RATE_SCALE - commission_rate);
    let ask_w = Wide::from_u128(ask_pool);
    if !grossed_w.wide_lt(&ask_w) {
        return Err(ContractError::DivisionByZero);
    }
    let grossed = grossed_w.to_u128();
    let depleted = ask_pool - grossed;
    proof {
        lemma_mul_nonnegative(offer_pool as int, ask_pool as int);
        assert((offer_pool * depleted) as int / (depleted as int) == offer_pool) by {
            vstd::arithmetic::div_mod::lemma_div_by_multiple(offer_pool as int, depleted as int);
        }
        assert(offer_pool * depleted <= offer_pool * ask_pool) by {
            lemma_mul_inequality(depleted as int, ask_pool as int, offer_pool as int);
            lemma_mul_is_commutative(depleted as int, offer_pool as int);
            lemma_mul_is_commutative(ask_pool as int, offer_pool as int);
        }
        lemma_div_is_ordered(
            offer_pool * depleted,
            offer_pool * ask_pool,
            depleted as int,
        );
    }
    let quotient_w = mul_div_floor_wide(offer_pool, ask_pool, depleted);
    let offer_w = Wide::from_u128(offer_pool);
    let diff_w = quotient_w.wide_sub(&offer_w);
    if !diff_w.fits_u128() {
        return Err(ContractError::ArithmeticOverflow);
    }
    let offer_amount = diff_w.to_u128();
    let ideal_w = mul_div_floor_wide(offer_amount, ask_pool, offer_pool);
    let spread_w = if grossed_w.wide_lt(&ideal_w) {
        ideal_w.wide_sub(&grossed_w)
    } else {
        Wide { hi: 0, lo: 0 }
    };
    if !spread_w.fits_u128() {
        return Err(ContractError::ArithmeticOverflow);
    }
    let spread_amount = spread_w.to_u128();
    proof {
        lemma_commission_le(grossed as int, commission_rate as int);
    }
    let commission_amount = match mul_div_floor(grossed, commission_rate, RATE_SCALE) {
        Some(c) => c,
        None => {
            proof {
                assert(false);
            }
            0
        },
    };
    Ok((offer_amount, spread_amount, commission_amount))
}

/// The spread or slippage bound in force: the caller's, or the protocol
/// default when none was given.
pub open spec fn effective_bound(given: Option<u128>) -> int {
    match given {
        Some(m) => m as int,
        None => DEFAULT_SLIPPAGE_RATE as int,
    }
}

/// The return a caller expects from their belief price.
pub open spec fn expected_return(offer_amount: int, belief_price: int) -> int {
    (offer_amount * RATE_SCALE) / belief_price
}

/// Whether the shortfall against the belief price exceeds the bound.
pub open spec fn belief_spread_breach(
    offer_amount: int,
    belief_price: int,
    return_amount: int,
    bound: int,
) -> bool {
    let expected = expected_return(offer_amount, belief_price);
    return_amount < expected && (expected - return_amount) * RATE_SCALE > bound * expected
}

/// Whether the realised spread ratio exceeds the bound.
pub open spec fn direct_spread_breach(return_amount: int, spread_amount: int, bound: int) -> bool {
    spread_amount * RATE_SCALE > bound * (return_amount + spread_amount)
}

/// What the spread assertion decides for each input.
pub open spec fn max_spread_check(
    belief_price: Option<u128>,
    max_spread: Option<u128>,
    offer_amount: u128,
    return_amount: u128,
    spread_amount: u128,
) -> Result<(), ContractError> {
    let bound = effective_bound(max_spread);
    if bound > MAX_ALLOWED_SLIPPAGE_RATE {
        Err(ContractError::AllowedSpreadAssertion)
    } else {
        match belief_price {
            Some(bp) => if bp == 0 {
                Err(ContractError::DivisionByZero)
            } else if belief_spread_breach(
                offer_amount as int,
                bp as int,
                return_amount as int,
                bound,
            ) {
                Err(ContractError::MaxSpreadAssertion)
            } else {
                Ok(())
            },
            None => if return_amount == 0 && spread_amount == 0 {
                Err(ContractError::DivisionByZero)
            } else if direct_spread_breach(return_amount as int, spread_amount as int, bound) {
                Err(ContractError::MaxSpreadAssertion)
            } else {
                Ok(())
            },
        }
    }
}

/// The spread assertion.
///
/// With a belief price, the expected return is priced at that belief and
/// the shortfall ratio is held against the bound; otherwise the realised
/// spread ratio is held against it directly.  The bound itself may not
/// exceed the protocol cap.
pub fn assert_max_spread(
    belief_price: Option<u128>,
    max_spread: Option<u128>,
    offer_amount: u128,
    return_amount: u128,
    spread_amount: u128,
) -> (r: Result<(), ContractError>)
    ensures
        r is Ok <==> max_spread_check(
            belief_price,
            max_spread,
            offer_amount,
            return_amount,
            spread_amount,
        ) is Ok,
        r is Err ==> r->Err_0 == max_spread_check(
            belief_price,
            max_spread,
            offer_amount,
            return_amount,
            spread_amount,
        )->Err_0,
{
    let bound = match max_spread {
        Some(m) => m,
        None => DEFAULT_SLIPPAGE_RATE,
    };
    if bound > MAX_ALLOWED_SLIPPAGE_RATE {
        return Err(ContractError::AllowedSpreadAssertion);
    }
    match belief_price {
        Some(bp) => {
            if bp == 0 {
                return Err(ContractError::DivisionByZero);
            }
            let expected_w = mul_div_floor_wide(offer_amount, RATE_SCALE, bp);
            let return_w = Wide::from_u128(return_amount);
            if !return_w.wide_lt(&expected_w) {
                return Ok(());
            }
            let shortfall_w = expected_w.wide_sub(&return_w);
            let breach = if bound == 0 {
                proof {
                    lemma_mul_inequality(1, shortfall_w.val(), RATE_SCALE as int);
                }
                true
            } else {
                let b = wide_ratio_gt(shortfall_w, bound, expected_w, RATE_SCALE);
                proof {
                    lemma_mul_is_commutative(bound as int, expected_w.val());
                }
                b
            };
            if breach {
                Err(ContractError::MaxSpreadAssertion)
            } else {
                Ok(())
            }
        },
        None => {
            if return_amount == 0 && spread_amount == 0 {
                return Err(ContractError::DivisionByZero);
            }
            let denom_w = wide_add_u128(return_amount, spread_amount);
            let spread_w = Wide::from_u128(spread_amount);
            let breach = if bound == 0 {
                proof {
                    if spread_amount > 0 {
                        lemma_mul_inequality(1, spread_amount as int, RATE_SCALE as int);
                    }
                }
                spread_amount > 0
            } else {
                let b = wide_ratio_gt(spread_w, bound, denom_w, RATE_SCALE);
                proof {
                    lemma_mul_is_commutative(bound as int, denom_w.val());
                }
                b
            };
            if breach {
                Err(ContractError::MaxSpreadAssertion)
            } else {
                Ok(())
            }
        },
    }
}

/// Whether the deposit ratio has moved against either pool-side price by
/// more than the tolerance.
pub open spec fn slippage_breach(d0: int, d1: int, p0: int, p1: int, tol: int) -> bool {
    (d0 * (RATE_SCALE - tol)) * p1 > (d1 * RATE_SCALE) * p0 || (d1 * (RATE_SCALE - tol)) * p0 > (
    d0 * RATE_SCALE) * p1
}

/// What the slippage assertion decides for each input.
pub open spec fn slippage_check(
    slippage_tolerance: Option<u128>,
    d0: u128,
    d1: u128,
    p0: u128,
    p1: u128,
) -> Result<(), ContractError> {
    let tol = effective_bound(slippage_tolerance);
    if tol > MAX_ALLOWED_SLIPPAGE_RATE {
        Err(ContractError::AllowedSpreadAssertion)
    } else if p0 == 0 || p1 == 0 {
        Err(ContractError::DivisionByZero)
    } else if slippage_breach(d0 as int, d1 as int, p0 as int, p1 as int, tol) {
        Err(ContractError::MaxSlippageAssertion)
    } else {
        Ok(())
    }
}

/// The slippage assertion on a liquidity deposit: the implied price of the
/// two deposit amounts may not have moved against either pool-side price
/// by more than the tolerance, in either direction.
pub fn assert_slippage_tolerance(
    slippage_tolerance: Option<u128>,
    deposits: [u128; 2],
    pools: [u128; 2],
) -> (r: Result<(), ContractError>)
    requires
        deposits[0] >= 1,
        deposits[1] >= 1,
    ensures
        r == slippage_check(slippage_tolerance, deposits[0], deposits[1], pools[0], pools[1]),
{
    let tol = match slippage_tolerance {
        Some(t) => t,
        None => DEFAULT_SLIPPAGE_RATE,
    };
    if tol > MAX_ALLOWED_SLIPPAGE_RATE {
        return Err(ContractError::AllowedSpreadAssertion);
    }
    if pools[0] == 0 || pools[1] == 0 {
        return Err(ContractError::DivisionByZero);
    }
    let kept = RATE_SCALE - tol;
    let x0 = mul_u128(deposits[0], kept);
    let y0 = mul_u128(deposits[1], RATE_SCALE);
    let first = wide_ratio_gt(x0, pools[0], y0, pools[1]);
    let x1 = mul_u128(deposits[1], kept);
    let y1 = mul_u128(deposits[0], RATE_SCALE);
    let second = wide_ratio_gt(x1, pools[1], y1, pools[0]);
    if first || second {
        Err(ContractError::MaxSlippageAssertion)
    } else {
        Ok(())
    }
}

/// The protocol's cut of a swap commission, or `None` when it rounds to
/// nothing.
pub fn calculate_maker_fee(
    pool_info: AssetInfo,
    commission_amount: u128,
    maker_commission_rate: u128,
) -> (r: Option<Asset>)
    requires
        maker_commission_rate <= RATE_SCALE,
    ensures
        ({
            let fee = commission_of(commission_amount as int, maker_commission_rate as int);
            &&& fee == 0 ==> r is None
            &&& fee != 0 ==> (r matches Some(a) && a.info == pool_info && a.amount == fee)
        }),
{
    proof {
        lemma_commission_le(commission_amount as int, maker_commission_rate as int);
    }
    let fee = match mul_div_floor(commission_amount, maker_commission_rate, RATE_SCALE) {
        Some(f) => f,
        None => {
            proof {
                assert(false);
            }
            0
        },
    };
    if fee == 0 {
        None
    } else {
        Some(Asset { info: pool_info, amount: fee })
    }
}

/// Constant product never decreases across a swap: the ceiling rounding of
/// the quote and the commission absorbed into the pool both favour the
/// reserves, so `(offer + in) * (ask - out) >= offer * ask`.
pub proof fn lemma_constant_product_nondecrease(
    offer_pool: int,
    ask_pool: int,
    offer_amount: int,
    rate: int,
)
    requires
        offer_pool >= 1,
        ask_pool >= 0,
        offer_amount >= 0,
        0 <= rate <= RATE_SCALE,
    ensures
        ({
            let gross = return_before_commission(offer_pool, ask_pool, offer_amount);
            let out = gross - commission_of(gross, rate);
            (offer_pool + offer_amount) * (ask_pool - out) >= offer_pool * ask_pool
        }),
{
    let x = offer_pool + offer_amount;
    let cp = offer_pool * ask_pool;
    let c = ceil_div(cp, x);
    let gross = return_before_commission(offer_pool, ask_pool, offer_amount);
    let fee = commission_of(gross, rate);
    let out = gross - fee;
    lemma_quote_bounds(offer_pool, ask_pool, offer_amount);
    lemma_commission_le(gross, rate);
    assert(ask_pool - out == c + fee);
    assert(x * (c + fee) >= x * c) by {
        lemma_mul_inequality(c, c + fee, x);
        lemma_mul_is_commutative(x, c);
        lemma_mul_is_commutative(x, c + fee);
    }
    assert(x * c >= cp) by {
        lemma_mul_is_commutative(x, c);
    }
    lemma_mul_is_commutative(x, ask_pool - out);
}

} // verus!
