use amm_core::asset::{Asset, AssetInfo};
use amm_core::error::ContractError;
use amm_core::swap::{
    assert_max_spread, assert_slippage_tolerance, calculate_maker_fee, compute_offer_amount,
    compute_swap,
};
use amm_core::{DEFAULT_SLIPPAGE_RATE, MAX_ALLOWED_SLIPPAGE_RATE, RATE_SCALE};

/// 0.3% at the rate scale.
const FEE_03: u128 = 3_000_000_000_000_000;

#[test]
fn swap_quote_on_balanced_pool() {
    // reserves (1_000_000, 1_000_000), 0.3% fee, offer 1_000
    let (ret, spread, commission) = compute_swap(1_000_000, 1_000_000, 1_000, FEE_03).unwrap();
    assert_eq!(commission, 2);
    assert_eq!(ret, 997);
    assert_eq!(spread, 1);
}

#[test]
fn swap_quote_without_fee_keeps_product() {
    let offer_pool: u128 = 1_250_000;
    let ask_pool: u128 = 740_000;
    let offer = 3_771;
    let (ret, _spread, commission) = compute_swap(offer_pool, ask_pool, offer, 0).unwrap();
    assert_eq!(commission, 0);
    // constant product never decreases
    let before = offer_pool * ask_pool;
    let after = (offer_pool + offer) * (ask_pool - ret);
    assert!(after >= before);
}

#[test]
fn swap_quote_with_fee_keeps_product() {
    let offer_pool: u128 = 33_333;
    let ask_pool: u128 = 999_999_999;
    let offer = 17;
    let (ret, _spread, _commission) = compute_swap(offer_pool, ask_pool, offer, FEE_03).unwrap();
    let before = offer_pool * ask_pool;
    let after = (offer_pool + offer) * (ask_pool - ret);
    assert!(after >= before);
}

#[test]
fn swap_quote_empty_offer_pool_is_division_error() {
    assert_eq!(
        compute_swap(0, 1_000_000, 1_000, FEE_03),
        Err(ContractError::DivisionByZero)
    );
}

#[test]
fn swap_quote_tiny_offer_clamps_spread_to_zero() {
    // one unit against a deep pool: the ideal quote floors to zero and the
    // shortfall clamps at zero instead of underflowing
    let (ret, spread, _commission) = compute_swap(1_000_000_000, 10, 1, 0).unwrap();
    assert_eq!(ret, 0);
    assert_eq!(spread, 0);
}

#[test]
fn reverse_quote_inverts_forward_quote() {
    // ask for the forward quote's output and get roughly the offer back
    let (offer, _spread, commission) = compute_offer_amount(1_000_000, 1_000_000, 997, FEE_03)
        .unwrap();
    // 997 / (1 - 0.3%) = 1_000 exactly, and 0.3% of that is withheld
    assert_eq!(commission, 3);
    assert_eq!(offer, 1_001);
}

#[test]
fn reverse_quote_depleting_ask_pool_is_rejected() {
    // the grossed-up ask exceeds the whole reserve
    assert_eq!(
        compute_offer_amount(1_000_000, 1_000, 1_000, FEE_03),
        Err(ContractError::DivisionByZero)
    );
}

#[test]
fn reverse_quote_exact_small_values() {
    // reserves (100, 100), ask 50 with no fee: offer = 100*100/50 - 100
    let (offer, spread, commission) = compute_offer_amount(100, 100, 50, 0).unwrap();
    assert_eq!(offer, 100);
    assert_eq!(commission, 0);
    // ideal = 100*100/100 = 100, grossed ask = 50, spread = 50
    assert_eq!(spread, 50);
}

#[test]
fn max_spread_above_cap_is_rejected() {
    assert_eq!(
        assert_max_spread(None, Some(MAX_ALLOWED_SLIPPAGE_RATE + 1), 1_000, 990, 10),
        Err(ContractError::AllowedSpreadAssertion)
    );
}

#[test]
fn max_spread_direct_ratio_boundary() {
    // spread ratio 10/1000 = 1%; bound 1% passes, just below fails
    let one_percent = RATE_SCALE / 100;
    assert_eq!(assert_max_spread(None, Some(one_percent), 1_000, 990, 10), Ok(()));
    assert_eq!(
        assert_max_spread(None, Some(one_percent - 1), 1_000, 990, 10),
        Err(ContractError::MaxSpreadAssertion)
    );
}

#[test]
fn max_spread_default_bound_applies() {
    // default bound is 0.5%: a 1% spread breaches it
    assert_eq!(
        assert_max_spread(None, None, 1_000, 990, 10),
        Err(ContractError::MaxSpreadAssertion)
    );
    // a 0.4% spread passes
    assert_eq!(assert_max_spread(None, None, 1_000, 996, 4), Ok(()));
    assert_eq!(DEFAULT_SLIPPAGE_RATE, RATE_SCALE / 200);
}

#[test]
fn max_spread_with_belief_price() {
    // belief price 1.0: expecting 1_000 back for 1_000 offered
    let par = RATE_SCALE;
    let five_percent = RATE_SCALE / 20;
    // returning 990 of 1_000 expected is a 1% shortfall
    assert_eq!(assert_max_spread(Some(par), Some(five_percent), 1_000, 990, 0), Ok(()));
    assert_eq!(
        assert_max_spread(Some(par), Some(RATE_SCALE / 200), 1_000, 990, 0),
        Err(ContractError::MaxSpreadAssertion)
    );
    // returning more than expected never breaches
    assert_eq!(assert_max_spread(Some(par), Some(0), 1_000, 1_200, 0), Ok(()));
}

#[test]
fn max_spread_zero_belief_price_is_division_error() {
    assert_eq!(
        assert_max_spread(Some(0), Some(RATE_SCALE / 100), 1_000, 990, 10),
        Err(ContractError::DivisionByZero)
    );
}

#[test]
fn slippage_tolerance_two_sided() {
    let one_percent = RATE_SCALE / 100;
    // deposits at the pool ratio always pass
    assert_eq!(
        assert_slippage_tolerance(Some(one_percent), [500, 500], [1_000_000, 1_000_000]),
        Ok(())
    );
    // a deposit 2% off the pool price breaches a 1% tolerance either way
    assert_eq!(
        assert_slippage_tolerance(Some(one_percent), [510, 490], [1_000_000, 1_000_000]),
        Err(ContractError::MaxSlippageAssertion)
    );
    assert_eq!(
        assert_slippage_tolerance(Some(one_percent), [490, 510], [1_000_000, 1_000_000]),
        Err(ContractError::MaxSlippageAssertion)
    );
}

#[test]
fn slippage_tolerance_cap_and_empty_pool() {
    assert_eq!(
        assert_slippage_tolerance(
            Some(MAX_ALLOWED_SLIPPAGE_RATE + 1),
            [1, 1],
            [1_000, 1_000]
        ),
        Err(ContractError::AllowedSpreadAssertion)
    );
    assert_eq!(
        assert_slippage_tolerance(None, [1, 1], [0, 1_000]),
        Err(ContractError::DivisionByZero)
    );
}

#[test]
fn maker_fee_share_of_commission() {
    let info = AssetInfo::Token { id: 7 };
    // a third of the commission goes to the protocol
    let third = RATE_SCALE / 3;
    let fee = calculate_maker_fee(info, 300, third).unwrap();
    assert_eq!(fee, Asset { info, amount: 99 });
    // a cut that rounds to zero yields no transfer at all
    assert_eq!(calculate_maker_fee(info, 2, third / 1_000_000), None);
}

#[test]
fn swap_quote_overflowing_pool_sum_is_rejected() {
    assert_eq!(
        compute_swap(u128::MAX, 1_000, 1, FEE_03),
        Err(ContractError::ArithmeticOverflow)
    );
}
