use psm_curve::curve::calculator::{
    RoundDirection, SwapWithoutFeesResult, TradeDirection, TradingTokenResult,
};
use psm_curve::curve::redemption_rate::{
    trading_tokens_to_pool_tokens, RedemptionRateCurve, REDEMPTION_RATE_CURVE_LEN,
};
use psm_curve::error::{ProgramError, SwapError};
use psm_curve::wide::Wide;
use spl_math::uint::U256;

const RAY: u128 = 10u128.pow(27);
const FIVE_PCT_APY_SSR: u128 = 1_000_000_001_547_125_957_863_212_448;
const SECONDS_PER_YEAR: u128 = 365 * 24 * 60 * 60;

fn create_test_curve(ssr: u128, rho: u128, chi: u128, max_ssr: u128) -> RedemptionRateCurve {
    RedemptionRateCurve { ray: RAY, max_ssr, ssr, rho, chi }
}

#[test]
fn redemption_rate_swap_calculation_no_price() {
    let swap_source_amount: u128 = 0;
    let swap_destination_amount: u128 = 0;
    let source_amount: u128 = 100;

    let curve = create_test_curve(RAY, 0, RAY, 0);

    let expected_result = SwapWithoutFeesResult {
        source_amount_swapped: source_amount,
        destination_amount_swapped: source_amount,
    };

    let result = curve
        .swap_without_fees(
            source_amount,
            swap_source_amount,
            swap_destination_amount,
            TradeDirection::AtoB,
            Some(0),
        )
        .unwrap();
    assert_eq!(result, expected_result);

    let result = curve
        .swap_without_fees(
            source_amount,
            swap_source_amount,
            swap_destination_amount,
            TradeDirection::BtoA,
            Some(0),
        )
        .unwrap();
    assert_eq!(result, expected_result);
}

#[test]
fn redemption_rate_pack_flat_curve() {
    let ssr = RAY;
    let rho = 0;
    let chi = RAY;

    let curve = create_test_curve(ssr, rho, chi, 0);

    let mut packed = [0u8; REDEMPTION_RATE_CURVE_LEN];
    curve.pack_into_slice(&mut packed[..]);
    let unpacked = RedemptionRateCurve::unpack(&packed).unwrap();
    assert_eq!(curve, unpacked);

    let mut packed = vec![];
    packed.extend_from_slice(&RAY.to_le_bytes());
    packed.extend_from_slice(&0u128.to_le_bytes());
    packed.extend_from_slice(&ssr.to_le_bytes());
    packed.extend_from_slice(&rho.to_le_bytes());
    packed.extend_from_slice(&chi.to_le_bytes());
    let unpacked = RedemptionRateCurve::unpack(&packed).unwrap();
    assert_eq!(curve, unpacked);
}

#[test]
fn redemption_rate_swap_calculation_large_price() {
    let token_b_price = 1_123_513u128;
    let token_b_amount = 500u128;
    let token_a_amount = token_b_amount * token_b_price;

    let chi = token_b_price * RAY;
    let ssr = RAY; // fixed 1.0 rate
    let rho = 0;

    let curve = create_test_curve(ssr, rho, chi, 0);

    // price too low
    let bad_result = curve.swap_without_fees(
        token_b_price - 1,
        token_a_amount,
        token_b_amount,
        TradeDirection::AtoB,
        Some(0),
    );
    assert!(bad_result.is_none());

    // source too small
    let bad_result = curve.swap_without_fees(
        1u128,
        token_a_amount,
        token_b_amount,
        TradeDirection::AtoB,
        Some(0),
    );
    assert!(bad_result.is_none());

    //exact match
    let result = curve
        .swap_without_fees(
            token_b_price,
            token_a_amount,
            token_b_amount,
            TradeDirection::AtoB,
            Some(0),
        )
        .unwrap();

    assert_eq!(result.source_amount_swapped, token_b_price);
    assert_eq!(result.destination_amount_swapped, 1u128);
}

#[test]
fn redemption_rate_swap_calculation_max_min() {
    // u64::MAX * RAY wont fit in u128
    let token_b_price = u32::MAX as u128 * RAY;
    let token_b_amount = 1u128;
    let token_a_amount = token_b_price;

    let curve = create_test_curve(1, 0, token_b_price, 0);

    // fails because the source_amount is not enough
    let bad_result = curve.swap_without_fees(
        1,
        token_a_amount,
        token_b_amount,
        TradeDirection::AtoB,
        Some(0),
    );
    assert!(bad_result.is_none());

    let bad_result = curve.swap_without_fees(
        0u128,
        token_a_amount,
        token_b_amount,
        TradeDirection::AtoB,
        Some(0),
    );
    assert!(bad_result.is_none());

    let result = curve
        .swap_without_fees(
            token_b_price,
            token_a_amount,
            token_b_amount,
            TradeDirection::AtoB,
            Some(0),
        )
        .unwrap();
    println!("result: {:?}", result);
    assert_eq!(result.source_amount_swapped, token_b_price);
    assert_eq!(result.destination_amount_swapped / RAY, 1u128);
}

#[test]
fn test_susds_usds_precision_slippage_scaled() {
    let chi = 1_048_600_000_000_000_000_000_000_000u128;
    let curve = create_test_curve(RAY, 0, chi, 0);
    let unit = 1_000_000u128;
    for multiplier in [1u64, 2, 3, 7, 10, 999, 12_345, 1_000_000, 54_321_987, 99_999_999] {
        let source_amount = unit * multiplier as u128;
        let expected_destination = source_amount
            .checked_mul(1_048_600u128)
            .unwrap()
            .checked_div(1_000_000u128)
            .unwrap();
        let swap_token_b_amount = 1_000_000_000_000u128;
        let swap_token_a_amount = (U256::from(swap_token_b_amount)
            .checked_mul(U256::from(chi))
            .unwrap()
            .checked_div(U256::from(RAY))
            .unwrap())
        .as_u128();
        let result = curve
            .swap_without_fees(
                source_amount,
                swap_token_b_amount,
                swap_token_a_amount,
                TradeDirection::BtoA,
                Some(0),
            )
            .unwrap();
        assert_eq!(result.source_amount_swapped, source_amount);
        assert_eq!(result.destination_amount_swapped, expected_destination);
    }
}

#[test]
fn test_usds_susds_precision_slippage_scaled() {
    let chi = 1_048_600_000_000_000_000_000_000_000u128;
    let curve = create_test_curve(RAY, 0, chi, 0);
    let unit = 1_000_000u128;
    for multiplier in [1u64, 2, 3, 7, 10, 999, 12_345, 1_000_000, 54_321_987, 99_999_999] {
        let source_amount = unit * multiplier as u128;
        let expected_destination = (U256::from(source_amount)
            .checked_mul(U256::from(RAY))
            .unwrap()
            .checked_div(U256::from(chi))
            .unwrap())
        .as_u128();
        let swap_token_a_amount = 1_000_000_000_000u128;
        let swap_token_b_amount = (U256::from(swap_token_a_amount)
            .checked_mul(U256::from(RAY))
            .unwrap()
            .checked_div(U256::from(chi))
            .unwrap())
        .as_u128();
        let result = curve
            .swap_without_fees(
                source_amount,
                swap_token_a_amount,
                swap_token_b_amount,
                TradeDirection::AtoB,
                Some(0),
            )
            .unwrap();
        let actual = result.destination_amount_swapped;
        let diff = if actual > expected_destination {
            actual - expected_destination
        } else {
            expected_destination - actual
        };
        assert!(
            diff <= 1,
            "slippage too high: got {}, expected {}, diff {}",
            actual,
            expected_destination,
            diff
        );
        // what is taken is what the paid tokens cost, rounded up, and no more than offered
        assert!(result.source_amount_swapped <= source_amount);
        let cost = U256::from(actual) * U256::from(chi);
        let rounded_up = (cost + U256::from(RAY - 1)) / U256::from(RAY);
        assert_eq!(U256::from(result.source_amount_swapped), rounded_up);
    }
}

#[test]
fn swap_needs_a_timestamp() {
    let curve = create_test_curve(RAY, 0, RAY, 0);
    assert!(curve.swap_without_fees(100, 0, 0, TradeDirection::AtoB, None).is_none());
    assert!(curve.swap_without_fees(100, 0, 0, TradeDirection::BtoA, None).is_none());
    assert!(curve.normalized_value(1, 1, None).is_none());
    assert!(curve
        .pool_tokens_to_trading_tokens(1, 1, 1, 1, RoundDirection::Floor, None)
        .is_none());
    assert!(curve.deposit_single_token_type(1, 1, 1, 1, TradeDirection::AtoB, None).is_none());
    assert!(curve
        .withdraw_single_token_type_exact_out(
            1,
            1,
            1,
            1,
            TradeDirection::AtoB,
            RoundDirection::Ceiling,
            None
        )
        .is_none());
}

#[test]
fn swap_before_the_checkpoint_fails() {
    let curve = create_test_curve(RAY, 100, RAY, 0);
    assert!(curve.swap_without_fees(100, 0, 0, TradeDirection::AtoB, Some(99)).is_none());
    assert!(curve.swap_without_fees(100, 0, 0, TradeDirection::AtoB, Some(100)).is_some());
}

#[test]
fn swap_a_to_b_rounds_the_cost_up() {
    // one token B costs 0.6 of token A: one token A buys one token B, whose
    // cost of 0.6 is rounded up to one
    let curve = create_test_curve(RAY, 0, RAY / 10 * 6, 0);
    assert_eq!(
        curve.swap_without_fees(1, 0, 0, TradeDirection::AtoB, Some(0)),
        Some(SwapWithoutFeesResult { source_amount_swapped: 1, destination_amount_swapped: 1 })
    );
    // three of A buy five of B, which cost exactly three
    assert_eq!(
        curve.swap_without_fees(3, 0, 0, TradeDirection::AtoB, Some(0)),
        Some(SwapWithoutFeesResult { source_amount_swapped: 3, destination_amount_swapped: 5 })
    );
    // two of A buy three of B, which cost 1.8, rounded up to two
    assert_eq!(
        curve.swap_without_fees(2, 0, 0, TradeDirection::AtoB, Some(0)),
        Some(SwapWithoutFeesResult { source_amount_swapped: 2, destination_amount_swapped: 3 })
    );
}

#[test]
fn swap_b_to_a_that_pays_nothing_fails() {
    let curve = create_test_curve(RAY, 0, RAY / 2, 0);
    assert!(curve.swap_without_fees(1, 0, 0, TradeDirection::BtoA, Some(0)).is_none());
    assert_eq!(
        curve.swap_without_fees(2, 0, 0, TradeDirection::BtoA, Some(0)),
        Some(SwapWithoutFeesResult { source_amount_swapped: 2, destination_amount_swapped: 1 })
    );
    assert!(curve.swap_without_fees(0, 0, 0, TradeDirection::BtoA, Some(0)).is_none());
}

#[test]
fn swap_that_pays_more_than_128_bits_fails() {
    let curve = create_test_curve(RAY, 0, 2 * RAY, 0);
    assert!(curve.swap_without_fees(u128::MAX, 0, 0, TradeDirection::BtoA, Some(0)).is_none());
    assert_eq!(
        curve.swap_without_fees(u128::MAX / 2, 0, 0, TradeDirection::BtoA, Some(0)),
        Some(SwapWithoutFeesResult {
            source_amount_swapped: u128::MAX / 2,
            destination_amount_swapped: u128::MAX - 1
        })
    );
}

#[test]
fn conversion_rate_follows_the_elapsed_time() {
    let curve = create_test_curve(2 * RAY, 10, 3 * RAY, 0);
    assert_eq!(curve.get_conversion_rate(10), Some(Wide::from_u128(3 * RAY)));
    assert_eq!(curve.get_conversion_rate(9), None);
    assert_eq!(curve.get_conversion_rate(11), Some(Wide::from_u128(6 * RAY)));
    assert_eq!(curve.get_conversion_rate(13), Some(Wide::from_u128(24 * RAY)));

    let yearly = create_test_curve(FIVE_PCT_APY_SSR, 0, RAY, 0);
    let rate = yearly.get_conversion_rate(SECONDS_PER_YEAR).unwrap().to_u128().unwrap();
    let target = RAY + RAY / 20;
    let diff = if rate > target { rate - target } else { target - rate };
    assert!(diff <= 100_000_000_000u128);
}

#[test]
fn conversion_rate_fails_on_overflow_and_zero_scale() {
    let tall = create_test_curve(u128::MAX, 0, RAY, 0);
    assert_eq!(tall.get_conversion_rate(4), None);
    let unscaled = RedemptionRateCurve { ray: 0, max_ssr: 0, ssr: 5, rho: 0, chi: 7 };
    assert_eq!(unscaled.get_conversion_rate(0), Some(Wide::from_u128(7)));
    assert_eq!(unscaled.get_conversion_rate(1), None);
}

#[test]
fn normalized_value_is_half_the_worth_in_token_a() {
    let curve = create_test_curve(RAY, 0, 3 * RAY, 0);
    // (10 + 4 * 3) / 2
    assert_eq!(curve.normalized_value(10, 4, Some(0)), Some(11));
    // (11 + 4 * 3) / 2, rounded down
    assert_eq!(curve.normalized_value(11, 4, Some(0)), Some(11));
    assert_eq!(curve.normalized_value(0, 0, Some(0)), Some(0));
    // near the top of 128 bits the sum is still halved without loss
    let flat = create_test_curve(RAY, 0, RAY, 0);
    assert_eq!(flat.normalized_value(u128::MAX, u128::MAX, Some(0)), Some(u128::MAX));
    assert_eq!(flat.normalized_value(u128::MAX, u128::MAX - 1, Some(0)), Some(u128::MAX - 1));
    // a value that needs more than 128 bits is refused
    assert_eq!(curve.normalized_value(u128::MAX, u128::MAX, Some(0)), None);
}

#[test]
fn pool_tokens_to_trading_tokens_rounds_as_asked() {
    let curve = create_test_curve(RAY, 0, 2 * RAY, 0);
    // total value (100 + 50 * 2) / 2 = 100; a tenth of the supply
    assert_eq!(
        curve.pool_tokens_to_trading_tokens(10, 100, 100, 50, RoundDirection::Floor, Some(0)),
        Some(TradingTokenResult { token_a_amount: 10, token_b_amount: 5 })
    );
    assert_eq!(
        curve.pool_tokens_to_trading_tokens(10, 100, 100, 50, RoundDirection::Ceiling, Some(0)),
        Some(TradingTokenResult { token_a_amount: 10, token_b_amount: 5 })
    );
    // a third of the supply: 100 / 3 and 50 / 3
    assert_eq!(
        curve.pool_tokens_to_trading_tokens(1, 3, 100, 50, RoundDirection::Floor, Some(0)),
        Some(TradingTokenResult { token_a_amount: 33, token_b_amount: 16 })
    );
    assert_eq!(
        curve.pool_tokens_to_trading_tokens(1, 3, 100, 50, RoundDirection::Ceiling, Some(0)),
        Some(TradingTokenResult { token_a_amount: 34, token_b_amount: 17 })
    );
    // rounding down never hands out more than a reserve
    assert_eq!(
        curve.pool_tokens_to_trading_tokens(300, 100, 100, 50, RoundDirection::Floor, Some(0)),
        Some(TradingTokenResult { token_a_amount: 100, token_b_amount: 50 })
    );
    assert_eq!(
        curve.pool_tokens_to_trading_tokens(300, 100, 100, 50, RoundDirection::Ceiling, Some(0)),
        Some(TradingTokenResult { token_a_amount: 300, token_b_amount: 150 })
    );
    // no supply, no answer
    assert_eq!(
        curve.pool_tokens_to_trading_tokens(1, 0, 100, 50, RoundDirection::Floor, Some(0)),
        None
    );
    // rounded up, a share below one unit is one unit, and a share of nothing is nothing
    assert_eq!(
        curve.pool_tokens_to_trading_tokens(1, 1000, 100, 50, RoundDirection::Ceiling, Some(0)),
        Some(TradingTokenResult { token_a_amount: 1, token_b_amount: 1 })
    );
    assert_eq!(
        curve.pool_tokens_to_trading_tokens(0, 100, 100, 50, RoundDirection::Ceiling, Some(0)),
        Some(TradingTokenResult { token_a_amount: 0, token_b_amount: 0 })
    );
    assert_eq!(
        curve.pool_tokens_to_trading_tokens(1, 0, 100, 50, RoundDirection::Ceiling, Some(0)),
        None
    );
    assert_eq!(
        curve.pool_tokens_to_trading_tokens(0, 100, 100, 50, RoundDirection::Floor, Some(0)),
        Some(TradingTokenResult { token_a_amount: 0, token_b_amount: 0 })
    );
}

#[test]
fn single_sided_conversions_follow_the_formula() {
    let curve = create_test_curve(RAY, 0, 2 * RAY, 0);
    // total worth 100 + 50 * 2 = 200, supply 1000
    assert_eq!(
        curve.deposit_single_token_type(10, 100, 50, 1000, TradeDirection::AtoB, Some(0)),
        Some(50)
    );
    assert_eq!(
        curve.deposit_single_token_type(10, 100, 50, 1000, TradeDirection::BtoA, Some(0)),
        Some(100)
    );
    // 1000 * 7 / 201 = 34.8
    assert_eq!(
        curve.deposit_single_token_type(7, 101, 50, 1000, TradeDirection::AtoB, Some(0)),
        Some(34)
    );
    assert_eq!(
        curve.withdraw_single_token_type_exact_out(
            7,
            101,
            50,
            1000,
            TradeDirection::AtoB,
            RoundDirection::Ceiling,
            Some(0)
        ),
        Some(35)
    );
    assert_eq!(
        curve.withdraw_single_token_type_exact_out(
            7,
            101,
            50,
            1000,
            TradeDirection::AtoB,
            RoundDirection::Floor,
            Some(0)
        ),
        Some(34)
    );
    // an empty pool has no worth to divide by
    assert_eq!(
        curve.deposit_single_token_type(7, 0, 0, 1000, TradeDirection::AtoB, Some(0)),
        None
    );
    assert_eq!(
        trading_tokens_to_pool_tokens(
            Wide::from_u128(2 * RAY),
            Wide::from_u128(RAY),
            10,
            100,
            50,
            1000,
            TradeDirection::BtoA,
            RoundDirection::Floor
        ),
        Some(100)
    );
}

#[test]
fn validate_names_each_failure() {
    let curve = create_test_curve(RAY, 10, RAY, 0);
    assert_eq!(curve.validate(None), Err(SwapError::MissingTimestamp));
    assert_eq!(curve.validate(Some(9)), Err(SwapError::CalculationFailure));
    assert_eq!(curve.validate(Some(10)), Ok(()));
    assert_eq!(curve.validate(Some(11)), Ok(()));
    let worthless = create_test_curve(RAY, 10, 0, 0);
    assert_eq!(worthless.validate(Some(10)), Err(SwapError::InvalidCurve));
    assert_eq!(worthless.validate(Some(12)), Err(SwapError::InvalidCurve));
    assert_eq!(curve.validate_supply(0, 5), Err(SwapError::EmptySupply));
    assert_eq!(curve.validate_supply(1, 0), Ok(()));
    assert!(curve.is_initialized());
}

#[test]
fn pack_writes_the_fields_in_order_and_nothing_else() {
    let curve = RedemptionRateCurve { ray: 1, max_ssr: 2, ssr: 3, rho: 4, chi: u128::MAX };
    let mut packed = [0xeeu8; 90];
    curve.pack_into_slice(&mut packed[..]);
    for (i, field) in [1u128, 2, 3, 4, u128::MAX].iter().enumerate() {
        assert_eq!(packed[16 * i..16 * i + 16], field.to_le_bytes());
    }
    assert_eq!(packed[80..], [0xeeu8; 10]);
    assert_eq!(RedemptionRateCurve::unpack_from_slice(&packed), Ok(curve));
    assert_eq!(RedemptionRateCurve::unpack(&packed), Err(ProgramError::InvalidAccountData));
    assert_eq!(RedemptionRateCurve::unpack(&packed[..79]), Err(ProgramError::InvalidAccountData));
    assert_eq!(RedemptionRateCurve::unpack(&packed[..80]), Ok(curve));
}
