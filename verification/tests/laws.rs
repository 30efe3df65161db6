use psm_curve::curve::calculator::{RoundDirection, SwapWithoutFeesResult, TradeDirection};
use psm_curve::curve::constant_price::ConstantPriceCurve;
use psm_curve::curve::redemption_rate::{RedemptionRateCurve, RAY};
use spl_math::uint::U256;

fn keeps_value(after: u128, before: u128, supply_before: u128, supply_after: u128, slack: u128) -> bool {
    (U256::from(after) + U256::from(slack)) * U256::from(supply_before)
        >= U256::from(before) * U256::from(supply_after)
}

#[test]
fn flat_curve_swaps_one_for_one() {
    for (reserve_a, reserve_b) in [(1u128, 1u128), (5, 90_000), (u64::MAX as u128, 3)] {
        for rho in [0u128, 17, 1_700_000_000] {
            let curve = RedemptionRateCurve { ray: RAY, max_ssr: 0, ssr: RAY, rho, chi: RAY };
            assert_eq!(
                curve.swap_without_fees(100, reserve_a, reserve_b, TradeDirection::AtoB, Some(rho)),
                Some(SwapWithoutFeesResult {
                    source_amount_swapped: 100,
                    destination_amount_swapped: 100
                })
            );
        }
    }
    // with no growth the time of the call does not matter either
    let curve = RedemptionRateCurve { ray: RAY, max_ssr: 0, ssr: RAY, rho: 5, chi: RAY };
    assert_eq!(
        curve.swap_without_fees(100, 1, 1, TradeDirection::AtoB, Some(5_000_000)),
        Some(SwapWithoutFeesResult { source_amount_swapped: 100, destination_amount_swapped: 100 })
    );
}

#[test]
fn priced_swap_of_b_pays_the_floor() {
    let chi = 1_048_600_000_000_000_000_000_000_000u128;
    let curve = RedemptionRateCurve { ray: RAY, max_ssr: 0, ssr: RAY, rho: 0, chi };
    for source in [1u128, 2, 3, 10, 17, 99, 1_000_003, 123_456_789_012] {
        let paid = curve
            .swap_without_fees(source, 0, 0, TradeDirection::BtoA, Some(0))
            .unwrap()
            .destination_amount_swapped;
        assert_eq!(paid, source * 104_860 / 100_000);
    }
}

#[test]
fn deposit_keeps_value_per_share_within_one_unit() {
    let constant = ConstantPriceCurve { token_b_price: 3 * RAY };
    let rated = RedemptionRateCurve { ray: RAY, max_ssr: 0, ssr: RAY, rho: 0, chi: 3 * RAY };
    for (pool_tokens, supply, a, b) in [
        (2u128, 1_000_000_000u128, 1_000_000_000u128, 1_000_000_000u128),
        (3, 1_000_000_000, 2_000_000_000, 1_000_000_000),
        (1_000, 1_000_000_007, 999_999_937, 7_777_777),
        (123_456_789, 987_654_321, 55_555_555_555, 4_444_444),
    ] {
        let before = constant.normalized_value(a, b, None).unwrap();
        let paid = constant
            .pool_tokens_to_trading_tokens(pool_tokens, supply, a, b, RoundDirection::Ceiling)
            .unwrap();
        let after = constant
            .normalized_value(a + paid.token_a_amount, b + paid.token_b_amount, None)
            .unwrap();
        assert!(keeps_value(after, before, supply, supply + pool_tokens, 1));

        let before = rated.normalized_value(a, b, Some(0)).unwrap();
        let paid = rated
            .pool_tokens_to_trading_tokens(pool_tokens, supply, a, b, RoundDirection::Ceiling, Some(0))
            .unwrap();
        let after = rated
            .normalized_value(a + paid.token_a_amount, b + paid.token_b_amount, Some(0))
            .unwrap();
        assert!(keeps_value(after, before, supply, supply + pool_tokens, 1));
    }
}

#[test]
fn withdrawal_keeps_value_per_share_within_one_unit() {
    let constant = ConstantPriceCurve { token_b_price: 3 * RAY };
    let rated = RedemptionRateCurve { ray: RAY, max_ssr: 0, ssr: RAY, rho: 0, chi: 3 * RAY };
    for (pool_tokens, supply, a, b) in [
        (2u128, 1_000_000_000u128, 1_000_000_000u128, 1_000_000_000u128),
        (1_000, 1_000_000_007, 999_999_937, 77_777),
        (123_456_789, 987_654_321, 55_555_555_555, 4_444_444),
        (987_654_321, 987_654_321, 55_555_555_555, 4_444_444),
    ] {
        let before = constant.normalized_value(a, b, None).unwrap();
        let taken = constant
            .pool_tokens_to_trading_tokens(pool_tokens, supply, a, b, RoundDirection::Floor)
            .unwrap();
        assert!(taken.token_a_amount <= a && taken.token_b_amount <= b);
        let after = constant
            .normalized_value(a - taken.token_a_amount, b - taken.token_b_amount, None)
            .unwrap();
        assert!(keeps_value(after, before, supply, supply - pool_tokens, 1));

        let before = rated.normalized_value(a, b, Some(0)).unwrap();
        let taken = rated
            .pool_tokens_to_trading_tokens(pool_tokens, supply, a, b, RoundDirection::Floor, Some(0))
            .unwrap();
        assert!(taken.token_a_amount <= a && taken.token_b_amount <= b);
        let after = rated
            .normalized_value(a - taken.token_a_amount, b - taken.token_b_amount, Some(0))
            .unwrap();
        assert!(keeps_value(after, before, supply, supply - pool_tokens, 1));
    }
}

#[test]
fn halving_can_cost_the_value_per_share_half_a_unit() {
    // a deposit of three pool tokens into a pool worth three thousand million
    let curve = ConstantPriceCurve { token_b_price: RAY };
    let (pool_tokens, supply, a, b) = (3u128, 1_000_000_000u128, 2_000_000_000u128, 1_000_000_000u128);
    let before = curve.normalized_value(a, b, None).unwrap();
    let paid = curve
        .pool_tokens_to_trading_tokens(pool_tokens, supply, a, b, RoundDirection::Ceiling)
        .unwrap();
    assert_eq!((paid.token_a_amount, paid.token_b_amount), (6, 3));
    let after = curve
        .normalized_value(a + paid.token_a_amount, b + paid.token_b_amount, None)
        .unwrap();
    assert_eq!(before, 1_500_000_000);
    assert_eq!(after, 1_500_000_004);
    assert!(!keeps_value(after, before, supply, supply + pool_tokens, 0));
    assert!(keeps_value(after, before, supply, supply + pool_tokens, 1));
}

#[test]
fn pack_round_trip_on_many_records() {
    for (i, seed) in [0u128, 1, RAY, u128::MAX, 0x0123_4567_89ab_cdef_0011_2233_4455_6677].iter().enumerate() {
        let curve = RedemptionRateCurve {
            ray: *seed,
            max_ssr: seed.wrapping_mul(3),
            ssr: seed.wrapping_add(i as u128),
            rho: seed.rotate_left(17),
            chi: !seed,
        };
        let mut bytes = [0u8; 80];
        curve.pack_into_slice(&mut bytes);
        assert_eq!(RedemptionRateCurve::unpack(&bytes), Ok(curve));
        let price = ConstantPriceCurve { token_b_price: *seed };
        let mut short = [0u8; 16];
        price.pack_into_slice(&mut short);
        assert_eq!(ConstantPriceCurve::unpack(&short), Ok(price));
    }
}
