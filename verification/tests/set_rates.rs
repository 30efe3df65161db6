use psm_curve::curve::redemption_rate::RedemptionRateCurve;
use psm_curve::error::{ProgramError, SwapError};

const RAY: u128 = 10u128.pow(27);
const FIVE_PCT_APY_SSR: u128 = 1_000_000_001_547_125_957_863_212_448;
const ONE_HUNDRED_PCT_APY_SSR: u128 = 1_000_000_021_979_553_151_239_153_020;
const SECONDS_PER_YEAR: u128 = 365 * 24 * 60 * 60;

// Initial timestamp after skipping 1 year
const INITIAL_TIMESTAMP: u128 = SECONDS_PER_YEAR;
// Timestamp after skipping another year
const SECOND_TIMESTAMP: u128 = 2 * SECONDS_PER_YEAR;

fn create_test_curve(ssr: u128, rho: u128, chi: u128, max_ssr: u128) -> RedemptionRateCurve {
    RedemptionRateCurve { ray: RAY, max_ssr, ssr, rho, chi }
}

#[test]
fn test_set_rates_rho_decreasing_boundary() {
    let curve = create_test_curve(0, 0, 0, ONE_HUNDRED_PCT_APY_SSR);

    let curve = curve
        .set_rates(FIVE_PCT_APY_SSR, INITIAL_TIMESTAMP, RAY, INITIAL_TIMESTAMP + 1)
        .unwrap();

    // Should fail when rho decreases
    assert!(curve
        .set_rates(FIVE_PCT_APY_SSR, INITIAL_TIMESTAMP - 1, RAY, INITIAL_TIMESTAMP + 1)
        .is_err());

    // Should succeed when rho stays the same
    curve
        .set_rates(FIVE_PCT_APY_SSR, INITIAL_TIMESTAMP, RAY, INITIAL_TIMESTAMP + 1)
        .unwrap();
}

#[test]
fn test_set_rates_rho_in_future_boundary() {
    let curve = create_test_curve(0, 0, 0, 0);

    // Should fail when rho is in the future
    assert!(curve
        .set_rates(
            FIVE_PCT_APY_SSR,
            INITIAL_TIMESTAMP + 1,
            1_030_000_000_000_000_000_000_000_000,
            INITIAL_TIMESTAMP
        )
        .is_err());

    // Should succeed when rho is current
    curve
        .set_rates(
            FIVE_PCT_APY_SSR,
            INITIAL_TIMESTAMP,
            1_030_000_000_000_000_000_000_000_000,
            INITIAL_TIMESTAMP,
        )
        .unwrap();
}

#[test]
fn test_set_rates_ssr_below_ray_boundary() {
    let curve = create_test_curve(0, 0, 0, 0);

    // Should fail when ssr < RAY
    assert!(curve
        .set_rates(
            RAY - 1,
            INITIAL_TIMESTAMP,
            1_030_000_000_000_000_000_000_000_000,
            INITIAL_TIMESTAMP
        )
        .is_err());

    // Should succeed when ssr == RAY
    curve
        .set_rates(
            RAY,
            INITIAL_TIMESTAMP,
            1_030_000_000_000_000_000_000_000_000,
            INITIAL_TIMESTAMP,
        )
        .unwrap();
}

#[test]
fn test_set_rates_ssr_above_max_boundary() {
    let curve = create_test_curve(0, 0, 0, ONE_HUNDRED_PCT_APY_SSR);

    // Should fail when ssr > max_ssr
    assert!(curve
        .set_rates(
            ONE_HUNDRED_PCT_APY_SSR + 1,
            INITIAL_TIMESTAMP,
            1_030_000_000_000_000_000_000_000_000,
            INITIAL_TIMESTAMP
        )
        .is_err());

    // Should succeed when ssr == max_ssr
    curve
        .set_rates(
            ONE_HUNDRED_PCT_APY_SSR,
            INITIAL_TIMESTAMP,
            1_030_000_000_000_000_000_000_000_000,
            INITIAL_TIMESTAMP,
        )
        .unwrap();
}

#[test]
fn test_set_rates_very_high_ssr_no_max() {
    let curve = create_test_curve(0, 0, 0, 0);

    // Should succeed with very high SSR when no max is set
    curve
        .set_rates(
            2 * RAY,
            INITIAL_TIMESTAMP,
            1_030_000_000_000_000_000_000_000_000,
            INITIAL_TIMESTAMP,
        )
        .unwrap();
}

#[test]
fn test_set_rates_chi_decreasing_boundary() {
    let curve = create_test_curve(0, 0, 0, 0);

    // Initial setup
    let curve = curve
        .set_rates(FIVE_PCT_APY_SSR, INITIAL_TIMESTAMP, RAY, INITIAL_TIMESTAMP)
        .unwrap();

    // Should fail when chi decreases
    assert!(curve
        .set_rates(FIVE_PCT_APY_SSR, SECOND_TIMESTAMP, RAY - 1, SECOND_TIMESTAMP)
        .is_err());

    // Should succeed when chi stays the same
    curve
        .set_rates(FIVE_PCT_APY_SSR, SECOND_TIMESTAMP, RAY, SECOND_TIMESTAMP)
        .unwrap();
}

#[test]
fn test_set_rates_chi_growth_too_fast_boundary() {
    let curve = create_test_curve(0, 0, 0, ONE_HUNDRED_PCT_APY_SSR);

    // Set initial values
    let curve = curve
        .set_rates(FIVE_PCT_APY_SSR, INITIAL_TIMESTAMP, RAY, INITIAL_TIMESTAMP)
        .unwrap();

    // Calculate max chi growth for 1 year at max SSR
    let chi_max = curve._rpow(ONE_HUNDRED_PCT_APY_SSR, SECONDS_PER_YEAR).unwrap();

    let chi_max_u128 = chi_max.to_u128().unwrap();

    // Should fail when chi grows too fast
    assert!(curve
        .set_rates(FIVE_PCT_APY_SSR, SECOND_TIMESTAMP, chi_max_u128 + 1, SECOND_TIMESTAMP)
        .is_err());

    // Should succeed at max allowed chi
    curve
        .set_rates(FIVE_PCT_APY_SSR, SECOND_TIMESTAMP, chi_max_u128, SECOND_TIMESTAMP)
        .unwrap();
}

#[test]
fn test_set_rates_chi_large_growth_no_max_ssr() {
    let curve = create_test_curve(0, 0, 0, 0);

    // Should succeed with large chi growth when no max SSR is set
    curve
        .set_rates(FIVE_PCT_APY_SSR, INITIAL_TIMESTAMP, 100_000 * RAY, INITIAL_TIMESTAMP)
        .unwrap();
}

#[test]
fn set_rates_names_each_violation() {
    let fresh = create_test_curve(RAY, 0, 50, 2 * RAY);
    assert_eq!(
        fresh.set_rates(RAY, 11, RAY, 10),
        Err(ProgramError::Custom(SwapError::InvalidRho))
    );
    assert_eq!(
        fresh.set_rates(RAY - 1, 10, RAY, 10),
        Err(ProgramError::Custom(SwapError::InvalidSsr))
    );
    assert_eq!(
        fresh.set_rates(2 * RAY + 1, 10, RAY, 10),
        Err(ProgramError::Custom(SwapError::InvalidSsr))
    );

    let standing = create_test_curve(RAY, 100, RAY, 2 * RAY);
    assert_eq!(
        standing.set_rates(RAY, 99, RAY, 200),
        Err(ProgramError::Custom(SwapError::InvalidRho))
    );
    assert_eq!(
        standing.set_rates(RAY, 100, RAY - 1, 200),
        Err(ProgramError::Custom(SwapError::InvalidChi))
    );
    // one second at a rate of two doubles the index at most
    assert_eq!(
        standing.set_rates(RAY, 101, 2 * RAY + 1, 200),
        Err(ProgramError::Custom(SwapError::InvalidChi))
    );
    assert_eq!(
        standing.set_rates(RAY, 101, 2 * RAY, 200),
        Ok(RedemptionRateCurve { ray: RAY, max_ssr: 2 * RAY, ssr: RAY, rho: 101, chi: 2 * RAY })
    );
}

#[test]
fn set_rates_reports_a_growth_that_cannot_be_computed() {
    // the cap is so large that its power leaves 256 bits
    let standing = RedemptionRateCurve { ray: RAY, max_ssr: u128::MAX, ssr: RAY, rho: 1, chi: RAY };
    assert_eq!(
        standing.set_rates(RAY, 5, RAY, 10),
        Err(ProgramError::Custom(SwapError::CalculationFailure))
    );
    // the power fits, its product with the index does not
    let tall = RedemptionRateCurve { ray: 1, max_ssr: u128::MAX, ssr: 1, rho: 1, chi: u128::MAX };
    assert_eq!(tall.set_rates(1, 3, u128::MAX, 10), Err(ProgramError::ArithmeticOverflow));
}

#[test]
fn set_rates_first_checkpoint_skips_the_history_checks() {
    // no checkpoint stands: a smaller index and any growth are accepted
    let fresh = create_test_curve(RAY, 0, 5 * RAY, ONE_HUNDRED_PCT_APY_SSR);
    assert_eq!(
        fresh.set_rates(FIVE_PCT_APY_SSR, 7, 4 * RAY, 7),
        Ok(RedemptionRateCurve {
            ray: RAY,
            max_ssr: ONE_HUNDRED_PCT_APY_SSR,
            ssr: FIVE_PCT_APY_SSR,
            rho: 7,
            chi: 4 * RAY
        })
    );
    assert!(fresh.set_rates(FIVE_PCT_APY_SSR, 7, 1_000_000 * RAY, 7).is_ok());
}

#[test]
fn set_rates_keeps_ray_and_cap() {
    let curve = create_test_curve(RAY, 0, RAY, ONE_HUNDRED_PCT_APY_SSR);
    let next = curve.set_rates(FIVE_PCT_APY_SSR, 3, RAY + 1, 3).unwrap();
    assert_eq!(next.ray, RAY);
    assert_eq!(next.max_ssr, ONE_HUNDRED_PCT_APY_SSR);
    assert_eq!(next.ssr, FIVE_PCT_APY_SSR);
    assert_eq!(next.rho, 3);
    assert_eq!(next.chi, RAY + 1);
    // the record that was asked is untouched
    assert_eq!(curve, create_test_curve(RAY, 0, RAY, ONE_HUNDRED_PCT_APY_SSR));
}

#[test]
fn set_rates_under_caps_over_growing_durations() {
    const ONE_PCT_APY_SSR: u128 = 1_000_000_000_314_714_530_356_867_391;
    const FIFTEEN_PCT_APY_SSR: u128 = 1_000_000_004_432_554_513_667_376_032;
    const TWENTY_PCT_APY_SSR: u128 = 1_000_000_005_860_733_888_492_302_697;
    const TWENTY_FIVE_PCT_APY_SSR: u128 = 1_000_000_007_264_617_216_271_247_405;
    let caps = [
        ONE_PCT_APY_SSR,
        FIVE_PCT_APY_SSR,
        FIFTEEN_PCT_APY_SSR,
        TWENTY_PCT_APY_SSR,
        TWENTY_FIVE_PCT_APY_SSR,
        ONE_HUNDRED_PCT_APY_SSR,
    ];
    let durations: [u128; 11] = [
        1,          // 1 second
        10,         // 10 seconds
        60,         // 1 minute
        3600,       // 1 hour
        86400,      // 1 day
        604800,     // 1 week
        2592000,    // 1 month
        15552000,   // 6 months
        31536000,   // 1 year
        315360000,  // 10 years
        3153600000, // 100 years
    ];
    for max_ssr in caps {
        let standing = create_test_curve(RAY, 1_000, RAY, max_ssr);
        for duration in durations {
            let rho = standing.rho + duration;
            let result = standing.set_rates(RAY, rho, RAY, rho);
            if max_ssr == ONE_HUNDRED_PCT_APY_SSR && duration == 3153600000 {
                // a hundred years of doubling leave 256 bits
                assert_eq!(result, Err(ProgramError::Custom(SwapError::CalculationFailure)));
            } else {
                assert_eq!(
                    result,
                    Ok(RedemptionRateCurve { ray: RAY, max_ssr, ssr: RAY, rho, chi: RAY })
                );
            }
        }
    }
    // a year at the cap of 100% a year lets the index double, less the rounding
    let standing = create_test_curve(RAY, 1_000, RAY, ONE_HUNDRED_PCT_APY_SSR);
    let rho = 1_000 + SECONDS_PER_YEAR;
    let cap = 1_999_999_999_999_999_999_505_617_035u128;
    assert!(standing.set_rates(RAY, rho, cap, rho).is_ok());
    assert_eq!(
        standing.set_rates(RAY, rho, cap + 1, rho),
        Err(ProgramError::Custom(SwapError::InvalidChi))
    );
}
