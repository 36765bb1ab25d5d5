use amm::constants::{DEFAULT_FEE_RATE_RAW, FEE_DENOMINATOR, DEFAULT_FEE_BPS, MAX_AMPLIFICATION};
use amm::error::AmmError;
use amm::fixed_point::FixedPoint;
use amm::stable_swap::{compute_balancing_reserve, compute_invariant, compute_swap_output, curve_nonnegative};

#[test]
fn fixed_point_from_int_and_fraction() {
    assert_eq!(FixedPoint::from_int(3), Ok(FixedPoint::from_raw(3_000_000_000)));
    assert_eq!(FixedPoint::from_int(u64::MAX), Err(AmmError::Overflow));
    assert_eq!(
        FixedPoint::from_fraction(DEFAULT_FEE_BPS, FEE_DENOMINATOR),
        Ok(FixedPoint::from_raw(DEFAULT_FEE_RATE_RAW))
    );
    assert_eq!(DEFAULT_FEE_RATE_RAW, 3_000_000);
    assert_eq!(FixedPoint::from_fraction(1, 3), Ok(FixedPoint::from_raw(333_333_333)));
    assert_eq!(FixedPoint::from_fraction(1, 0), Err(AmmError::Overflow));
}

#[test]
fn fixed_point_add_and_sub_are_checked() {
    let one = FixedPoint::one();
    let half = FixedPoint::from_raw(500_000_000);
    assert_eq!(one.checked_add(half), Ok(FixedPoint::from_raw(1_500_000_000)));
    assert_eq!(FixedPoint::from_raw(u64::MAX).checked_add(FixedPoint::from_raw(1)), Err(AmmError::Overflow));
    assert_eq!(one.checked_sub(half), Ok(half));
    assert_eq!(half.checked_sub(one), Err(AmmError::Underflow));
    assert_eq!(FixedPoint::zero().checked_sub(FixedPoint::zero()), Ok(FixedPoint::zero()));
}

#[test]
fn fixed_point_mul_and_div_round_toward_zero() {
    let one_and_half = FixedPoint::from_raw(1_500_000_000);
    let two = FixedPoint::from_raw(2_000_000_000);
    assert_eq!(one_and_half.checked_mul(two), Ok(FixedPoint::from_raw(3_000_000_000)));
    // 0.000000001 * 0.5 is below the smallest unit.
    assert_eq!(FixedPoint::from_raw(1).checked_mul(FixedPoint::from_raw(500_000_000)), Ok(FixedPoint::zero()));
    // The intermediate exceeds 64 bits but the result fits.
    let big = FixedPoint::from_raw(10_000_000_000_000_000_000);
    assert_eq!(big.checked_mul(FixedPoint::from_raw(1_000_000_000)), Ok(big));
    assert_eq!(big.checked_mul(two), Err(AmmError::Overflow));
    assert_eq!(FixedPoint::one().checked_div(FixedPoint::from_raw(3_000_000_000)), Ok(FixedPoint::from_raw(333_333_333)));
    assert_eq!(FixedPoint::one().checked_div(FixedPoint::zero()), Err(AmmError::Overflow));
    assert_eq!(big.checked_div(FixedPoint::from_raw(1)), Err(AmmError::Overflow));
}

#[test]
fn fixed_point_scales_integers_and_compares() {
    let fee = FixedPoint::from_raw(3_000_000);
    assert_eq!(fee.mul_int_floor(1000), Ok(3));
    assert_eq!(fee.mul_int_floor(100), Ok(0));
    assert_eq!(FixedPoint::from_raw(u64::MAX).mul_int_floor(u64::MAX), Err(AmmError::Overflow));
    assert!(fee.less_than(FixedPoint::one()));
    assert!(!FixedPoint::one().less_than(fee));
    assert!(fee.less_or_equal(fee));
    assert!(!fee.less_than(fee));
}

#[test]
fn invariant_of_balanced_reserves_is_their_sum() {
    assert_eq!(compute_invariant(1_000_000, 1_000_000, 100), Ok(2_000_000));
    assert_eq!(compute_invariant(1, 1, 1), Ok(2));
}

#[test]
fn invariant_of_imbalanced_reserves() {
    assert_eq!(compute_invariant(1_000_000, 1_000, 100), Ok(744_719));
    assert_eq!(compute_invariant(5, 1000, 1), Ok(385));
    // The invariant does not depend on the order of the reserves.
    assert_eq!(compute_invariant(1_000, 1_000_000, 100), Ok(744_719));
}

#[test]
fn curve_sign_around_the_invariant() {
    assert_eq!(curve_nonnegative(1_000_000, 1_000, 100, 744_719), Ok(true));
    assert_eq!(curve_nonnegative(1_000_000, 1_000, 100, 744_720), Ok(false));
    assert_eq!(curve_nonnegative(1_000_000, 1_000, 100, 0), Ok(true));
}

#[test]
fn balancing_reserve_of_unchanged_pool() {
    assert_eq!(compute_balancing_reserve(1_000_000, 100, 2_000_000), Ok(1_000_000));
}

#[test]
fn swap_output_without_fee() {
    assert_eq!(compute_swap_output(1_000_000, 1_000_000, 997, 100), Ok(996));
    assert_eq!(compute_swap_output(1_000_000, 1_000_000, 1000, 100), Ok(999));
}

#[test]
fn swap_output_of_nothing_is_degenerate() {
    assert_eq!(compute_swap_output(1_000_000, 1_000_000, 0, 100), Err(AmmError::DegenerateSwap));
}

#[test]
fn solvers_converge_across_reserve_grid() {
    let reserves: [u64; 9] = [
        1,
        7,
        1_000,
        1_000_000,
        1_000_000_000,
        1_000_000_000_000,
        1_000_000_000_000_000,
        4_611_686_018_427_387_904,
        9_223_372_036_854_775_807,
    ];
    let amps: [u64; 5] = [1, 10, 100, 1_000, MAX_AMPLIFICATION];
    for &x in reserves.iter() {
        for &y in reserves.iter() {
            for &a in amps.iter() {
                let d = compute_invariant(x, y, a);
                assert!(d.is_ok(), "invariant of {} {} {}: {:?}", x, y, a, d);
                let d = d.unwrap();
                assert!(d <= (x as u128) + (y as u128));
                let r = compute_swap_output(x, y, x / 2 + 1, a);
                assert!(
                    r.is_ok() || r == Err(AmmError::DegenerateSwap),
                    "swap output of {} {} {}: {:?}",
                    x,
                    y,
                    a,
                    r
                );
            }
        }
    }
}

#[test]
fn invariant_at_the_largest_reserves() {
    let top: u64 = 9_223_372_036_854_775_807;
    assert_eq!(compute_invariant(top, top, MAX_AMPLIFICATION), Ok(18_446_744_073_709_551_614));
    assert_eq!(compute_invariant(1, top, 1), Ok(11_082_379_426_491));
    assert_eq!(compute_invariant(top, 1, 1), Ok(11_082_379_426_491));
    assert_eq!(compute_invariant(1, top, MAX_AMPLIFICATION), Ok(1_108_193_888_611_901));
}

fn next_sample(state: &mut u64) -> u64 {
    *state = state.wrapping_mul(6_364_136_223_846_793_005).wrapping_add(1_442_695_040_888_963_407);
    *state
}

#[test]
fn solvers_converge_on_sampled_reserves() {
    let mut state: u64 = 42;
    for _ in 0..400 {
        let x = (next_sample(&mut state) >> (next_sample(&mut state) % 63 + 1)).max(1);
        let y = (next_sample(&mut state) >> (next_sample(&mut state) % 63 + 1)).max(1);
        let a = next_sample(&mut state) % MAX_AMPLIFICATION + 1;
        let d = compute_invariant(x, y, a);
        assert!(d.is_ok(), "invariant of {} {} {}: {:?}", x, y, a, d);
        let room = (1u64 << 63) - 1 - x;
        let amount = if room == 0 { 0 } else { next_sample(&mut state) % room };
        let r = compute_swap_output(x, y, amount, a);
        assert!(r.is_ok() || r == Err(AmmError::DegenerateSwap), "swap output of {} {} {} {}: {:?}", x, y, a, amount, r);
        if let Ok(out) = r {
            assert!(out < y);
        }
    }
}

#[test]
fn balancing_reserve_beyond_the_64_bit_range_is_not_found() {
    assert_eq!(compute_balancing_reserve(1, 1, 1u128 << 63), Err(AmmError::ConvergenceFailure));
}
