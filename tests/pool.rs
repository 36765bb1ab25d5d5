use amm::constants::DEFAULT_FEE_RATE_RAW;
use amm::error::AmmError;
use amm::fixed_point::FixedPoint;
use amm::instructions::{initialize_pool, initialize_pool_with_fee, swap};
use amm::stable_swap::{compute_invariant, compute_swap_output};
use amm::state::{PoolState, SwapDirection};

const AUTHORITY: [u8; 32] = [7u8; 32];

fn pool_with(a: u64, b: u64, amp: u64) -> PoolState {
    let mut pool = PoolState::empty();
    assert_eq!(initialize_pool(&mut pool, AUTHORITY, a, b, amp), Ok(()));
    pool
}

#[test]
fn initialize_sets_every_field() {
    let pool = pool_with(1_000_000, 1_000_000, 100);
    assert!(pool.is_initialized);
    assert_eq!(pool.reserve_a, 1_000_000);
    assert_eq!(pool.reserve_b, 1_000_000);
    assert_eq!(pool.amplification, 100);
    assert_eq!(pool.lp_supply, 2_000_000);
    assert_eq!(pool.fee_rate, FixedPoint::from_raw(DEFAULT_FEE_RATE_RAW));
    assert_eq!(pool.authority, AUTHORITY);
}

#[test]
fn initialize_rejects_zero_amount() {
    let mut pool = PoolState::empty();
    assert_eq!(initialize_pool(&mut pool, AUTHORITY, 0, 100, 100), Err(AmmError::InvalidAmount));
    assert_eq!(initialize_pool(&mut pool, AUTHORITY, 100, 0, 100), Err(AmmError::InvalidAmount));
    assert_eq!(pool, PoolState::empty());
}

#[test]
fn initialize_rejects_amplification_out_of_range() {
    let mut pool = PoolState::empty();
    assert_eq!(initialize_pool(&mut pool, AUTHORITY, 100, 100, 0), Err(AmmError::InvalidAmplification));
    assert_eq!(initialize_pool(&mut pool, AUTHORITY, 100, 100, 1_000_001), Err(AmmError::InvalidAmplification));
    assert_eq!(pool, PoolState::empty());
}

#[test]
fn initialize_rejects_second_initialization() {
    let mut pool = pool_with(100, 100, 10);
    let before = pool;
    assert_eq!(initialize_pool(&mut pool, AUTHORITY, 5, 5, 10), Err(AmmError::AlreadyInitialized));
    assert_eq!(pool, before);
}

#[test]
fn swap_near_parity_succeeds_within_slippage() {
    let mut pool = pool_with(1_000_000, 1_000_000, 100);
    let out = swap(&mut pool, 1000, 990, SwapDirection::AToB).unwrap();
    assert!(out >= 990 && out < 1000);
    assert_eq!(out, 996);
    assert_eq!(pool.reserve_a, 1_001_000);
    assert_eq!(pool.reserve_b, 1_000_000 - out);
}

#[test]
fn swap_below_minimum_fails_and_keeps_reserves() {
    let mut pool = pool_with(1_000_000, 1_000_000, 100);
    let before = pool;
    assert_eq!(swap(&mut pool, 1000, 1000, SwapDirection::AToB), Err(AmmError::SlippageExceeded));
    assert_eq!(pool.reserve_a, 1_000_000);
    assert_eq!(pool.reserve_b, 1_000_000);
    assert_eq!(pool, before);
}

#[test]
fn swap_of_zero_is_invalid_and_changes_nothing() {
    for &(a, b) in [(1_000_000u64, 1_000_000u64), (5, 1000), (1, 1)].iter() {
        let mut pool = pool_with(a, b, 50);
        let before = pool;
        assert_eq!(swap(&mut pool, 0, 0, SwapDirection::AToB), Err(AmmError::InvalidAmount));
        assert_eq!(swap(&mut pool, 0, 0, SwapDirection::BToA), Err(AmmError::InvalidAmount));
        assert_eq!(pool, before);
    }
}

#[test]
fn swap_too_small_to_buy_anything_is_degenerate() {
    let mut pool = pool_with(1_000_000, 1_000_000, 100);
    let before = pool;
    assert_eq!(swap(&mut pool, 1, 0, SwapDirection::AToB), Err(AmmError::DegenerateSwap));
    assert_eq!(pool, before);
}

#[test]
fn swap_overflowing_the_input_reserve_fails() {
    let mut pool = pool_with(1_000_000, 1_000_000, 100);
    let before = pool;
    assert_eq!(swap(&mut pool, u64::MAX, 0, SwapDirection::BToA), Err(AmmError::Overflow));
    assert_eq!(pool, before);
}

#[test]
fn swap_moves_tokens_by_input_minus_output() {
    let mut pool = pool_with(3_000_000, 2_000_000, 200);
    let sum_before = pool.reserve_a + pool.reserve_b;
    let out = swap(&mut pool, 50_000, 0, SwapDirection::BToA).unwrap();
    assert_eq!(pool.reserve_a + pool.reserve_b, sum_before + 50_000 - out);
    assert_eq!(pool.reserve_b, 2_050_000);
    assert_eq!(pool.reserve_a, 3_000_000 - out);
    assert_eq!(pool.lp_supply, compute_invariant(3_000_000, 2_000_000, 200).unwrap() as u64);
}

#[test]
fn swap_never_lowers_the_invariant() {
    let mut pool = pool_with(1_000_000, 400_000, 20);
    for i in 0..20u64 {
        let d_before = compute_invariant(pool.reserve_a, pool.reserve_b, pool.amplification).unwrap();
        let direction = if i % 3 == 0 { SwapDirection::BToA } else { SwapDirection::AToB };
        swap(&mut pool, 10_000 + i * 777, 0, direction).unwrap();
        let d_after = compute_invariant(pool.reserve_a, pool.reserve_b, pool.amplification).unwrap();
        assert!(d_after >= d_before);
    }
}

#[test]
fn fee_lowers_output_against_fee_free_trade() {
    let mut pool = pool_with(1_000_000, 1_000_000, 100);
    let fee_free = compute_swap_output(1_000_000, 1_000_000, 1000, 100).unwrap();
    let out = swap(&mut pool, 1000, 0, SwapDirection::AToB).unwrap();
    assert!(out < fee_free);
    assert!(out < 1000);

    let mut free_pool = PoolState::empty();
    initialize_pool_with_fee(&mut free_pool, AUTHORITY, 1_000_000, 1_000_000, 100, FixedPoint::zero()).unwrap();
    assert_eq!(swap(&mut free_pool, 1000, 0, SwapDirection::AToB), Ok(fee_free));
}

#[test]
fn round_trip_loses_to_the_fee() {
    let mut pool = pool_with(1_000_000, 1_000_000, 100);
    let got_b = swap(&mut pool, 1000, 0, SwapDirection::AToB).unwrap();
    let got_a = swap(&mut pool, got_b, 0, SwapDirection::BToA).unwrap();
    assert!(got_a < 1000);
    assert_eq!(got_a, 993);
}

#[test]
fn fee_makes_the_invariant_grow() {
    let mut pool = pool_with(1_000_000, 1_000_000, 100);
    swap(&mut pool, 1000, 0, SwapDirection::AToB).unwrap();
    assert_eq!(compute_invariant(pool.reserve_a, pool.reserve_b, pool.amplification), Ok(2_000_003));
}

#[test]
fn swap_in_a_pool_of_the_largest_reserves() {
    let top: u64 = 9_223_372_036_854_775_807;
    let mut pool = pool_with(top, top / 3, 1_000);
    let out = swap(&mut pool, 1_000_000_000_000, 0, SwapDirection::AToB).unwrap();
    assert_eq!(out, 996_115_178_282);
    assert_eq!(pool.reserve_a, top + 1_000_000_000_000);
    assert_eq!(pool.reserve_b, top / 3 - out);
    assert_eq!(pool.lp_supply, 12_296_805_331_310_928_620);
}
