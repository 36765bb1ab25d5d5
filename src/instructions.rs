use vstd::prelude::*;
use crate::constants::{valid_amplification, DEFAULT_FEE_RATE_RAW};
use crate::curve::{is_invariant, is_swap_output, lemma_invariant_at_most_sum};
use crate::error::AmmError;
use crate::fixed_point::{scale, FixedPoint};
use crate::stable_swap::{compute_invariant, compute_swap_output, is_solver_failure};
use crate::state::{PoolState, SwapDirection};

verus! {

/// The part of a swap input that trades once the fee is taken:
/// `amount * (1 - fee_rate)`, rounded toward zero. Rounding the traded part
/// down (and so the fee kept by the pool up) is this library's choice: it
/// keeps every rounding in the pool's favour, and a positive fee rate on a
/// positive input always keeps at least one unit back.
pub open spec fn effective_input(amount: int, fee_rate: FixedPoint) -> int {
    amount * (scale() - fee_rate.raw) / scale()
}

/// Why `initialize_pool` turns its inputs away, checked in this order.
pub open spec fn initialize_rejection(pool: PoolState, amount_a: u64, amount_b: u64, amplification: u64) -> Option<AmmError> {
    if pool.is_initialized {
        Some(AmmError::AlreadyInitialized)
    } else if amount_a == 0 || amount_b == 0 {
        Some(AmmError::InvalidAmount)
    } else if !valid_amplification(amplification) {
        Some(AmmError::InvalidAmplification)
    } else {
        None
    }
}

/// `pool` as a successful initialization leaves it.
pub open spec fn initialized_as(
    pool: PoolState,
    authority: [u8; 32],
    amount_a: u64,
    amount_b: u64,
    amplification: u64,
    fee_rate: FixedPoint,
) -> bool {
    &&& pool.is_initialized
    &&& pool.reserve_a == amount_a
    &&& pool.reserve_b == amount_b
    &&& pool.amplification == amplification
    &&& pool.fee_rate == fee_rate
    &&& pool.authority == authority
    &&& is_invariant(amount_a as int, amount_b as int, amplification as int, pool.lp_supply as int)
}

/// `after` is `before` once `amount_in` has been traded in `direction`
/// for `out`, at least `min_amount_out`.
pub open spec fn swapped(
    before: PoolState,
    after: PoolState,
    amount_in: u64,
    min_amount_out: u64,
    direction: SwapDirection,
    out: u64,
) -> bool {
    &&& 0 < amount_in
    &&& 0 < out
    &&& min_amount_out <= out
    &&& is_swap_output(
        before.reserve_in(direction) as int,
        before.reserve_out(direction) as int,
        effective_input(amount_in as int, before.fee_rate),
        before.amplification as int,
        out as int,
    )
    &&& after.reserve_in(direction) == before.reserve_in(direction) + amount_in
    &&& after.reserve_out(direction) == before.reserve_out(direction) - out
    &&& after.amplification == before.amplification
    &&& after.lp_supply == before.lp_supply
    &&& after.fee_rate == before.fee_rate
    &&& after.authority == before.authority
    &&& after.is_initialized == before.is_initialized
}

/// Creates a pool from two deposits with the given fee rate; the LP supply
/// is seeded with the initial invariant.
pub fn initialize_pool_with_fee(
    pool: &mut PoolState,
    authority: [u8; 32],
    amount_a: u64,
    amount_b: u64,
    amplification: u64,
    fee_rate: FixedPoint,
) -> (r: Result<(), AmmError>)
    requires
        fee_rate.raw < scale(),
    ensures
        match initialize_rejection(*old(pool), amount_a, amount_b, amplification) {
            Some(e) => r == Err::<(), AmmError>(e),
            None => match r {
                Ok(_) => initialized_as(*final(pool), authority, amount_a, amount_b, amplification, fee_rate)
                    && final(pool).wf(),
                Err(e) => is_solver_failure(e),
            },
        },
        r is Err ==> *final(pool) == *old(pool),
        initialize_rejection(*old(pool), amount_a, amount_b, amplification) is None && amount_a + amount_b
            < u64::MAX ==> r is Ok,
{
    if pool.is_initialized {
        return Err(AmmError::AlreadyInitialized);
    }
    if amount_a == 0 || amount_b == 0 {
        return Err(AmmError::InvalidAmount);
    }
    if amplification < crate::constants::MIN_AMPLIFICATION || amplification > crate::constants::MAX_AMPLIFICATION {
        return Err(AmmError::InvalidAmplification);
    }
    let d = match compute_invariant(amount_a, amount_b, amplification) {
        Ok(v) => v,
        Err(e) => return Err(e),
    };
    proof {
        lemma_invariant_at_most_sum(amount_a as int, amount_b as int, amplification as int, d as int);
    }
    if d > u64::MAX as u128 {
        return Err(AmmError::Overflow);
    }
    pool.reserve_a = amount_a;
    pool.reserve_b = amount_b;
    pool.amplification = amplification;
    pool.lp_supply = d as u64;
    pool.fee_rate = fee_rate;
    pool.authority = authority;
    pool.is_initialized = true;
    Ok(())
}

/// Creates a pool from two deposits with the default fee rate.
pub fn initialize_pool(
    pool: &mut PoolState,
    authority: [u8; 32],
    amount_a: u64,
    amount_b: u64,
    amplification: u64,
) -> (r: Result<(), AmmError>)
    ensures
        match initialize_rejection(*old(pool), amount_a, amount_b, amplification) {
            Some(e) => r == Err::<(), AmmError>(e),
            None => match r {
                Ok(_) => initialized_as(
                    *final(pool),
                    authority,
                    amount_a,
                    amount_b,
                    amplification,
                    FixedPoint { raw: DEFAULT_FEE_RATE_RAW },
                ) && final(pool).wf(),
                Err(e) => is_solver_failure(e),
            },
        },
        r is Err ==> *final(pool) == *old(pool),
        initialize_rejection(*old(pool), amount_a, amount_b, amplification) is None && amount_a + amount_b
            < u64::MAX ==> r is Ok,
{
    initialize_pool_with_fee(pool, authority, amount_a, amount_b, amplification, FixedPoint::from_raw(DEFAULT_FEE_RATE_RAW))
}

/// Trades `amount_in` into the pool in `direction`. The fee is taken from
/// the input and stays in the pool; the rest is priced on the curve. On
/// success both reserves are updated and the output returned; on any
/// failure the pool is left as it was.
pub fn swap(pool: &mut PoolState, amount_in: u64, min_amount_out: u64, direction: SwapDirection) -> (r: Result<u64, AmmError>)
    requires
        old(pool).wf(),
    ensures
        amount_in == 0 ==> r == Err::<u64, AmmError>(AmmError::InvalidAmount),
        amount_in > 0 && old(pool).reserve_in(direction) + amount_in > u64::MAX ==> r == Err::<u64, AmmError>(
            AmmError::Overflow,
        ),
        amount_in > 0 && old(pool).reserve_in(direction) + amount_in <= u64::MAX && old(pool).reserve_a
            + old(pool).reserve_b < u64::MAX ==> (r is Ok || r == Err::<u64, AmmError>(AmmError::SlippageExceeded)
            || r == Err::<u64, AmmError>(AmmError::DegenerateSwap)),
        match r {
            Ok(out) => {
                &&& swapped(*old(pool), *final(pool), amount_in, min_amount_out, direction, out)
                &&& final(pool).wf()
                &&& final(pool).reserve_a + final(pool).reserve_b == old(pool).reserve_a + old(pool).reserve_b
                    + amount_in - out
            },
            Err(e) => {
                &&& *final(pool) == *old(pool)
                &&& e == AmmError::InvalidAmount ==> amount_in == 0
                &&& e == AmmError::SlippageExceeded ==> amount_in > 0 && exists|o: int|
                    0 < o < min_amount_out && #[trigger] is_swap_output(
                        old(pool).reserve_in(direction) as int,
                        old(pool).reserve_out(direction) as int,
                        effective_input(amount_in as int, old(pool).fee_rate),
                        old(pool).amplification as int,
                        o,
                    )
                &&& e == AmmError::DegenerateSwap ==> amount_in > 0 && is_swap_output(
                    old(pool).reserve_in(direction) as int,
                    old(pool).reserve_out(direction) as int,
                    effective_input(amount_in as int, old(pool).fee_rate),
                    old(pool).amplification as int,
                    0,
                )
                &&& (e == AmmError::InvalidAmount || e == AmmError::SlippageExceeded || e
                    == AmmError::DegenerateSwap || is_solver_failure(e))
            },
        },
{
    if amount_in == 0 {
        return Err(AmmError::InvalidAmount);
    }
    let (reserve_in, reserve_out) = match direction {
        SwapDirection::AToB => (pool.reserve_a, pool.reserve_b),
        SwapDirection::BToA => (pool.reserve_b, pool.reserve_a),
    };
    let new_in = match reserve_in.checked_add(amount_in) {
        Some(v) => v,
        None => return Err(AmmError::Overflow),
    };
    let keep = match FixedPoint::one().checked_sub(pool.fee_rate) {
        Ok(v) => v,
        Err(e) => return Err(e),
    };
    assert(keep.raw * amount_in / scale() <= amount_in) by (nonlinear_arith)
        requires keep.raw <= scale(), scale() > 0, amount_in >= 0;
    let effective = match keep.mul_int_floor(amount_in) {
        Ok(v) => v,
        Err(e) => return Err(e),
    };
    assert(effective == effective_input(amount_in as int, pool.fee_rate)) by {
        assert(keep.raw * amount_in == amount_in * (scale() - pool.fee_rate.raw)) by (nonlinear_arith)
            requires keep.raw == scale() - pool.fee_rate.raw;
    }
    let out = match compute_swap_output(reserve_in, reserve_out, effective, pool.amplification) {
        Ok(v) => v,
        Err(e) => return Err(e),
    };
    if out < min_amount_out {
        assert(reserve_in == pool.reserve_in(direction) && reserve_out == pool.reserve_out(direction));
        assert(is_swap_output(
            pool.reserve_in(direction) as int,
            pool.reserve_out(direction) as int,
            effective_input(amount_in as int, pool.fee_rate),
            pool.amplification as int,
            out as int,
        ));
        return Err(AmmError::SlippageExceeded);
    }
    let new_out = reserve_out - out;
    if new_out == 0 {
        return Err(AmmError::InsufficientLiquidity);
    }
    match direction {
        SwapDirection::AToB => {
            pool.reserve_a = new_in;
            pool.reserve_b = new_out;
        },
        SwapDirection::BToA => {
            pool.reserve_b = new_in;
            pool.reserve_a = new_out;
        },
    }
    Ok(out)
}

} // verus!
