use vstd::prelude::*;

verus! {

/// Number of raw units in one whole `FixedPoint` value.
pub const FIXED_POINT_SCALE: u64 = 1_000_000_000;

/// Denominator of fee rates quoted in basis points.
pub const FEE_DENOMINATOR: u64 = 10_000;

/// Fee charged on every swap input of a new pool, in basis points (0.3%).
pub const DEFAULT_FEE_BPS: u64 = 30;

/// Raw `FixedPoint` value of the default fee rate.
pub const DEFAULT_FEE_RATE_RAW: u64 = DEFAULT_FEE_BPS * (FIXED_POINT_SCALE / FEE_DENOMINATOR);

/// Smallest amplification coefficient a pool may be created with.
pub const MIN_AMPLIFICATION: u64 = 1;

/// Largest amplification coefficient a pool may be created with.
pub const MAX_AMPLIFICATION: u64 = 1_000_000;

/// Upper bound on Newton-Raphson iterations in either solver.
pub const MAX_ITERATIONS: u64 = 255;

/// Two successive Newton iterates this close are considered converged.
pub const CONVERGENCE_TOLERANCE: u128 = 1;

pub open spec fn valid_amplification(amplification: u64) -> bool {
    MIN_AMPLIFICATION <= amplification <= MAX_AMPLIFICATION
}

} // verus!
