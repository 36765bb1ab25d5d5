use vstd::prelude::*;
use crate::constants::valid_amplification;
use crate::fixed_point::{scale, FixedPoint};

verus! {

/// Which reserve a trade pays into; the other one pays out.
#[derive(Clone, Copy, Debug, PartialEq, Eq, Structural)]
pub enum SwapDirection {
    AToB,
    BToA,
}

/// The persisted state of one pool.
#[derive(Clone, Copy, Debug, PartialEq, Eq)]
pub struct PoolState {
    pub reserve_a: u64,
    pub reserve_b: u64,
    /// Fixed when the pool is created.
    pub amplification: u64,
    /// Claims against the pool, seeded with the initial invariant.
    pub lp_supply: u64,
    /// Fraction of every swap input kept by the pool, below one.
    pub fee_rate: FixedPoint,
    /// The key allowed to manage the pool.
    pub authority: [u8; 32],
    pub is_initialized: bool,
}

impl PoolState {
    /// A pool account that holds no state yet.
    pub fn empty() -> (r: PoolState)
        ensures
            !r.is_initialized,
            r.reserve_a == 0,
            r.reserve_b == 0,
            r.amplification == 0,
            r.lp_supply == 0,
            r.fee_rate.raw == 0,
    {
        PoolState {
            reserve_a: 0,
            reserve_b: 0,
            amplification: 0,
            lp_supply: 0,
            fee_rate: FixedPoint::zero(),
            authority: [0u8; 32],
            is_initialized: false,
        }
    }

    /// An initialized pool: both reserves positive, an amplification in
    /// range and a fee rate below one.
    pub open spec fn wf(&self) -> bool {
        &&& self.is_initialized
        &&& self.reserve_a > 0
        &&& self.reserve_b > 0
        &&& valid_amplification(self.amplification)
        &&& self.fee_rate.raw < scale()
    }

    /// The reserve a trade in `direction` pays into.
    pub open spec fn reserve_in(&self, direction: SwapDirection) -> u64 {
        match direction {
            SwapDirection::AToB => self.reserve_a,
            SwapDirection::BToA => self.reserve_b,
        }
    }

    /// The reserve a trade in `direction` pays out of.
    pub open spec fn reserve_out(&self, direction: SwapDirection) -> u64 {
        match direction {
            SwapDirection::AToB => self.reserve_b,
            SwapDirection::BToA => self.reserve_a,
        }
    }
}

} // verus!
