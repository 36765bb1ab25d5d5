//! Computational core of a two-asset stable-swap liquidity pool: checked
//! fixed-point arithmetic, the amplified invariant and its solvers, and the
//! pool-initialization and swap state transitions.

pub mod constants;
pub mod error;
pub mod fixed_point;
pub mod curve;
pub mod stable_swap;
pub mod state;
pub mod instructions;
pub mod laws;
mod wide;

pub use instructions::{initialize_pool, swap};
