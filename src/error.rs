use vstd::prelude::*;

verus! {

/// Every way an operation on a pool can fail.
#[derive(Clone, Copy, Debug, PartialEq, Eq, Structural)]
pub enum AmmError {
    /// A zero deposit or a zero swap input.
    InvalidAmount,
    /// An amplification coefficient outside the accepted range.
    InvalidAmplification,
    /// The pool already holds state.
    AlreadyInitialized,
    /// A result does not fit the integer width that must hold it.
    Overflow,
    /// A subtraction would go below zero.
    Underflow,
    /// A solver found no answer within the 64-bit range it searches.
    ConvergenceFailure,
    /// A positive input would buy nothing.
    DegenerateSwap,
    /// The output is below the caller's minimum.
    SlippageExceeded,
    /// The trade would empty the output reserve.
    InsufficientLiquidity,
}

} // verus!
