use vstd::prelude::*;
use crate::curve::{
    curve, is_balancing_reserve, is_invariant, is_swap_output, lemma_curve_monotone,
    lemma_curve_strictly_increasing_in_x, lemma_curve_symmetric, lemma_invariant_unique,
    lemma_swap_output_monotone,
};
use crate::fixed_point::{scale, FixedPoint};
use crate::instructions::{effective_input, swapped};
use crate::state::{PoolState, SwapDirection};

verus! {

/// The fee never makes the traded part of an input larger than the input,
/// and a positive fee on a positive input always keeps something back.
pub proof fn lemma_effective_input_bounds(amount: int, fee_rate: FixedPoint)
    requires
        amount >= 0,
        fee_rate.raw < scale(),
    ensures
        0 <= effective_input(amount, fee_rate) <= amount,
        fee_rate.raw > 0 && amount > 0 ==> effective_input(amount, fee_rate) < amount,
{
    let s = scale();
    let f = fee_rate.raw as int;
    assert(0 <= amount * (s - f) <= amount * s) by (nonlinear_arith)
        requires amount >= 0, 0 <= f < s;
    assert(amount * s / s == amount) by (nonlinear_arith)
        requires s > 0;
    assert(0 <= amount * (s - f) / s <= amount * s / s) by (nonlinear_arith)
        requires 0 <= amount * (s - f) <= amount * s, s > 0;
    if f > 0 && amount > 0 {
        assert(amount * (s - f) <= amount * s - 1) by (nonlinear_arith)
            requires amount > 0, f > 0;
        assert(amount * (s - f) / s < amount) by (nonlinear_arith)
            requires amount * (s - f) <= amount * s - 1, s > 0;
    }
}

/// The invariant of a pool does not depend on which reserve is named first.
proof fn lemma_invariant_symmetric(x: int, y: int, a: int, d: int)
    ensures
        is_invariant(x, y, a, d) == is_invariant(y, x, a, d),
{
    lemma_curve_symmetric(x, y, a, d);
    lemma_curve_symmetric(x, y, a, d + 1);
}

/// A successful swap never lowers the pool's invariant. With a positive fee
/// the exact curve through the new reserves lies strictly above the old
/// invariant, so the real-valued invariant strictly grows (its integer
/// floor may stay where it was).
pub proof fn lemma_swap_never_lowers_invariant(
    before: PoolState,
    after: PoolState,
    amount_in: u64,
    min_amount_out: u64,
    direction: SwapDirection,
    out: u64,
    d_before: int,
    d_after: int,
)
    requires
        before.wf(),
        swapped(before, after, amount_in, min_amount_out, direction, out),
        is_invariant(before.reserve_a as int, before.reserve_b as int, before.amplification as int, d_before),
        is_invariant(after.reserve_a as int, after.reserve_b as int, after.amplification as int, d_after),
    ensures
        d_before <= d_after,
        before.fee_rate.raw > 0 ==> curve(
            after.reserve_a as int,
            after.reserve_b as int,
            after.amplification as int,
            d_before,
        ) > 0,
{
    let a = before.amplification as int;
    let rin = before.reserve_in(direction) as int;
    let rout = before.reserve_out(direction) as int;
    let new_in = after.reserve_in(direction) as int;
    let new_out = after.reserve_out(direction) as int;
    let eff = effective_input(amount_in as int, before.fee_rate);
    let d = choose|d: int|
        #[trigger] is_invariant(rin, rout, a, d) && is_balancing_reserve(rin + eff, a, d, rout - out);
    lemma_invariant_symmetric(before.reserve_a as int, before.reserve_b as int, a, d_before);
    lemma_invariant_symmetric(after.reserve_a as int, after.reserve_b as int, a, d_after);
    lemma_invariant_unique(rin, rout, a, d, d_before);
    lemma_effective_input_bounds(amount_in as int, before.fee_rate);
    assert(is_invariant(new_in, new_out, a, d_after));
    // The new reserves sit on or above the curve of the old invariant.
    lemma_curve_monotone(rin + eff, new_out, d, new_in, new_out, d, a);
    if d_after < d_before {
        lemma_curve_monotone(new_in, new_out, d_before, new_in, new_out, d_after + 1, a);
    }
    if before.fee_rate.raw > 0 {
        if rin + eff < new_in {
            lemma_curve_strictly_increasing_in_x(rin + eff, new_out, d, new_in, a);
        }
    }
    lemma_curve_symmetric(new_in, new_out, a, d);
}

/// The fee only ever lowers what a swap pays out: a swap never returns more
/// than the same input would buy from the same pool with no fee.
pub proof fn lemma_fee_never_raises_output(
    before: PoolState,
    after: PoolState,
    amount_in: u64,
    min_amount_out: u64,
    direction: SwapDirection,
    out: u64,
    fee_free_out: int,
)
    requires
        before.wf(),
        swapped(before, after, amount_in, min_amount_out, direction, out),
        is_swap_output(
            before.reserve_in(direction) as int,
            before.reserve_out(direction) as int,
            amount_in as int,
            before.amplification as int,
            fee_free_out,
        ),
    ensures
        out <= fee_free_out,
{
    lemma_effective_input_bounds(amount_in as int, before.fee_rate);
    lemma_swap_output_monotone(
        before.reserve_in(direction) as int,
        before.reserve_out(direction) as int,
        before.amplification as int,
        effective_input(amount_in as int, before.fee_rate),
        out as int,
        amount_in as int,
        fee_free_out,
    );
}

} // verus!
