use vstd::prelude::*;

verus! {

/// `A * n^n` for the two-asset curve.
pub open spec fn ann(a: int) -> int {
    4 * a
}

/// The stable-swap equation `A n^n (x + y) + D = A n^n D + D^3 / (n^n x y)`
/// with both sides multiplied by `4 x y` and moved to one side. For fixed
/// positive reserves it is strictly decreasing in `D >= 0`; it is zero
/// exactly at the real invariant.
pub open spec fn curve(x: int, y: int, a: int, d: int) -> int {
    4 * x * y * (ann(a) * (x + y) - (ann(a) - 1) * d) - d * d * d
}

/// `d` is the invariant of reserves `x, y`: the largest integer at which
/// the curve is not negative (the real root rounded down).
pub open spec fn is_invariant(x: int, y: int, a: int, d: int) -> bool {
    0 <= d && curve(x, y, a, d) >= 0 && curve(x, y, a, d + 1) < 0
}

/// `y` is the smallest positive reserve that, beside reserve `x`, keeps
/// the curve of invariant `d` not negative.
pub open spec fn is_balancing_reserve(x: int, a: int, d: int, y: int) -> bool {
    1 <= y && curve(x, y, a, d) >= 0 && (y == 1 || curve(x, y - 1, a, d) < 0)
}

/// `out` is what a fee-free input `amount` buys from reserves
/// `(reserve_in, reserve_out)`: the output reserve falls to the smallest
/// value that keeps the old invariant.
pub open spec fn is_swap_output(reserve_in: int, reserve_out: int, amount: int, a: int, out: int) -> bool {
    exists|d: int|
        #[trigger] is_invariant(reserve_in, reserve_out, a, d) && is_balancing_reserve(
            reserve_in + amount,
            a,
            d,
            reserve_out - out,
        )
}

/// Both reserves may grow and the invariant shrink without the curve
/// falling, as long as it started not negative.
pub proof fn lemma_curve_monotone(x: int, y: int, d: int, x2: int, y2: int, d2: int, a: int)
    requires
        0 < x <= x2,
        0 < y <= y2,
        0 <= d2 <= d,
        a >= 1,
        curve(x, y, a, d) >= 0,
    ensures
        curve(x2, y2, a, d2) >= curve(x, y, a, d),
{
    let t = ann(a) * (x + y) - (ann(a) - 1) * d;
    let t2 = ann(a) * (x2 + y2) - (ann(a) - 1) * d2;
    assert(d * d * d >= 0) by (nonlinear_arith)
        requires d >= 0;
    assert(4 * x * y * t >= d * d * d);
    assert(x * y > 0) by (nonlinear_arith)
        requires x > 0, y > 0;
    assert(t >= 0) by (nonlinear_arith)
        requires x * y > 0, 4 * x * y * t >= 0;
    assert((ann(a) - 1) * d2 <= (ann(a) - 1) * d) by (nonlinear_arith)
        requires ann(a) - 1 >= 0, d2 <= d;
    assert(ann(a) * (x2 + y2) >= ann(a) * (x + y)) by (nonlinear_arith)
        requires ann(a) >= 0, x2 + y2 >= x + y;
    assert(t2 >= t);
    assert(x2 * y2 >= x * y) by (nonlinear_arith)
        requires 0 < x <= x2, 0 < y <= y2;
    assert(4 * x2 * y2 * t2 >= 4 * x * y * t) by (nonlinear_arith)
        requires x2 * y2 >= x * y, x * y > 0, t2 >= t, t >= 0;
    assert(d2 * d2 * d2 <= d * d * d) by (nonlinear_arith)
        requires 0 <= d2 <= d;
}

/// Raising one reserve strictly raises a curve that was not negative.
pub proof fn lemma_curve_strictly_increasing_in_x(x: int, y: int, d: int, x2: int, a: int)
    requires
        0 < x < x2,
        0 < y,
        0 <= d,
        a >= 1,
        curve(x, y, a, d) >= 0,
    ensures
        curve(x2, y, a, d) > curve(x, y, a, d),
{
    let t = ann(a) * (x + y) - (ann(a) - 1) * d;
    let t2 = ann(a) * (x2 + y) - (ann(a) - 1) * d;
    assert(d * d * d >= 0) by (nonlinear_arith)
        requires d >= 0;
    assert(x * y > 0) by (nonlinear_arith)
        requires x > 0, y > 0;
    assert(t >= 0) by (nonlinear_arith)
        requires x * y > 0, 4 * x * y * t >= 0;
    assert(ann(a) * (x2 + y) > ann(a) * (x + y)) by (nonlinear_arith)
        requires ann(a) > 0, x2 + y > x + y;
    assert(t2 > t);
    assert(x2 * y > x * y) by (nonlinear_arith)
        requires 0 < x < x2, 0 < y;
    assert(4 * x2 * y * t2 > 4 * x * y * t) by (nonlinear_arith)
        requires x2 * y > x * y, x * y > 0, t2 > t, t >= 0;
}

/// The curve is positive at `D = 0`.
pub proof fn lemma_curve_at_zero(x: int, y: int, a: int)
    requires
        x > 0,
        y > 0,
        a >= 1,
    ensures
        curve(x, y, a, 0) > 0,
{
    assert(4 * x * y * (ann(a) * (x + y) - (ann(a) - 1) * 0) > 0) by (nonlinear_arith)
        requires x > 0, y > 0, ann(a) >= 4;
}

/// The curve is negative just past the sum of the reserves.
pub proof fn lemma_curve_past_sum(x: int, y: int, a: int)
    requires
        x > 0,
        y > 0,
        a >= 1,
    ensures
        curve(x, y, a, x + y + 1) < 0,
{
    let s = x + y;
    let d = s + 1;
    let t = ann(a) * s - (ann(a) - 1) * d;
    let n = ann(a);
    assert(t == s + 1 - n) by (nonlinear_arith)
        requires t == n * s - (n - 1) * d, d == s + 1;
    assert(4 * x * y <= s * s) by (nonlinear_arith)
        requires s == x + y;
    assert(x * y > 0) by (nonlinear_arith)
        requires x > 0, y > 0;
    assert(d * d * d > s * s * s) by (nonlinear_arith)
        requires d == s + 1, s > 0;
    if t <= 0 {
        assert(4 * x * y * t <= 0) by (nonlinear_arith)
            requires x * y > 0, t <= 0;
        assert(s * s * s > 0) by (nonlinear_arith)
            requires s > 0;
    } else {
        assert(4 * x * y * t <= s * s * t) by (nonlinear_arith)
            requires 4 * x * y <= s * s, t > 0;
        assert(s * s * t <= s * s * s) by (nonlinear_arith)
            requires t <= s, t > 0, s > 0;
    }
}

/// The invariant never exceeds the sum of the reserves.
pub proof fn lemma_invariant_at_most_sum(x: int, y: int, a: int, d: int)
    requires
        x > 0,
        y > 0,
        a >= 1,
        is_invariant(x, y, a, d),
    ensures
        d <= x + y,
{
    lemma_curve_past_sum(x, y, a);
    if d > x + y {
        lemma_curve_monotone(x, y, d, x, y, x + y + 1, a);
    }
}

/// The curve does not depend on the order of the reserves.
pub proof fn lemma_curve_symmetric(x: int, y: int, a: int, d: int)
    ensures
        curve(x, y, a, d) == curve(y, x, a, d),
{
    assert(4 * x * y == 4 * y * x) by (nonlinear_arith);
}

/// The invariant of a pair of reserves is unique.
pub proof fn lemma_invariant_unique(x: int, y: int, a: int, d1: int, d2: int)
    requires
        x > 0,
        y > 0,
        a >= 1,
        is_invariant(x, y, a, d1),
        is_invariant(x, y, a, d2),
    ensures
        d1 == d2,
{
    if d1 < d2 {
        lemma_curve_monotone(x, y, d2, x, y, d1 + 1, a);
    } else if d2 < d1 {
        lemma_curve_monotone(x, y, d1, x, y, d2 + 1, a);
    }
}

/// The balancing reserve of a given reserve and invariant is unique.
pub proof fn lemma_balancing_reserve_unique(x: int, a: int, d: int, y1: int, y2: int)
    requires
        x > 0,
        a >= 1,
        d >= 0,
        is_balancing_reserve(x, a, d, y1),
        is_balancing_reserve(x, a, d, y2),
    ensures
        y1 == y2,
{
    if y1 < y2 {
        lemma_curve_monotone(x, y1, d, x, y2 - 1, d, a);
    } else if y2 < y1 {
        lemma_curve_monotone(x, y2, d, x, y1 - 1, d, a);
    }
}

/// A fee-free input buys exactly one output: what `is_swap_output` describes
/// is determined by the reserves, the input and the amplification.
pub proof fn lemma_swap_output_unique(
    reserve_in: int,
    reserve_out: int,
    amount: int,
    a: int,
    out1: int,
    out2: int,
)
    requires
        reserve_in > 0,
        reserve_out > 0,
        amount >= 0,
        a >= 1,
        is_swap_output(reserve_in, reserve_out, amount, a, out1),
        is_swap_output(reserve_in, reserve_out, amount, a, out2),
    ensures
        out1 == out2,
{
    let d1 = choose|d: int|
        #[trigger] is_invariant(reserve_in, reserve_out, a, d) && is_balancing_reserve(
            reserve_in + amount,
            a,
            d,
            reserve_out - out1,
        );
    let d2 = choose|d: int|
        #[trigger] is_invariant(reserve_in, reserve_out, a, d) && is_balancing_reserve(
            reserve_in + amount,
            a,
            d,
            reserve_out - out2,
        );
    lemma_invariant_unique(reserve_in, reserve_out, a, d1, d2);
    lemma_balancing_reserve_unique(reserve_in + amount, a, d1, reserve_out - out1, reserve_out - out2);
}

/// A curve that is not negative at `(x, y)` has its balancing reserve for a
/// larger `x2` at or below `y`.
pub proof fn lemma_balancing_reserve_bound(x: int, y: int, a: int, d: int, x2: int, y2: int)
    requires
        0 < x <= x2,
        0 < y,
        a >= 1,
        d >= 0,
        curve(x, y, a, d) >= 0,
        is_balancing_reserve(x2, a, d, y2),
    ensures
        y2 <= y,
{
    if y2 > y {
        lemma_curve_monotone(x, y, d, x2, y2 - 1, d, a);
    }
}

/// Two fee-free swaps against the same reserves: the larger input buys at
/// least as much.
pub proof fn lemma_swap_output_monotone(
    reserve_in: int,
    reserve_out: int,
    a: int,
    amount1: int,
    out1: int,
    amount2: int,
    out2: int,
)
    requires
        reserve_in > 0,
        reserve_out > 0,
        a >= 1,
        0 <= amount1 <= amount2,
        is_swap_output(reserve_in, reserve_out, amount1, a, out1),
        is_swap_output(reserve_in, reserve_out, amount2, a, out2),
    ensures
        out1 <= out2,
{
    let d1 = choose|d: int|
        #[trigger] is_invariant(reserve_in, reserve_out, a, d) && is_balancing_reserve(
            reserve_in + amount1,
            a,
            d,
            reserve_out - out1,
        );
    let d2 = choose|d: int|
        #[trigger] is_invariant(reserve_in, reserve_out, a, d) && is_balancing_reserve(
            reserve_in + amount2,
            a,
            d,
            reserve_out - out2,
        );
    lemma_invariant_unique(reserve_in, reserve_out, a, d1, d2);
    lemma_balancing_reserve_bound(
        reserve_in + amount1,
        reserve_out - out1,
        a,
        d1,
        reserve_in + amount2,
        reserve_out - out2,
    );
}

} // verus!
