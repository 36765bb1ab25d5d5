use vstd::prelude::*;
use crate::constants::{valid_amplification, CONVERGENCE_TOLERANCE, MAX_ITERATIONS};
use crate::curve::{
    curve, is_balancing_reserve, is_invariant, is_swap_output, lemma_balancing_reserve_bound,
    lemma_curve_at_zero, lemma_curve_monotone, lemma_curve_past_sum, lemma_invariant_at_most_sum,
};
use crate::error::AmmError;
use crate::wide::{ge, mul_add_div, mul_div, mul_full};

verus! {

/// The errors a solver may end in: its arithmetic leaves the 64-bit
/// domain, or no answer lies within it.
pub open spec fn is_solver_failure(e: AmmError) -> bool {
    e == AmmError::Overflow || e == AmmError::ConvergenceFailure
}

fn mul_wide(a: u128, b: u128) -> (r: Result<u128, AmmError>)
    ensures
        match r {
            Ok(v) => v == a * b,
            Err(e) => e == AmmError::Overflow && a * b > u128::MAX,
        },
{
    match a.checked_mul(b) {
        Some(v) => Ok(v),
        None => Err(AmmError::Overflow),
    }
}

fn add_wide(a: u128, b: u128) -> (r: Result<u128, AmmError>)
    ensures
        match r {
            Ok(v) => v == a + b,
            Err(e) => e == AmmError::Overflow && a + b > u128::MAX,
        },
{
    match a.checked_add(b) {
        Some(v) => Ok(v),
        None => Err(AmmError::Overflow),
    }
}

/// Whether the curve of invariant `d` is not negative at reserves `x, y`,
/// decided exactly on 256-bit products.
pub fn curve_nonnegative(x: u128, y: u128, amplification: u64, d: u128) -> (r: Result<bool, AmmError>)
    requires
        x > 0,
        y > 0,
        valid_amplification(amplification),
    ensures
        match r {
            Ok(b) => b == (curve(x as int, y as int, amplification as int, d as int) >= 0),
            Err(e) => e == AmmError::Overflow,
        },
        x <= u64::MAX && y <= u64::MAX && d <= u64::MAX ==> r is Ok,
{
    let ghost small_args: bool = x <= u64::MAX && y <= u64::MAX && d <= u64::MAX;
    let ghost (xi, yi, ai, di) = (x as int, y as int, amplification as int, d as int);
    let ann: u128 = 4 * (amplification as u128);
    let s = match add_wide(x, y) {
        Ok(v) => v,
        Err(e) => return Err(e),
    };
    assert(small_args ==> ann * s <= u128::MAX) by (nonlinear_arith)
        requires ann <= 4_000_000, small_args ==> s <= 2 * 0xffff_ffff_ffff_ffff;
    let pos = match mul_wide(ann, s) {
        Ok(v) => v,
        Err(e) => return Err(e),
    };
    assert(small_args ==> pos <= 4_000_000 * (2 * 0xffff_ffff_ffff_ffffu128 as int)) by (nonlinear_arith)
        requires pos == ann * s, ann <= 4_000_000, small_args ==> s <= 2 * 0xffff_ffff_ffff_ffff;
    assert(small_args ==> (ann - 1) * d <= u128::MAX) by (nonlinear_arith)
        requires ann <= 4_000_000, ann >= 4, small_args ==> d <= 0xffff_ffff_ffff_ffff;
    let neg = match mul_wide(ann - 1, d) {
        Ok(v) => v,
        Err(e) => return Err(e),
    };
    let ghost t: int = pos - neg;
    assert(curve(xi, yi, ai, di) == 4 * xi * yi * t - di * di * di);
    assert(xi * yi > 0) by (nonlinear_arith)
        requires xi > 0, yi > 0;
    assert(di * di * di >= 0) by (nonlinear_arith)
        requires di >= 0;
    if neg > pos {
        assert(4 * xi * yi * t < 0) by (nonlinear_arith)
            requires xi * yi > 0, t < 0;
        return Ok(false);
    }
    if neg == pos {
        assert(4 * xi * yi * t == 0) by (nonlinear_arith)
            requires t == 0;
        assert(di > 0 ==> di * di * di > 0) by (nonlinear_arith);
        assert(di == 0 ==> di * di * di == 0) by (nonlinear_arith);
        assert(curve(xi, yi, ai, di) == 0 - di * di * di);
        return Ok(d == 0);
    }
    assert(small_args ==> x * y <= u128::MAX) by (nonlinear_arith)
        requires small_args ==> x <= 0xffff_ffff_ffff_ffff && y <= 0xffff_ffff_ffff_ffff;
    let xy = match mul_wide(x, y) {
        Ok(v) => v,
        Err(e) => return Err(e),
    };
    assert(small_args ==> (pos - neg) * 4 <= u128::MAX) by (nonlinear_arith)
        requires pos >= neg, small_args ==> pos <= 4_000_000 * (2 * 0xffff_ffff_ffff_ffffu128 as int);
    let t4 = match mul_wide(pos - neg, 4) {
        Ok(v) => v,
        Err(e) => return Err(e),
    };
    assert(small_args ==> d * d <= u128::MAX) by (nonlinear_arith)
        requires small_args ==> d <= 0xffff_ffff_ffff_ffff;
    let d2 = match mul_wide(d, d) {
        Ok(v) => v,
        Err(e) => return Err(e),
    };
    let lhs = mul_full(xy, t4);
    let rhs = mul_full(d2, d);
    assert(lhs.value() == 4 * xi * yi * t) by (nonlinear_arith)
        requires lhs.value() == xy * t4, xy == xi * yi, t4 == t * 4;
    Ok(ge(lhs, rhs))
}


/// One Newton-Raphson step towards the invariant:
/// `D' = (Ann S + 2 D_P) D / ((Ann - 1) D + 3 D_P)` with `D_P = D^3 / (4 x y)`,
/// dividing by the smaller reserve first to keep `D_P` precise.
fn invariant_newton_step(small: u128, large: u128, ann: u128, s: u128, d: u128) -> (r: Result<u128, AmmError>)
    requires
        small > 0,
        large > 0,
        ann >= 4,
    ensures
        match r {
            Ok(_) => true,
            Err(e) => is_solver_failure(e),
        },
{
    let d2 = match mul_wide(d, d) {
        Ok(v) => v,
        Err(e) => return Err(e),
    };
    let small2 = match mul_wide(small, 2) {
        Ok(v) => v,
        Err(e) => return Err(e),
    };
    let large2 = match mul_wide(large, 2) {
        Ok(v) => v,
        Err(e) => return Err(e),
    };
    let dp = match mul_div(d2 / small2, d, large2) {
        Some(v) => v,
        None => return Err(AmmError::Overflow),
    };
    let sum_term = match mul_wide(ann, s) {
        Ok(v) => v,
        Err(e) => return Err(e),
    };
    let dp2 = match mul_wide(dp, 2) {
        Ok(v) => v,
        Err(e) => return Err(e),
    };
    let num = match add_wide(sum_term, dp2) {
        Ok(v) => v,
        Err(e) => return Err(e),
    };
    let lin = match mul_wide(ann - 1, d) {
        Ok(v) => v,
        Err(e) => return Err(e),
    };
    let dp3 = match mul_wide(dp, 3) {
        Ok(v) => v,
        Err(e) => return Err(e),
    };
    let den = match add_wide(lin, dp3) {
        Ok(v) => v,
        Err(e) => return Err(e),
    };
    if den == 0 {
        return Err(AmmError::ConvergenceFailure);
    }
    match mul_div(d, num, den) {
        Some(v) => Ok(v),
        None => Err(AmmError::Overflow),
    }
}

/// Newton-Raphson from `D = x + y` until two iterates are within
/// `CONVERGENCE_TOLERANCE`; `None` where the iteration leaves 128 bits or
/// does not settle within `MAX_ITERATIONS`.
fn newton_invariant(x: u128, y: u128, amplification: u64) -> (r: Option<u128>)
    requires
        x > 0,
        y > 0,
        valid_amplification(amplification),
{
    let ann: u128 = 4 * (amplification as u128);
    let s = match add_wide(x, y) {
        Ok(v) => v,
        Err(_) => return None,
    };
    let (small, large) = if x <= y {
        (x, y)
    } else {
        (y, x)
    };
    let mut d: u128 = s;
    let mut i: u64 = 0;
    while i < MAX_ITERATIONS
        invariant
            small > 0,
            large > 0,
            ann >= 4,
        decreases MAX_ITERATIONS - i,
    {
        let next = match invariant_newton_step(small, large, ann, s, d) {
            Ok(v) => v,
            Err(_) => return None,
        };
        let delta = if next > d {
            next - d
        } else {
            d - next
        };
        if delta <= CONVERGENCE_TOLERANCE {
            return Some(next);
        }
        d = next;
        i = i + 1;
    }
    None
}

/// The exact invariant, found by bisection between `0` (where the curve is
/// positive) and `x + y + 1` (where it is negative), with the bracket first
/// narrowed around the Newton estimate.
fn settle_invariant(x: u128, y: u128, amplification: u64, estimate: Option<u128>) -> (r: Result<u128, AmmError>)
    requires
        0 < x <= u64::MAX,
        0 < y <= u64::MAX,
        valid_amplification(amplification),
    ensures
        match r {
            Ok(d) => is_invariant(x as int, y as int, amplification as int, d as int),
            Err(e) => e == AmmError::Overflow,
        },
        x + y < u64::MAX ==> r is Ok,
{
    proof {
        lemma_curve_at_zero(x as int, y as int, amplification as int);
        lemma_curve_past_sum(x as int, y as int, amplification as int);
    }
    let top: u128 = x + y + 1;
    let mut lo: u128 = 0;
    let mut hi: u128 = top;
    if let Some(e) = estimate {
        if lo < e && e < hi {
            let at = match curve_nonnegative(x, y, amplification, e) {
                Ok(b) => b,
                Err(err) => return Err(err),
            };
            let next = if at {
                lo = e;
                e + 1
            } else {
                hi = e;
                e - 1
            };
            if lo < next && next < hi {
                let at_next = match curve_nonnegative(x, y, amplification, next) {
                    Ok(b) => b,
                    Err(err) => return Err(err),
                };
                if at_next {
                    lo = next;
                } else {
                    hi = next;
                }
            }
        }
    }
    while hi - lo > 1
        invariant
            0 < x <= u64::MAX,
            0 < y <= u64::MAX,
            valid_amplification(amplification),
            top == x + y + 1,
            lo < hi <= top,
            curve(x as int, y as int, amplification as int, lo as int) >= 0,
            curve(x as int, y as int, amplification as int, hi as int) < 0,
        decreases hi - lo,
    {
        let mid = lo + (hi - lo) / 2;
        let at = match curve_nonnegative(x, y, amplification, mid) {
            Ok(b) => b,
            Err(e) => return Err(e),
        };
        if at {
            lo = mid;
        } else {
            hi = mid;
        }
    }
    Ok(lo)
}

/// The invariant `D` of reserves `reserve_a, reserve_b`: Newton-Raphson from
/// `D = reserve_a + reserve_b` until two iterates are within
/// `CONVERGENCE_TOLERANCE`, then settled on the exact integer by bisection.
/// A Newton run that does not settle only loses its head start: the
/// bisection alone always reaches the answer.
pub fn compute_invariant(reserve_a: u64, reserve_b: u64, amplification: u64) -> (r: Result<u128, AmmError>)
    requires
        reserve_a > 0,
        reserve_b > 0,
        valid_amplification(amplification),
    ensures
        match r {
            Ok(d) => is_invariant(reserve_a as int, reserve_b as int, amplification as int, d as int),
            Err(e) => is_solver_failure(e),
        },
        reserve_a + reserve_b < u64::MAX ==> r is Ok,
{
    let x = reserve_a as u128;
    let y = reserve_b as u128;
    let estimate = newton_invariant(x, y, amplification);
    settle_invariant(x, y, amplification, estimate)
}


/// One Newton-Raphson step towards the balancing reserve, the positive root
/// of `y^2 + (b - D) y - c = 0` with `b = x + D / Ann` and
/// `c = D^3 / (4 x Ann)`: `y' = (y^2 + c) / (2 y + b - D)`.
fn balancing_newton_step(b: u128, c: u128, d: u128, y: u128) -> (r: Result<u128, AmmError>)
    ensures
        match r {
            Ok(_) => true,
            Err(e) => is_solver_failure(e),
        },
{
    let y2 = match mul_wide(y, 2) {
        Ok(v) => v,
        Err(e) => return Err(e),
    };
    let den_plus = match add_wide(y2, b) {
        Ok(v) => v,
        Err(e) => return Err(e),
    };
    if den_plus <= d {
        return Err(AmmError::ConvergenceFailure);
    }
    match mul_add_div(y, y, c, den_plus - d) {
        Some(v) => Ok(v),
        None => Err(AmmError::Overflow),
    }
}

/// Newton-Raphson on `y^2 + (b - D) y - c = 0` from `y = d` until two
/// iterates are within `CONVERGENCE_TOLERANCE`; `None` where the iteration
/// leaves 128 bits or does not settle within `MAX_ITERATIONS`.
fn newton_balancing_reserve(x: u128, amplification: u64, d: u128) -> (r: Option<u128>)
    requires
        x > 0,
        valid_amplification(amplification),
{
    let ann: u128 = 4 * (amplification as u128);
    let d2 = match mul_wide(d, d) {
        Ok(v) => v,
        Err(_) => return None,
    };
    let x2 = match mul_wide(x, 2) {
        Ok(v) => v,
        Err(_) => return None,
    };
    let c = match mul_div(d2 / x2, d, 2 * ann) {
        Some(v) => v,
        None => return None,
    };
    let b = match add_wide(x, d / ann) {
        Ok(v) => v,
        Err(_) => return None,
    };
    let mut y: u128 = d;
    let mut i: u64 = 0;
    while i < MAX_ITERATIONS
        decreases MAX_ITERATIONS - i,
    {
        let next = match balancing_newton_step(b, c, d, y) {
            Ok(v) => v,
            Err(_) => return None,
        };
        let delta = if next > y {
            next - y
        } else {
            y - next
        };
        if delta <= CONVERGENCE_TOLERANCE {
            return Some(next);
        }
        y = next;
        i = i + 1;
    }
    None
}

/// The exact balancing reserve: doubling from the Newton estimate (capped at
/// `u64::MAX`) until the curve is not negative, then bisection down to the
/// smallest such reserve.
fn settle_balancing_reserve(x: u128, amplification: u64, d: u128, estimate: Option<u128>) -> (r: Result<u128, AmmError>)
    requires
        x > 0,
        valid_amplification(amplification),
    ensures
        match r {
            Ok(y) => is_balancing_reserve(x as int, amplification as int, d as int, y as int),
            Err(e) => is_solver_failure(e),
        },
        x <= u64::MAX && d <= u64::MAX && curve(x as int, u64::MAX as int, amplification as int, d as int)
            >= 0 ==> r is Ok,
{
    let ghost fits: bool = x <= u64::MAX && d <= u64::MAX && curve(
        x as int,
        u64::MAX as int,
        amplification as int,
        d as int,
    ) >= 0;
    let cap: u128 = u64::MAX as u128;
    let mut hi: u128 = match estimate {
        Some(e) => if e == 0 {
            1
        } else if e > cap {
            cap
        } else {
            e
        },
        None => 1,
    };
    let mut found = match curve_nonnegative(x, hi, amplification, d) {
        Ok(b) => b,
        Err(e) => return Err(e),
    };
    while !found
        invariant
            x > 0,
            valid_amplification(amplification),
            1 <= hi <= cap,
            cap == u64::MAX,
            found == (curve(x as int, hi as int, amplification as int, d as int) >= 0),
            fits == (x <= u64::MAX && d <= u64::MAX && curve(
                x as int,
                u64::MAX as int,
                amplification as int,
                d as int,
            ) >= 0),
        decreases cap - hi,
    {
        if hi == cap {
            return Err(AmmError::ConvergenceFailure);
        }
        hi = if hi > cap / 2 {
            cap
        } else {
            hi * 2
        };
        found = match curve_nonnegative(x, hi, amplification, d) {
            Ok(b) => b,
            Err(e) => return Err(e),
        };
    }
    let mut lo: u128 = 0;
    if hi >= 2 {
        let below = match curve_nonnegative(x, hi - 1, amplification, d) {
            Ok(b) => b,
            Err(e) => return Err(e),
        };
        if below {
            hi = hi - 1;
        } else {
            lo = hi - 1;
        }
    }
    while hi - lo > 1
        invariant
            x > 0,
            valid_amplification(amplification),
            lo < hi <= cap,
            cap == u64::MAX,
            lo == 0 || curve(x as int, lo as int, amplification as int, d as int) < 0,
            curve(x as int, hi as int, amplification as int, d as int) >= 0,
            fits == (x <= u64::MAX && d <= u64::MAX && curve(
                x as int,
                u64::MAX as int,
                amplification as int,
                d as int,
            ) >= 0),
        decreases hi - lo,
    {
        let mid = lo + (hi - lo) / 2;
        let at = match curve_nonnegative(x, mid, amplification, d) {
            Ok(b) => b,
            Err(e) => return Err(e),
        };
        if at {
            hi = mid;
        } else {
            lo = mid;
        }
    }
    Ok(hi)
}

/// The balancing reserve for reserve `x` under invariant `d`: Newton-Raphson
/// from `y = d` until two iterates are within `CONVERGENCE_TOLERANCE`, then
/// settled on the exact integer. It is found whenever one exists in the
/// 64-bit range.
pub fn compute_balancing_reserve(x: u128, amplification: u64, d: u128) -> (r: Result<u128, AmmError>)
    requires
        x > 0,
        valid_amplification(amplification),
    ensures
        match r {
            Ok(y) => is_balancing_reserve(x as int, amplification as int, d as int, y as int),
            Err(e) => is_solver_failure(e),
        },
        x <= u64::MAX && d <= u64::MAX && curve(x as int, u64::MAX as int, amplification as int, d as int)
            >= 0 ==> r is Ok,
{
    let estimate = newton_balancing_reserve(x, amplification, d);
    settle_balancing_reserve(x, amplification, d, estimate)
}

/// What a fee-free input `amount_in` buys from reserves
/// `(reserve_in, reserve_out)`: the invariant is computed from the reserves
/// before the trade and held fixed while the output reserve is solved for.
pub fn compute_swap_output(reserve_in: u64, reserve_out: u64, amount_in: u64, amplification: u64) -> (r: Result<
    u64,
    AmmError,
>)
    requires
        reserve_in > 0,
        reserve_out > 0,
        valid_amplification(amplification),
    ensures
        match r {
            Ok(out) => 0 < out < reserve_out && is_swap_output(
                reserve_in as int,
                reserve_out as int,
                amount_in as int,
                amplification as int,
                out as int,
            ),
            Err(e) => is_solver_failure(e) || (e == AmmError::DegenerateSwap && is_swap_output(
                reserve_in as int,
                reserve_out as int,
                amount_in as int,
                amplification as int,
                0,
            )),
        },
        reserve_in + reserve_out < u64::MAX && reserve_in + amount_in <= u64::MAX ==> (r is Ok || r
            == Err::<u64, AmmError>(AmmError::DegenerateSwap)),
{
    let d = match compute_invariant(reserve_in, reserve_out, amplification) {
        Ok(v) => v,
        Err(e) => return Err(e),
    };
    let x_new: u128 = reserve_in as u128 + amount_in as u128;
    proof {
        lemma_invariant_at_most_sum(reserve_in as int, reserve_out as int, amplification as int, d as int);
        lemma_curve_monotone(
            reserve_in as int,
            reserve_out as int,
            d as int,
            x_new as int,
            u64::MAX as int,
            d as int,
            amplification as int,
        );
    }
    let y_new = match compute_balancing_reserve(x_new, amplification, d) {
        Ok(v) => v,
        Err(e) => return Err(e),
    };
    proof {
        lemma_balancing_reserve_bound(
            reserve_in as int,
            reserve_out as int,
            amplification as int,
            d as int,
            x_new as int,
            y_new as int,
        );
        assert(is_invariant(reserve_in as int, reserve_out as int, amplification as int, d as int));
    }
    if y_new >= reserve_out as u128 {
        return Err(AmmError::DegenerateSwap);
    }
    Ok((reserve_out as u128 - y_new) as u64)
}

} // verus!
