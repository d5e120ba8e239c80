//! Systems of two linear equations in two unknowns.

use crate::fixed::{
    lemma_quot_remainder, magnitude, quot, wide_mul, wide_quot, Fixed, FIXED_MAX, FIXED_MIN,
    ONE,
};
use vstd::prelude::*;

verus! {

/// Whether a wide integer is a scalar that has not reached either end of the range.
/// A scalar at an end of the range counts as infinite.
pub open spec fn is_finite(x: int) -> bool {
    FIXED_MIN < x < FIXED_MAX
}

/// The determinant of the matrix with rows `(a00, a01)` and `(a10, a11)` (its unit is
/// `ONE * ONE`).
pub open spec fn determinant(a00: Fixed, a01: Fixed, a10: Fixed, a11: Fixed) -> int {
    a00 * a11 - a01 * a10
}

/// The first unknown by Cramer's rule, rounded toward zero.
pub open spec fn cramer_first(a00: Fixed, a01: Fixed, a10: Fixed, a11: Fixed, b0: Fixed, b1: Fixed) -> int {
    quot((a11 * b0 - a01 * b1) * ONE, determinant(a00, a01, a10, a11))
}

/// The second unknown by Cramer's rule, rounded toward zero.
pub open spec fn cramer_second(a00: Fixed, a01: Fixed, a10: Fixed, a11: Fixed, b0: Fixed, b1: Fixed) -> int {
    quot((a00 * b1 - a10 * b0) * ONE, determinant(a00, a01, a10, a11))
}

/// The solution `(x0, x1)` of `a00 x0 + a01 x1 = b0`, `a10 x0 + a11 x1 = b1`, or nothing
/// where the matrix is singular or an unknown is not finite.
pub open spec fn linear_solution(
    a00: Fixed,
    a01: Fixed,
    a10: Fixed,
    a11: Fixed,
    b0: Fixed,
    b1: Fixed,
) -> Option<(Fixed, Fixed)> {
    let x0 = cramer_first(a00, a01, a10, a11, b0, b1);
    let x1 = cramer_second(a00, a01, a10, a11, b0, b1);
    if determinant(a00, a01, a10, a11) == 0 || !is_finite(x0) || !is_finite(x1) {
        None
    } else {
        Some((x0 as Fixed, x1 as Fixed))
    }
}

/// Whether a wide integer is a finite scalar.
pub fn wide_is_finite(x: i128) -> (r: bool)
    ensures
        r == is_finite(x as int),
{
    -2147483648 < x && x < 2147483647
}

/// Solves a system of two linear equations in two unknowns.
pub fn solve_linear_system_2x2(
    a00: Fixed,
    a01: Fixed,
    a10: Fixed,
    a11: Fixed,
    b0: Fixed,
    b1: Fixed,
) -> (r: Option<(Fixed, Fixed)>)
    ensures
        r == linear_solution(a00, a01, a10, a11, b0, b1),
{
    let det: i128 = wide_mul(a00, a11) - wide_mul(a01, a10);
    if det == 0 {
        return None;
    }
    let n0: i128 = (wide_mul(a11, b0) - wide_mul(a01, b1)) * 65536;
    let n1: i128 = (wide_mul(a00, b1) - wide_mul(a10, b0)) * 65536;
    let x0: i128 = wide_quot(n0, det);
    let x1: i128 = wide_quot(n1, det);
    if !wide_is_finite(x0) || !wide_is_finite(x1) {
        return None;
    }
    Some((x0 as i32, x1 as i32))
}

/// Cramer's rule: the determinants of the unknowns solve the system times the determinant.
pub proof fn lemma_cramer(a00: int, a01: int, a10: int, a11: int, b0: int, b1: int)
    by (nonlinear_arith)
    ensures
        a00 * (a11 * b0 - a01 * b1) + a01 * (a00 * b1 - a10 * b0) == b0 * (a00 * a11 - a01 * a10),
        a10 * (a11 * b0 - a01 * b1) + a11 * (a00 * b1 - a10 * b0) == b1 * (a00 * a11 - a01 * a10),
{
}

/// What is left of an equation in which Cramer's unknowns are rounded: the determinant
/// times the miss of the equation is the coefficients times the misses of the unknowns.
pub proof fn lemma_residual_identity(
    det: int,
    a: int,
    b: int,
    x0: int,
    x1: int,
    m0: int,
    m1: int,
    rhs: int,
    one: int,
)
    by (nonlinear_arith)
    requires
        a * m0 + b * m1 == rhs * det,
    ensures
        det * (a * x0 + b * x1 - rhs * one) == a * (det * x0 - m0 * one) + b * (det * x1 - m1
            * one),
{
    assert(det * (a * x0 + b * x1 - rhs * one) == det * (a * x0) + det * (b * x1) - det * (rhs
        * one));
    assert(a * (det * x0 - m0 * one) == det * (a * x0) - (a * m0) * one);
    assert(b * (det * x1 - m1 * one) == det * (b * x1) - (b * m1) * one);
    assert((a * m0) * one + (b * m1) * one == (rhs * det) * one);
    assert((rhs * det) * one == det * (rhs * one));
}

/// If `det * r == a * r0 + b * r1` with `r0` and `r1` below `det` in magnitude, then `r`
/// is below `|a| + |b|` in magnitude.
pub proof fn lemma_residual_bound(det: int, r: int, a: int, b: int, r0: int, r1: int)
    by (nonlinear_arith)
    requires
        det != 0,
        det * r == a * r0 + b * r1,
        -magnitude(det) < r0 < magnitude(det),
        -magnitude(det) < r1 < magnitude(det),
    ensures
        -(magnitude(a) + magnitude(b)) <= r <= magnitude(a) + magnitude(b),
        a == 0 && b == 0 ==> r == 0,
{
    let d = magnitude(det);
    let bound = magnitude(a) + magnitude(b);
    assert(magnitude(a * r0) <= magnitude(a) * d);
    assert(magnitude(b * r1) <= magnitude(b) * d);
    assert(magnitude(det * r) <= bound * d);
    assert(magnitude(det * r) == d * magnitude(r));
    if magnitude(r) > bound {
        assert(d * magnitude(r) >= d * (bound + 1));
    }
}

/// The solution that `linear_solution` finds solves the system to within rounding: put
/// into either equation, the two unknowns miss the right-hand side by no more than the
/// sum of the magnitudes of the equation's coefficients, in units of `1 / (ONE * ONE)`.
pub proof fn lemma_linear_solution_solves(a00: Fixed, a01: Fixed, a10: Fixed, a11: Fixed, b0: Fixed, b1: Fixed)
    requires
        linear_solution(a00, a01, a10, a11, b0, b1).is_some(),
    ensures
        ({
            let x = linear_solution(a00, a01, a10, a11, b0, b1).unwrap();
            &&& -(magnitude(a00 as int) + magnitude(a01 as int)) <= a00 * x.0 + a01 * x.1 - b0 * ONE
                <= magnitude(a00 as int) + magnitude(a01 as int)
            &&& -(magnitude(a10 as int) + magnitude(a11 as int)) <= a10 * x.0 + a11 * x.1 - b1 * ONE
                <= magnitude(a10 as int) + magnitude(a11 as int)
        }),
{
    let det = determinant(a00, a01, a10, a11);
    let n0 = (a11 * b0 - a01 * b1) * ONE;
    let n1 = (a00 * b1 - a10 * b0) * ONE;
    let x0 = cramer_first(a00, a01, a10, a11, b0, b1);
    let x1 = cramer_second(a00, a01, a10, a11, b0, b1);
    lemma_quot_remainder(n0, det);
    lemma_quot_remainder(n1, det);
    lemma_cramer(a00 as int, a01 as int, a10 as int, a11 as int, b0 as int, b1 as int);
    let r0 = det * x0 - n0;
    let r1 = det * x1 - n1;
    let m0 = a11 * b0 - a01 * b1;
    let m1 = a00 * b1 - a10 * b0;
    lemma_residual_identity(det, a00 as int, a01 as int, x0, x1, m0, m1, b0 as int, ONE as int);
    lemma_residual_identity(det, a10 as int, a11 as int, x0, x1, m0, m1, b1 as int, ONE as int);
    lemma_residual_bound(det, a00 * x0 + a01 * x1 - b0 * ONE, a00 as int, a01 as int, r0, r1);
    lemma_residual_bound(det, a10 * x0 + a11 * x1 - b1 * ONE, a10 as int, a11 as int, r0, r1);
}

} // verus!
