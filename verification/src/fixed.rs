//! Scalars in signed 16.16 fixed point, with arithmetic that stops at the ends of the range.

use vstd::prelude::*;

verus! {

/// A scalar in signed 16.16 fixed point: the number `raw / 65536`.
pub type Fixed = i32;

/// The number one.
pub const ONE: Fixed = 65536;

/// The largest scalar; saturating arithmetic stops here, so it also stands for "unbounded".
pub const FIXED_MAX: Fixed = 2147483647;

/// The smallest scalar.
pub const FIXED_MIN: Fixed = -2147483648;

/// `x` brought into the range of a scalar.
pub open spec fn clamp(x: int) -> int {
    if x < FIXED_MIN {
        FIXED_MIN as int
    } else if x > FIXED_MAX {
        FIXED_MAX as int
    } else {
        x
    }
}

/// The magnitude of `x`.
pub open spec fn magnitude(x: int) -> int {
    if x < 0 {
        -x
    } else {
        x
    }
}

/// The quotient `a / b` rounded toward zero.
pub open spec fn quot(a: int, b: int) -> int
    recommends
        b != 0,
{
    if b > 0 {
        if a >= 0 {
            a / b
        } else {
            -((-a) / b)
        }
    } else {
        if a >= 0 {
            -(a / (-b))
        } else {
            (-a) / (-b)
        }
    }
}

/// The quotient `a / b` rounded away from zero, for a positive divisor.
pub open spec fn quot_away(a: int, b: int) -> int
    recommends
        b > 0,
{
    if a >= 0 {
        (a + b - 1) / b
    } else {
        -((-a + b - 1) / b)
    }
}

pub proof fn lemma_product_bound(a: int, b: int, m: int, n: int)
    by (nonlinear_arith)
    requires
        -m <= a <= m,
        -n <= b <= n,
    ensures
        -(m * n) <= a * b <= m * n,
{
}

/// The exact product of two scalars' raw values.
pub fn wide_mul(a: i32, b: i32) -> (r: i128)
    ensures
        r == a * b,
        -0x4000_0000_0000_0000 <= r <= 0x4000_0000_0000_0000,
{
    proof {
        lemma_product_bound(a as int, b as int, 0x8000_0000, 0x8000_0000);
    }
    (a as i128) * (b as i128)
}

/// The quotient of two wide integers, rounded toward zero.
pub fn wide_quot(a: i128, b: i128) -> (r: i128)
    requires
        b != 0,
        a > i128::MIN,
        b > i128::MIN,
    ensures
        r == quot(a as int, b as int),
{
    if b > 0 {
        if a >= 0 {
            a / b
        } else {
            -((-a) / b)
        }
    } else {
        if a >= 0 {
            -(a / (-b))
        } else {
            (-a) / (-b)
        }
    }
}

/// A wide integer brought into the range of a scalar.
pub fn saturate(x: i128) -> (r: Fixed)
    ensures
        r == clamp(x as int),
{
    if x < -2147483648 {
        FIXED_MIN
    } else if x > 2147483647 {
        FIXED_MAX
    } else {
        x as i32
    }
}

/// `x` brought into the range of a scalar, as a scalar.
pub open spec fn fx(x: int) -> Fixed {
    clamp(x) as Fixed
}

/// The sum of two scalars; it stops at the ends of the range.
pub fn fixed_add(a: Fixed, b: Fixed) -> (r: Fixed)
    ensures
        r == clamp(a + b),
{
    saturate(a as i128 + b as i128)
}

/// The difference of two scalars; it stops at the ends of the range.
pub fn fixed_sub(a: Fixed, b: Fixed) -> (r: Fixed)
    ensures
        r == clamp(a - b),
{
    saturate(a as i128 - b as i128)
}

/// The negation of a scalar; the smallest scalar goes to the largest.
pub fn fixed_neg(a: Fixed) -> (r: Fixed)
    ensures
        r == clamp(-a),
{
    saturate(-(a as i128))
}

/// The magnitude of a scalar; the smallest scalar goes to the largest.
pub fn fixed_abs(a: Fixed) -> (r: Fixed)
    ensures
        r == clamp(magnitude(a as int)),
{
    if a < 0 {
        saturate(-(a as i128))
    } else {
        a
    }
}

/// The product of two scalars, rounded toward zero; it stops at the ends of the range.
pub fn fixed_mul(a: Fixed, b: Fixed) -> (r: Fixed)
    ensures
        r == clamp(quot(a * b, ONE as int)),
{
    let wide: i128 = wide_mul(a, b);
    saturate(wide_quot(wide, ONE as i128))
}

/// The quotient of two scalars, rounded toward zero, or nothing when the divisor is zero;
/// it stops at the ends of the range.
pub fn fixed_div(a: Fixed, b: Fixed) -> (r: Option<Fixed>)
    ensures
        b == 0 <==> r is None,
        b != 0 ==> r == Some(fx(quot(a * ONE, b as int))),
{
    if b == 0 {
        None
    } else {
        let wide: i128 = wide_mul(a, ONE);
        Some(saturate(wide_quot(wide, b as i128)))
    }
}

/// The scalar that stands for a whole number; it stops at the ends of the range.
pub fn fixed_from_int(n: i32) -> (r: Fixed)
    ensures
        r == clamp(n * ONE),
{
    saturate(wide_mul(n, ONE))
}

/// Whether `r` is the square root of `n`, rounded down.
pub open spec fn is_floor_sqrt(n: int, r: int) -> bool {
    0 <= r && r * r <= n < (r + 1) * (r + 1)
}

/// The square root of `n`, rounded down.
pub open spec fn floor_sqrt(n: int) -> int {
    choose|r: int| is_floor_sqrt(n, r)
}

/// Squaring keeps the order of natural numbers.
pub proof fn lemma_square_monotone(a: int, b: int)
    by (nonlinear_arith)
    requires
        0 <= a <= b,
    ensures
        a * a <= b * b,
{
}

/// A number has at most one rounded-down square root.
pub proof fn lemma_floor_sqrt_unique(n: int, r1: int, r2: int)
    requires
        is_floor_sqrt(n, r1),
        is_floor_sqrt(n, r2),
    ensures
        r1 == r2,
{
    if r1 < r2 {
        lemma_square_monotone(r1 + 1, r2);
    } else if r2 < r1 {
        lemma_square_monotone(r2 + 1, r1);
    }
}

/// Whatever squares to at most `n` is at most the rounded-down square root of `n`.
pub proof fn lemma_floor_sqrt_lower(n: int, r: int, m: int)
    requires
        is_floor_sqrt(n, r),
        0 <= m,
        m * m <= n,
    ensures
        m <= r,
{
    if r < m {
        lemma_square_monotone(r + 1, m);
    }
}

/// Every natural number has a rounded-down square root, and `floor_sqrt` is it.
pub proof fn lemma_floor_sqrt_exists(n: int)
    requires
        n >= 0,
    ensures
        is_floor_sqrt(n, floor_sqrt(n)),
    decreases n,
{
    if n == 0 {
        assert(is_floor_sqrt(0, 0));
    } else {
        lemma_floor_sqrt_exists(n - 1);
        let r = floor_sqrt(n - 1);
        if (r + 1) * (r + 1) <= n {
            assert((r + 2) * (r + 2) > n) by (nonlinear_arith)
                requires
                    n - 1 < (r + 1) * (r + 1),
                    r >= 0,
            ;
            assert(is_floor_sqrt(n, r + 1));
        } else {
            assert(is_floor_sqrt(n, r));
        }
    }
}

/// The square root of `n`, rounded down.
pub fn int_sqrt(n: u128) -> (r: u128)
    ensures
        is_floor_sqrt(n as int, r as int),
        r == floor_sqrt(n as int),
        r < 0x1_0000_0000_0000_0000,
{
    let mut lo: u128 = 0;
    let mut hi: u128 = 0x1_0000_0000_0000_0000;
    assert(0x1_0000_0000_0000_0000int * 0x1_0000_0000_0000_0000int > n) by (nonlinear_arith)
        requires
            n < 0x1_0000_0000_0000_0000_0000_0000_0000_0000int,
    ;
    while hi - lo > 1
        invariant
            lo < hi <= 0x1_0000_0000_0000_0000,
            lo * lo <= n < hi * hi,
        decreases hi - lo,
    {
        let mid: u128 = lo + (hi - lo) / 2;
        proof {
            lemma_square_monotone(mid as int, 0xffff_ffff_ffff_ffff);
        }
        if mid * mid <= n {
            lo = mid;
        } else {
            hi = mid;
        }
    }
    proof {
        lemma_floor_sqrt_unique(n as int, lo as int, floor_sqrt(n as int));
    }
    lo
}

/// The quotient of a wide integer by a positive one, rounded away from zero.
pub fn wide_quot_away(a: i128, b: i128) -> (r: i128)
    requires
        b > 0,
        -0x2000_0000_0000_0000_0000_0000_0000_0000 <= a <= 0x2000_0000_0000_0000_0000_0000_0000_0000,
        b <= 0x2000_0000_0000_0000_0000_0000_0000_0000,
    ensures
        r == quot_away(a as int, b as int),
{
    if a >= 0 {
        (a + b - 1) / b
    } else {
        -((-a + b - 1) / b)
    }
}

/// A number that is at most `k` times a positive divisor has a rounded-up quotient of at
/// most `k`.
pub proof fn lemma_quot_away_bound(a: int, b: int, k: int)
    by (nonlinear_arith)
    requires
        b > 0,
        0 <= a <= k * b,
    ensures
        0 <= (a + b - 1) / b <= k,
{
}

/// Rounding away from zero does not shorten: the quotient times the divisor reaches the
/// dividend's magnitude, on the dividend's side of zero.
pub proof fn lemma_quot_away_reaches(a: int, b: int)
    by (nonlinear_arith)
    requires
        b > 0,
    ensures
        a >= 0 ==> quot_away(a, b) * b >= a && quot_away(a, b) >= 0,
        a <= 0 ==> quot_away(a, b) * b <= a && quot_away(a, b) <= 0,
        a == 0 ==> quot_away(a, b) == 0,
        quot_away(-a, b) == -quot_away(a, b),
{
}

/// The quotient of a number that is not negative by a positive one is not negative.
pub proof fn lemma_quot_sign(a: int, b: int)
    by (nonlinear_arith)
    requires
        b > 0,
        a >= 0,
    ensures
        quot(a, b) >= 0,
{
}

/// A number that is at most `top`, where `top` is below `m * b`, has a quotient by `b`
/// below `m`.
pub proof fn lemma_quot_below(a: int, top: int, b: int, m: int)
    by (nonlinear_arith)
    requires
        b > 0,
        0 <= a <= top,
        top < m * b,
    ensures
        0 <= quot(a, b) < m,
{
}

/// A larger factor gives a larger product with a number that is not negative.
pub proof fn lemma_product_grows(a: int, b: int, c: int)
    by (nonlinear_arith)
    requires
        a <= b,
        c >= 0,
    ensures
        a * c <= b * c,
{
}

/// A quotient rounded down, times its divisor, is the dividend or falls short of it by
/// less than the divisor.
pub proof fn lemma_quotient_brackets(a: int, b: int)
    by (nonlinear_arith)
    requires
        a >= 0,
        b > 0,
    ensures
        a - b < b * (a / b) <= a,
        0 <= a / b,
{
}

/// A quotient rounded toward zero, times its divisor, misses the dividend by less than
/// the divisor's magnitude.
pub proof fn lemma_quot_remainder(a: int, b: int)
    requires
        b != 0,
    ensures
        -magnitude(b) < b * quot(a, b) - a < magnitude(b),
{
    let ma = magnitude(a);
    let mb = magnitude(b);
    let q = ma / mb;
    lemma_quotient_brackets(ma, mb);
    assert(b * quot(a, b) - a == mb * q - ma || b * quot(a, b) - a == ma - mb * q)
        by (nonlinear_arith)
        requires
            b != 0,
            ma == magnitude(a),
            mb == magnitude(b),
            q == ma / mb,
            quot(a, b) == q || quot(a, b) == -q,
            (a >= 0) == (b > 0) ==> quot(a, b) == q,
            (a >= 0) != (b > 0) ==> quot(a, b) == -q,
    ;
}

/// A product of two numbers that are not negative is not negative.
pub proof fn lemma_product_sign(a: int, b: int)
    by (nonlinear_arith)
    ensures
        a >= 0 && b >= 0 ==> a * b >= 0,
{
}

} // verus!
