//! Integer helpers: square roots, truncating division and clamping.

use vstd::prelude::*;

verus! {

/// `r` is the integer square root of `n`: the largest natural number whose
/// square does not exceed `n`.
pub open spec fn is_floor_sqrt(n: nat, r: nat) -> bool {
    r * r <= n < (r + 1) * (r + 1)
}

/// The integer square root of `n`.
pub open spec fn floor_sqrt(n: nat) -> nat {
    choose|r: nat| is_floor_sqrt(n, r)
}

/// At most one number is the integer square root of `n`.
pub proof fn lemma_floor_sqrt_unique(n: nat, a: nat, b: nat)
    requires
        is_floor_sqrt(n, a),
        is_floor_sqrt(n, b),
    ensures
        a == b,
{
    if a < b {
        assert((a + 1) * (a + 1) <= b * b) by (nonlinear_arith)
            requires
                a + 1 <= b,
        ;
    }
    if b < a {
        assert((b + 1) * (b + 1) <= a * a) by (nonlinear_arith)
            requires
                b + 1 <= a,
        ;
    }
}

/// Every natural number has an integer square root, and `floor_sqrt` is it.
pub proof fn lemma_floor_sqrt_exists(n: nat)
    ensures
        is_floor_sqrt(n, floor_sqrt(n)),
    decreases n,
{
    if n == 0 {
        assert(is_floor_sqrt(0, 0)) by (nonlinear_arith);
    } else {
        lemma_floor_sqrt_exists((n - 1) as nat);
        let r = floor_sqrt((n - 1) as nat);
        if (r + 1) * (r + 1) <= n {
            assert((r + 2) * (r + 2) > (r + 1) * (r + 1)) by (nonlinear_arith);
            assert(is_floor_sqrt(n, r + 1));
        } else {
            assert(is_floor_sqrt(n, r));
        }
    }
}

/// Whoever satisfies the defining inequalities is the integer square root.
pub proof fn lemma_floor_sqrt_is(n: nat, r: nat)
    requires
        is_floor_sqrt(n, r),
    ensures
        floor_sqrt(n) == r,
{
    lemma_floor_sqrt_exists(n);
    lemma_floor_sqrt_unique(n, r, floor_sqrt(n));
}

/// Computes the integer square root by bisection.
pub fn isqrt(n: u128) -> (r: u64)
    ensures
        r as nat == floor_sqrt(n as nat),
        is_floor_sqrt(n as nat, r as nat),
{
    let mut low: u128 = 0;
    let mut high: u128 = 0x1_0000_0000_0000_0000;
    assert(0x1_0000_0000_0000_0000int * 0x1_0000_0000_0000_0000int > u128::MAX) by (nonlinear_arith);
    while high - low > 1
        invariant
            low < high <= 0x1_0000_0000_0000_0000,
            low * low <= n,
            n < high * high,
        decreases high - low,
    {
        let mid: u128 = low + (high - low) / 2;
        assert(mid * mid <= u128::MAX) by (nonlinear_arith)
            requires
                mid <= 0xffff_ffff_ffff_ffff,
        ;
        if mid * mid <= n {
            low = mid;
        } else {
            high = mid;
        }
    }
    proof {
        lemma_floor_sqrt_is(n as nat, low as nat);
    }
    low as u64
}

/// The quotient of `a` by a positive `b`, rounded toward zero.
pub open spec fn div_toward_zero(a: int, b: int) -> int {
    if a >= 0 {
        a / b
    } else {
        -((-a) / b)
    }
}

/// `v` moved into the closed interval from `low` to `high`.
pub open spec fn clamp(v: int, low: int, high: int) -> int {
    if v < low {
        low
    } else if v > high {
        high
    } else {
        v
    }
}

/// `v` moved into the range of `i32`.
pub open spec fn saturate(v: int) -> i32 {
    clamp(v, i32::MIN as int, i32::MAX as int) as i32
}

/// The negation of `v`, except that the least `i32` gives the greatest.
pub open spec fn negate(v: i32) -> i32 {
    saturate(-v)
}

/// Rounding toward zero never increases the magnitude, and keeps the sign.
pub proof fn lemma_div_toward_zero_bounds(a: int, b: int)
    requires
        b > 0,
    ensures
        a >= 0 ==> 0 <= div_toward_zero(a, b) <= a,
        a <= 0 ==> a <= div_toward_zero(a, b) <= 0,
        div_toward_zero(-a, b) == -div_toward_zero(a, b),
{
    if a >= 0 {
        assert(0 <= a / b <= a) by (nonlinear_arith)
            requires
                a >= 0,
                b > 0,
        ;
    } else {
        assert(0 <= (-a) / b <= -a) by (nonlinear_arith)
            requires
                -a >= 0,
                b > 0,
        ;
    }
}

/// Moves `v` into the range of `i32`.
pub fn saturate_i32(v: i128) -> (r: i32)
    ensures
        r == saturate(v as int),
{
    if v < i32::MIN as i128 {
        i32::MIN
    } else if v > i32::MAX as i128 {
        i32::MAX
    } else {
        v as i32
    }
}

/// The magnitude of `v`.
pub fn magnitude(v: i32) -> (r: u128)
    ensures
        r == if v >= 0 { v as int } else { -v },
{
    if v >= 0 {
        v as u128
    } else {
        (-(v as i64)) as u128
    }
}

/// Multiplies `value` by `factor` and divides by `divisor`, rounding toward
/// zero.
pub fn mul_div(value: i32, factor: u128, divisor: u128) -> (r: i128)
    requires
        divisor > 0,
        factor <= 0xffff_ffff_ffff_ffff_ffff_ffff,
    ensures
        r == div_toward_zero(value * factor, divisor as int),
        value >= 0 ==> r == (value * factor) / (divisor as int),
        value <= 0 ==> -r == ((-value) * factor) / (divisor as int),
{
    let m: u128 = magnitude(value);
    assert(m * factor <= 0x8000_0000 * 0xffff_ffff_ffff_ffff_ffff_ffff) by (nonlinear_arith)
        requires
            m <= 0x8000_0000,
            factor <= 0xffff_ffff_ffff_ffff_ffff_ffff,
    ;
    let product: u128 = m * factor;
    let quotient: u128 = product / divisor;
    assert(quotient <= product) by (nonlinear_arith)
        requires
            quotient == product / divisor,
            divisor > 0,
    ;
    if value >= 0 {
        assert(value * factor >= 0 && (-value) * factor == -(value * factor))
            by (nonlinear_arith)
            requires
                value >= 0,
                factor >= 0,
        ;
        quotient as i128
    } else {
        assert(value * factor == -(m * factor) && (-value) * factor == m * factor)
            by (nonlinear_arith)
            requires
                m == -value,
        ;
        -(quotient as i128)
    }
}

} // verus!
