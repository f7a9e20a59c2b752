//! Fixed-point scalar arithmetic for the distance-field evaluator.
//!
//! All geometric quantities are carried as `i64` values scaled by `SCALE`:
//! one unit stands for `1/SCALE` in world space. The convergence threshold
//! of the raymarcher, `EPS`, is exactly one unit.

use vstd::prelude::*;

verus! {

/// One world-space unit in fixed-point representation.
pub const SCALE: i64 = 1000;

/// Convergence threshold of the raymarcher: one fixed-point unit.
pub const EPS: i64 = 1;

/// Mathematical minimum of two integers.
pub open spec fn min_spec(a: int, b: int) -> int {
    if a <= b { a } else { b }
}

/// Mathematical absolute value.
pub open spec fn abs_spec(a: int) -> int {
    if a >= 0 { a } else { -a }
}

/// Minimum of two fixed-point scalars.
pub fn fx_min(a: i64, b: i64) -> (r: i64)
    ensures
        r == min_spec(a as int, b as int),
{
    if a <= b { a } else { b }
}

/// Absolute value of a fixed-point scalar.
pub fn fx_abs(a: i64) -> (r: i64)
    requires
        a > i64::MIN,
    ensures
        r == abs_spec(a as int),
{
    if a >= 0 { a } else { -a }
}

/// Clamp a fixed-point scalar into `[lo, hi]`.
pub open spec fn clamp_spec(v: int, lo: int, hi: int) -> int {
    if v < lo { lo } else if v > hi { hi } else { v }
}

/// Clamp a fixed-point scalar into `[lo, hi]`.
pub fn fx_clamp(v: i64, lo: i64, hi: i64) -> (r: i64)
    requires
        lo <= hi,
    ensures
        r == clamp_spec(v as int, lo as int, hi as int),
        lo <= r <= hi,
{
    if v < lo { lo } else if v > hi { hi } else { v }
}

/// Truncating division (rounds toward zero), as hardware division does.
pub open spec fn tdiv_spec(a: int, b: int) -> int
    recommends
        b > 0,
{
    if a >= 0 { a / b } else { -((-a) / b) }
}

/// Truncating division shrinks a bound on the numerator by the divisor.
pub proof fn lemma_tdiv_bound(a: int, b: int, m: int)
    requires
        b > 0,
        0 <= m,
        abs_spec(a) <= m,
    ensures
        abs_spec(tdiv_spec(a, b)) <= m / b,
        -(m / b) <= tdiv_spec(a, b) <= m / b,
{
    vstd::arithmetic::div_mod::lemma_div_pos_is_pos(abs_spec(a), b);
    vstd::arithmetic::div_mod::lemma_div_is_ordered(abs_spec(a), m, b);
    if a >= 0 {
        vstd::arithmetic::div_mod::lemma_div_pos_is_pos(a, b);
    } else {
        vstd::arithmetic::div_mod::lemma_div_pos_is_pos(-a, b);
    }
}

/// Truncating division of fixed-point scalars.
pub fn fx_tdiv(a: i64, b: i64) -> (r: i64)
    requires
        b > 0,
        a > i64::MIN,
    ensures
        r == tdiv_spec(a as int, b as int),
        abs_spec(r as int) == abs_spec(a as int) / (b as int),
        abs_spec(r as int) <= abs_spec(a as int),
{
    proof {
        vstd::arithmetic::div_mod::lemma_div_pos_is_pos(abs_spec(a as int), b as int);
        vstd::arithmetic::div_mod::lemma_div_is_ordered_by_denominator(abs_spec(a as int), 1, b as int);
        vstd::arithmetic::div_mod::lemma_div_basics(abs_spec(a as int));
    }
    if a >= 0 {
        a / b
    } else {
        let neg: i64 = -a;
        -(neg / b)
    }
}

/// Largest input accepted by `isqrt` (three squared coordinates fit below it).
pub const ISQRT_INPUT_LIMIT: i64 = 8_000_000_000_000_000_000;

/// Floor of the square root, defined by counting up.
pub open spec fn isqrt_spec(n: int) -> int
    decreases n,
{
    if n <= 0 {
        0
    } else {
        let p = isqrt_spec(n - 1);
        if (p + 1) * (p + 1) <= n {
            p + 1
        } else {
            p
        }
    }
}

/// Squaring is monotonic on the non-negative integers.
pub proof fn lemma_square_monotonic(a: int, b: int)
    requires
        0 <= a <= b,
    ensures
        a * a <= b * b,
{
    assert(a * a <= b * b) by (nonlinear_arith)
        requires
            0 <= a <= b,
    ;
}

/// `isqrt_spec(n)` is the floor of the square root of `n`.
pub proof fn lemma_isqrt_spec_bounds(n: int)
    requires
        n >= 0,
    ensures
        isqrt_spec(n) >= 0,
        isqrt_spec(n) * isqrt_spec(n) <= n,
        n < (isqrt_spec(n) + 1) * (isqrt_spec(n) + 1),
    decreases n,
{
    if n == 0 {
        assert(isqrt_spec(0) == 0);
    } else {
        lemma_isqrt_spec_bounds(n - 1);
        let p = isqrt_spec(n - 1);
        if (p + 1) * (p + 1) <= n {
            assert((p + 2) * (p + 2) > n) by (nonlinear_arith)
                requires
                    p >= 0,
                    n - 1 < (p + 1) * (p + 1),
                    (p + 1) * (p + 1) <= n,
            ;
        }
    }
}

/// The floor square root is the unique `r >= 0` with `r*r <= n < (r+1)*(r+1)`.
pub proof fn lemma_isqrt_unique(n: int, r: int)
    requires
        n >= 0,
        r >= 0,
        r * r <= n,
        n < (r + 1) * (r + 1),
    ensures
        r == isqrt_spec(n),
{
    lemma_isqrt_spec_bounds(n);
    let s = isqrt_spec(n);
    if r < s {
        lemma_square_monotonic(r + 1, s);
        assert(false);
    } else if s < r {
        lemma_square_monotonic(s + 1, r);
        assert(false);
    }
}

/// The floor square root is monotonic.
pub proof fn lemma_isqrt_monotonic(m: int, n: int)
    requires
        0 <= m <= n,
    ensures
        isqrt_spec(m) <= isqrt_spec(n),
{
    lemma_isqrt_spec_bounds(m);
    lemma_isqrt_spec_bounds(n);
    if isqrt_spec(m) > isqrt_spec(n) {
        lemma_square_monotonic(isqrt_spec(n) + 1, isqrt_spec(m));
        assert(false);
    }
}

/// The floor square root of a perfect square is its root.
pub proof fn lemma_isqrt_square(a: int)
    requires
        a >= 0,
    ensures
        isqrt_spec(a * a) == a,
{
    assert(a * a >= 0 && a * a < (a + 1) * (a + 1)) by (nonlinear_arith)
        requires
            a >= 0,
    ;
    lemma_isqrt_unique(a * a, a);
}

/// Integer square root by bisection.
pub fn isqrt(n: i64) -> (r: i64)
    requires
        0 <= n <= ISQRT_INPUT_LIMIT,
    ensures
        r == isqrt_spec(n as int),
        r >= 0,
        r * r <= n,
        n < (r + 1) * (r + 1),
{
    let mut lo: i64 = 0;
    let mut hi: i64 = 3_000_000_000;
    proof {
        assert((hi + 1) * (hi + 1) > n);
    }
    while lo < hi
        invariant
            0 <= lo <= hi <= 3_000_000_000,
            lo * lo <= n,
            n < (hi + 1) * (hi + 1),
            n <= ISQRT_INPUT_LIMIT,
        decreases hi - lo,
    {
        let mid: i64 = lo + (hi - lo + 1) / 2;
        proof {
            assert(mid * mid <= 9_000_000_000_000_000_000) by (nonlinear_arith)
                requires
                    0 <= mid <= 3_000_000_000,
            ;
        }
        if mid * mid <= n {
            lo = mid;
        } else {
            hi = mid - 1;
        }
    }
    proof {
        lemma_isqrt_unique(n as int, lo as int);
    }
    lo
}

/// Largest blend radius the smooth-minimum combinator accepts.
pub const BLEND_LIMIT: i64 = 1_000_000;

/// Largest magnitude of a distance value fed to the smooth minimum.
pub const DIST_LIMIT: i64 = 2_000_000_000;

/// Polynomial smooth minimum with blend radius `k`: equal to `min(a, b)`
/// when the operands are at least `k` apart, and otherwise dipping below
/// it by `(k - |a - b|)^2 / (4k)`, which rounds the seam between the two
/// shapes. Equivalent to the classic `mix(b, a, h) - k*h*(1-h)` form with
/// `h = clamp(1/2 + (b - a)/(2k), 0, 1)`.
pub open spec fn smoothmin_spec(a: int, b: int, k: int) -> int
    recommends
        k > 0,
{
    let m = min_spec(a, b);
    let d = abs_spec(a - b);
    if d >= k {
        m
    } else {
        m - (k - d) * (k - d) / (4 * k)
    }
}

/// For every positive blend radius `k`, the smooth minimum never exceeds
/// the true minimum, stays within `k/4` of it, and coincides with it
/// exactly as soon as the operands are at least `k` apart — so as `k`
/// tends to zero the combinator tends to `min(a, b)`.
pub proof fn lemma_smoothmin_bounds(a: int, b: int, k: int)
    requires
        k > 0,
    ensures
        smoothmin_spec(a, b, k) <= min_spec(a, b),
        min_spec(a, b) - k / 4 <= smoothmin_spec(a, b, k),
        abs_spec(a - b) >= k ==> smoothmin_spec(a, b, k) == min_spec(a, b),
{
    let d = abs_spec(a - b);
    if d < k {
        let c = k - d;
        let t = c * c / (4 * k);
        assert(c * c >= 0) by (nonlinear_arith)
            requires
                c > 0,
        ;
        vstd::arithmetic::div_mod::lemma_div_pos_is_pos(c * c, 4 * k);
        lemma_square_monotonic(c, k);
        vstd::arithmetic::div_mod::lemma_div_is_ordered(c * c, k * k, 4 * k);
        vstd::arithmetic::div_mod::lemma_div_multiples_vanish_quotient(k, k, 4);
        assert(k * 4 == 4 * k);
        assert(t <= k / 4);
    }
}

/// Integer division respects cross-multiplied ordering.
proof fn lemma_div_cross(a: int, b: int, c: int, d: int)
    requires
        0 <= a,
        0 <= c,
        0 < b,
        0 < d,
        a * d <= c * b,
    ensures
        a / b <= c / d,
{
    vstd::arithmetic::div_mod::lemma_fundamental_div_mod(a, b);
    vstd::arithmetic::div_mod::lemma_fundamental_div_mod(c, d);
    vstd::arithmetic::div_mod::lemma_div_pos_is_pos(a, b);
    vstd::arithmetic::div_mod::lemma_div_pos_is_pos(c, d);
    assert(a / b <= c / d) by (nonlinear_arith)
        requires
            a == b * (a / b) + a % b,
            0 <= a % b < b,
            c == d * (c / d) + c % d,
            0 <= c % d < d,
            a * d <= c * b,
            0 < b,
            0 < d,
            0 <= a / b,
            0 <= c / d,
    ;
}

/// The smooth minimum is monotonically non-increasing in the blend
/// radius: widening the blend can only deepen the seam, and it is
/// continuous in the sense that the dip below `min(a, b)` is bounded by
/// a quarter of the radius.
pub proof fn lemma_smoothmin_monotonic(a: int, b: int, k1: int, k2: int)
    requires
        0 < k1 <= k2,
    ensures
        smoothmin_spec(a, b, k2) <= smoothmin_spec(a, b, k1),
{
    let d = abs_spec(a - b);
    lemma_smoothmin_bounds(a, b, k1);
    lemma_smoothmin_bounds(a, b, k2);
    if d < k1 {
        let t1 = (k1 - d) * (k1 - d) / (4 * k1);
        let t2 = (k2 - d) * (k2 - d) / (4 * k2);
        assert((k1 - d) * (k1 - d) * (4 * k2) <= (k2 - d) * (k2 - d) * (4 * k1))
            by (nonlinear_arith)
            requires
                0 <= d < k1 <= k2,
        ;
        assert((k1 - d) * (k1 - d) >= 0) by (nonlinear_arith);
        assert((k2 - d) * (k2 - d) >= 0) by (nonlinear_arith);
        lemma_div_cross((k1 - d) * (k1 - d), 4 * k1, (k2 - d) * (k2 - d), 4 * k2);
        assert(t1 <= t2);
    }
}

/// Smooth minimum of two fixed-point distances.
pub fn smoothmin(a: i64, b: i64, k: i64) -> (r: i64)
    requires
        0 < k <= BLEND_LIMIT,
        -DIST_LIMIT <= a <= DIST_LIMIT,
        -DIST_LIMIT <= b <= DIST_LIMIT,
    ensures
        r == smoothmin_spec(a as int, b as int, k as int),
        r <= min_spec(a as int, b as int),
        min_spec(a as int, b as int) - k / 4 <= r,
{
    proof {
        lemma_smoothmin_bounds(a as int, b as int, k as int);
    }
    let m = fx_min(a, b);
    let d = fx_abs(a - b);
    if d >= k {
        m
    } else {
        let c = k - d;
        proof {
            assert(c * c <= BLEND_LIMIT * BLEND_LIMIT) by (nonlinear_arith)
                requires
                    0 < c <= BLEND_LIMIT,
            ;
        }
        let t = c * c / (4 * k);
        m - t
    }
}

} // verus!
