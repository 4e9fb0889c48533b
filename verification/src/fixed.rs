//! Fixed-point numbers: integers counted in thousandths, with the handful of
//! operations the simulation needs and the facts about them that the rest of
//! the crate leans on.

use vstd::prelude::*;

verus! {

/// Thousandths in one whole unit.
pub const UNIT: i64 = 1000;

/// Largest magnitude of a coordinate or of a speed component, in thousandths.
/// Whatever would leave the range `-LIMIT ..= LIMIT` is held at its edge.
pub const LIMIT: i64 = 1_000_000_000_000_000;

/// Microseconds in one second.
pub const MICROS_PER_SECOND: i64 = 1_000_000;

/// Quotient of `a` by a positive `b`, rounded toward zero.
pub open spec fn div_trunc(a: int, b: int) -> int {
    if a >= 0 {
        a / b
    } else {
        -((-a) / b)
    }
}

/// `a` times `factor` thousandths, rounded toward zero.
pub open spec fn scaled(a: int, factor: int) -> int {
    div_trunc(a * factor, UNIT as int)
}

/// What a rate of `rate` per second amounts to over `dt` microseconds,
/// rounded toward zero.
pub open spec fn over_time(rate: int, dt: int) -> int {
    div_trunc(rate * dt, MICROS_PER_SECOND as int)
}

/// `v` held inside `-LIMIT ..= LIMIT`.
pub open spec fn clamped(v: int) -> int {
    if v > LIMIT {
        LIMIT as int
    } else if v < -LIMIT {
        -LIMIT
    } else {
        v
    }
}

/// Whether `v` lies inside `-LIMIT ..= LIMIT`.
pub open spec fn in_limit(v: int) -> bool {
    -LIMIT <= v <= LIMIT
}

/// `r` is the integer square root of `n`: the largest `r` with `r * r <= n`.
pub open spec fn is_sqrt(n: int, r: int) -> bool {
    0 <= r && r * r <= n && n < (r + 1) * (r + 1)
}

/// The integer square root of `n`, for `n >= 0`.
pub open spec fn sqrt_floor(n: int) -> int {
    choose|r: int| is_sqrt(n, r)
}

/// Blend of `from` and `to`: `from` moved `weight` thousandths of the way
/// toward `to`.
pub open spec fn lerped(from: int, to: int, weight: int) -> int {
    from + scaled(to - from, weight)
}

/// Two integer square roots of one number are the same number.
pub proof fn lemma_sqrt_unique(n: int, a: int, b: int)
    requires
        is_sqrt(n, a),
        is_sqrt(n, b),
    ensures
        a == b,
{
    if a < b {
        assert((a + 1) * (a + 1) <= b * b) by (nonlinear_arith)
            requires
                0 <= a,
                a + 1 <= b,
        ;
    } else if b < a {
        assert((b + 1) * (b + 1) <= a * a) by (nonlinear_arith)
            requires
                0 <= b,
                b + 1 <= a,
        ;
    }
}

/// Every number from zero up has an integer square root, and `sqrt_floor`
/// is it.
pub proof fn lemma_sqrt_exists(n: int)
    requires
        n >= 0,
    ensures
        is_sqrt(n, sqrt_floor(n)),
    decreases n,
{
    if n == 0 {
        assert(is_sqrt(0, 0));
    } else {
        lemma_sqrt_exists(n - 1);
        let r = sqrt_floor(n - 1);
        if (r + 1) * (r + 1) <= n {
            assert((r + 1) * (r + 1) == n);
            assert(n < (r + 2) * (r + 2)) by (nonlinear_arith)
                requires
                    (r + 1) * (r + 1) == n,
                    r >= 0,
            ;
            assert(is_sqrt(n, r + 1));
        } else {
            assert(r * r <= n);
            assert(is_sqrt(n, r));
        }
    }
}

/// Whatever passes for the integer square root of `n` is `sqrt_floor(n)`.
pub proof fn lemma_sqrt_is(n: int, r: int)
    requires
        is_sqrt(n, r),
    ensures
        sqrt_floor(n) == r,
{
    lemma_sqrt_unique(n, sqrt_floor(n), r);
}

/// A number below the square of `top + 1` has no square root above `top`.
pub proof fn lemma_sqrt_bound(n: int, r: int, top: int)
    requires
        is_sqrt(n, r),
        0 <= top,
        n < (top + 1) * (top + 1),
    ensures
        r <= top,
{
    if r > top {
        assert((top + 1) * (top + 1) <= r * r) by (nonlinear_arith)
            requires
                0 <= top,
                top + 1 <= r,
        ;
    }
}

/// Truncating division never moves a value away from zero, and keeps its
/// sign.
pub proof fn lemma_div_trunc_bounds(a: int, b: int)
    requires
        b > 0,
    ensures
        a >= 0 ==> 0 <= div_trunc(a, b) <= a,
        a <= 0 ==> a <= div_trunc(a, b) <= 0,
        b * div_trunc(a, b) <= a || a < 0,
        b * div_trunc(a, b) >= a || a > 0,
{
    if a >= 0 {
        assert(0 <= a / b <= a && b * (a / b) <= a) by (nonlinear_arith)
            requires
                a >= 0,
                b > 0,
        ;
    } else {
        let m = -a;
        assert(0 <= m / b <= m && b * (m / b) <= m) by (nonlinear_arith)
            requires
                m >= 0,
                b > 0,
        ;
        assert(b * (-(m / b)) == -(b * (m / b))) by (nonlinear_arith);
    }
}

/// Truncating division by a positive number keeps the order of its
/// arguments.
pub proof fn lemma_div_trunc_monotone(a: int, c: int, b: int)
    requires
        b > 0,
        a <= c,
    ensures
        div_trunc(a, b) <= div_trunc(c, b),
{
    if a >= 0 {
        assert(a / b <= c / b) by (nonlinear_arith)
            requires
                0 <= a <= c,
                b > 0,
        ;
    } else if c >= 0 {
        lemma_div_trunc_bounds(a, b);
        lemma_div_trunc_bounds(c, b);
    } else {
        let m = -a;
        let k = -c;
        assert(k / b <= m / b) by (nonlinear_arith)
            requires
                0 <= k <= m,
                b > 0,
        ;
    }
}

/// Dividing a multiple of `b` by `b` gives the factor back.
pub proof fn lemma_div_trunc_multiple(a: int, b: int)
    requires
        b > 0,
    ensures
        div_trunc(a * b, b) == a,
{
    if a >= 0 {
        assert(a * b >= 0 && (a * b) / b == a) by (nonlinear_arith)
            requires
                a >= 0,
                b > 0,
        ;
    } else {
        let m = -a;
        assert(a * b < 0 && -(a * b) == m * b && (m * b) / b == m) by (nonlinear_arith)
            requires
                m > 0,
                b > 0,
                m == -a,
        ;
    }
}

/// A blend lies between the two values blended.
pub proof fn lemma_lerped_between(from: int, to: int, weight: int)
    requires
        0 <= weight <= UNIT,
    ensures
        from <= to ==> from <= lerped(from, to, weight) <= to,
        to <= from ==> to <= lerped(from, to, weight) <= from,
{
    let d = to - from;
    lemma_div_trunc_multiple(d, UNIT as int);
    if d >= 0 {
        assert(0 <= d * weight <= d * 1000) by (nonlinear_arith)
            requires
                d >= 0,
                0 <= weight <= 1000,
        ;
        lemma_div_trunc_monotone(d * weight, d * 1000, UNIT as int);
        lemma_div_trunc_bounds(d * weight, UNIT as int);
    } else {
        assert(d * 1000 <= d * weight <= 0) by (nonlinear_arith)
            requires
                d < 0,
                0 <= weight <= 1000,
        ;
        lemma_div_trunc_monotone(d * 1000, d * weight, UNIT as int);
        lemma_div_trunc_bounds(d * weight, UNIT as int);
    }
}

/// What a rate amounts to over a stretch of time is no larger than the
/// rate times the microseconds, and has the sign of the rate.
pub proof fn lemma_over_time_bounds(rate: int, dt: int)
    requires
        dt >= 0,
    ensures
        rate >= 0 ==> 0 <= over_time(rate, dt) <= rate * dt,
        rate <= 0 ==> rate * dt <= over_time(rate, dt) <= 0,
{
    assert((rate >= 0 ==> rate * dt >= 0) && (rate <= 0 ==> rate * dt <= 0)) by (nonlinear_arith)
        requires
            dt >= 0,
    ;
    lemma_div_trunc_bounds(rate * dt, MICROS_PER_SECOND as int);
}

/// Quotient of `a` by `b`, rounded toward zero.
pub fn quotient(a: i128, b: i128) -> (q: i128)
    requires
        b > 0,
        a > i128::MIN,
    ensures
        q == div_trunc(a as int, b as int),
{
    proof {
        lemma_div_trunc_bounds(a as int, b as int);
    }
    if a >= 0 {
        a / b
    } else {
        let m: i128 = -a;
        let q: i128 = m / b;
        -q
    }
}

/// Product of two 64-bit numbers, which always fits in 128 bits.
pub fn product(a: i64, b: i64) -> (p: i128)
    ensures
        p == a * b,
        -0x4000_0000_0000_0000_0000_0000_0000_0000 <= p <= 0x4000_0000_0000_0000_0000_0000_0000_0000,
{
    assert(-0x4000_0000_0000_0000_0000_0000_0000_0000 <= a * b
        <= 0x4000_0000_0000_0000_0000_0000_0000_0000) by (nonlinear_arith)
        requires
            -0x8000_0000_0000_0000 <= a <= 0x8000_0000_0000_0000,
            -0x8000_0000_0000_0000 <= b <= 0x8000_0000_0000_0000,
    ;
    (a as i128) * (b as i128)
}

/// `v` held inside `-LIMIT ..= LIMIT`.
pub fn clamp(v: i128) -> (r: i64)
    ensures
        r == clamped(v as int),
        in_limit(r as int),
{
    if v > LIMIT as i128 {
        LIMIT
    } else if v < -(LIMIT as i128) {
        -LIMIT
    } else {
        v as i64
    }
}

/// `a` times `factor` thousandths, rounded toward zero.
pub fn scale(a: i64, factor: i64) -> (r: i128)
    ensures
        r == scaled(a as int, factor as int),
{
    quotient(product(a, factor), UNIT as i128)
}

/// What a rate of `rate` per second amounts to over `dt` microseconds.
pub fn rate_over(rate: i64, dt: u64) -> (r: i128)
    requires
        -LIMIT <= rate <= LIMIT,
    ensures
        r == over_time(rate as int, dt as int),
{
    assert(-0x4000_0000_0000_0000_0000_0000_0000_0000 <= rate * dt
        <= 0x4000_0000_0000_0000_0000_0000_0000_0000) by (nonlinear_arith)
        requires
            -0x4_0000_0000_0000 <= rate <= 0x4_0000_0000_0000,
            0 <= dt <= 0x1_0000_0000_0000_0000,
    ;
    quotient((rate as i128) * (dt as i128), MICROS_PER_SECOND as i128)
}

/// Blend of `from` and `to`, `weight` thousandths of the way toward `to`.
pub fn lerp(from: i64, to: i64, weight: i64) -> (r: i128)
    requires
        in_limit(from as int),
        in_limit(to as int),
    ensures
        r == lerped(from as int, to as int, weight as int),
{
    let d: i64 = to - from;
    let s: i128 = scale(d, weight);
    proof {
        lemma_div_trunc_bounds(d * weight, UNIT as int);
        assert(-0x4000_0000_0000_0000_0000_0000_0000_0000 <= d * weight
            <= 0x4000_0000_0000_0000_0000_0000_0000_0000) by (nonlinear_arith)
            requires
                -0x8000_0000_0000_0000 <= d <= 0x8000_0000_0000_0000,
                -0x8000_0000_0000_0000 <= weight <= 0x8000_0000_0000_0000,
        ;
    }
    (from as i128) + s
}

/// The integer square root of `n`.
pub fn isqrt(n: u128) -> (r: u64)
    requires
        n < 0x1000_0000_0000_0000_0000_0000_0000_0000,
    ensures
        is_sqrt(n as int, r as int),
        r == sqrt_floor(n as int),
        r < 0x4000_0000_0000_0000,
{
    let mut lo: u128 = 0;
    let mut hi: u128 = 0x4000_0000_0000_0000;
    assert(0x4000_0000_0000_0000int * 0x4000_0000_0000_0000int
        == 0x1000_0000_0000_0000_0000_0000_0000_0000int) by (nonlinear_arith);
    while hi - lo > 1
        invariant
            lo < hi <= 0x4000_0000_0000_0000,
            lo * lo <= n,
            n < hi * hi,
        decreases hi - lo,
    {
        let mid: u128 = lo + (hi - lo) / 2;
        assert(mid * mid < 0x1000_0000_0000_0000_0000_0000_0000_0000) by (nonlinear_arith)
            requires
                0 <= mid < 0x4000_0000_0000_0000,
        ;
        if mid * mid <= n {
            lo = mid;
        } else {
            hi = mid;
        }
    }
    proof {
        lemma_sqrt_is(n as int, lo as int);
    }
    lo as u64
}

} // verus!
