//! Fixed-point helpers for the animation engine.
//!
//! The engine works in integer units throughout:
//! - angles in tenths of a degree (a full turn is 3600),
//! - fractions in thousandths (per-mille, 1000 = 1.0),
//! - time in milliseconds.
//!
//! `sin1000` is a rational approximation of the sine wave scaled by 1000,
//! exact at the quarter-turn points; `wave1000` is the same wave lifted to
//! the range [0, 2000] so that purely unsigned formulas can use it.

use vstd::prelude::*;

verus! {

/// Sine approximation on the first half-turn, scaled by 1000.
/// `x` is an angle in tenth-degrees, `0 <= x <= 1800`.
pub open spec fn half_sine1000(x: int) -> int {
    4000 * (x * (1800 - x)) / (4050000 - x * (1800 - x))
}

/// Full-circle sine scaled by 1000: the angle is reduced modulo one turn,
/// the second half-turn mirrors the first with negative sign.
pub open spec fn sin1000_spec(a: int) -> int {
    let p = a % 3600;
    if p < 1800 {
        half_sine1000(p)
    } else {
        -half_sine1000(p - 1800)
    }
}

/// Sine shifted and scaled so that the result lies in [0, 2000]:
/// `wave1000(a) == 1000 + sin1000(a)`.
pub open spec fn wave1000_spec(a: int) -> int {
    1000 + sin1000_spec(a)
}

proof fn lemma_hump_bound(x: int)
    by (nonlinear_arith)
    requires
        0 <= x <= 1800,
    ensures
        0 <= x * (1800 - x) <= 810000,
{
}

proof fn lemma_half_sine_range(x: int)
    requires
        0 <= x <= 1800,
    ensures
        0 <= half_sine1000(x) <= 1000,
{
    lemma_hump_bound(x);
    let u = x * (1800 - x);
    assert(4000 * u / (4050000 - u) <= 1000) by (nonlinear_arith)
        requires
            0 <= u <= 810000,
    ;
    assert(4000 * u / (4050000 - u) >= 0) by (nonlinear_arith)
        requires
            0 <= u <= 810000,
    ;
}

/// The sine wave never leaves [-1000, 1000].
pub proof fn lemma_sin1000_range(a: int)
    requires
        a >= 0,
    ensures
        -1000 <= sin1000_spec(a) <= 1000,
        0 <= wave1000_spec(a) <= 2000,
{
    let p = a % 3600;
    if p < 1800 {
        lemma_half_sine_range(p);
    } else {
        lemma_half_sine_range(p - 1800);
    }
}

fn half_sine_exec(x: u32) -> (r: u32)
    requires
        x <= 1800,
    ensures
        r == half_sine1000(x as int),
        r <= 1000,
{
    proof {
        lemma_hump_bound(x as int);
        lemma_half_sine_range(x as int);
    }
    let u: u32 = x * (1800 - x);
    let num: u64 = 4000u64 * (u as u64);
    let den: u64 = 4050000u64 - (u as u64);
    let q: u64 = num / den;
    assert(q == half_sine1000(x as int));
    q as u32
}

/// Sine of an angle in tenth-degrees, scaled by 1000.
pub fn sin1000(a: u64) -> (r: i32)
    ensures
        r == sin1000_spec(a as int),
        -1000 <= r <= 1000,
{
    let p: u32 = (a % 3600) as u32;
    if p < 1800 {
        let h = half_sine_exec(p);
        h as i32
    } else {
        let h = half_sine_exec(p - 1800);
        0i32 - (h as i32)
    }
}

/// Sine lifted to [0, 2000]: `wave1000(a) == 1000 + sin1000(a)`.
pub fn wave1000(a: u64) -> (r: u32)
    ensures
        r == wave1000_spec(a as int),
        r <= 2000,
{
    let s = sin1000(a);
    (1000 + s) as u32
}

/// Absolute difference of two naturals.
pub open spec fn abs_diff_spec(a: int, b: int) -> int {
    if a >= b {
        a - b
    } else {
        b - a
    }
}

/// Absolute difference, total on all of `u64`.
pub fn abs_diff(a: u64, b: u64) -> (r: u64)
    ensures
        r == abs_diff_spec(a as int, b as int),
{
    if a >= b {
        a - b
    } else {
        b - a
    }
}

/// Integer square root: the greatest `r` with `r * r <= n`.
pub fn isqrt64(n: u64) -> (r: u64)
    ensures
        r * r <= n,
        (r + 1) * (r + 1) > n,
        r <= 4294967295,
{
    let mut lo: u64 = 0;
    let mut hi: u64 = 4294967296;
    proof {
        assert((4294967296int) * (4294967296int) > n);
    }
    while lo + 1 < hi
        invariant
            lo < hi <= 4294967296,
            (lo as int) * (lo as int) <= n,
            (hi as int) * (hi as int) > n,
        decreases hi - lo,
    {
        let mid: u64 = lo + (hi - lo) / 2;
        assert(mid * mid <= 18446744065119617025u64) by (nonlinear_arith)
            requires
                mid <= 4294967295u64,
        ;
        if mid * mid <= n {
            lo = mid;
        } else {
            hi = mid;
        }
    }
    lo
}

/// A decaying bell-shaped falloff standing in for `exp(-z)`, in
/// thousandths: 1000 at `z == 0`, strictly below as `z` (also in
/// thousandths) grows, approaching 0.
pub open spec fn gauss1000_spec(z: int) -> int {
    1000000int / (1000 + z + z * z / 2000)
}

/// Falloff helper: `1000` at zero, decaying toward `0` as `z` grows.
pub fn gauss1000(z: u64) -> (r: u64)
    requires
        z <= 2000000,
    ensures
        r == gauss1000_spec(z as int),
        r <= 1000,
{
    assert(z * z <= 4000000000000u64) by (nonlinear_arith)
        requires
            z <= 2000000,
    ;
    assert(z * z >= 0) by (nonlinear_arith);
    let den: u64 = 1000 + z + z * z / 2000;
    assert(1000000int / (den as int) <= 1000) by (nonlinear_arith)
        requires
            den >= 1000,
    ;
    1000000 / den
}

/// `r` is the integer square root of `n`.
pub open spec fn is_sqrt(n: int, r: int) -> bool {
    r >= 0 && r * r <= n && (r + 1) * (r + 1) > n
}

/// Mathematical integer square root (greatest `r` with `r * r <= n`).
pub open spec fn sqrt_int(n: int) -> int {
    choose|r: int| is_sqrt(n, r)
}

pub proof fn lemma_sqrt_int_unique(n: int, r: int)
    requires
        r >= 0,
        r * r <= n,
        (r + 1) * (r + 1) > n,
    ensures
        sqrt_int(n) == r,
{
    assert(is_sqrt(n, r));
    let q = choose|q: int| is_sqrt(n, q);
    assert(q == r) by (nonlinear_arith)
        requires
            q >= 0,
            q * q <= n,
            (q + 1) * (q + 1) > n,
            r >= 0,
            r * r <= n,
            (r + 1) * (r + 1) > n,
    ;
}

/// Scaling of a signed value by a non-negative ratio, rounding the
/// magnitude down (toward zero).
pub open spec fn scale_signed_spec(a: int, num: int, den: int) -> int {
    if a >= 0 {
        a * num / den
    } else {
        -((-a) * num / den)
    }
}

/// Scale a signed value by `num / den`, rounding toward zero.
pub fn scale_i64(a: i64, num: u64, den: u64) -> (r: i64)
    requires
        -1000000000000 <= a <= 1000000000000,
        num <= 1000000,
        1 <= den,
    ensures
        r == scale_signed_spec(a as int, num as int, den as int),
        a >= 0 ==> 0 <= r <= (a as int) * (num as int) / (den as int),
        a < 0 ==> r <= 0,
        -1000000000000000000 <= r <= 1000000000000000000,
{
    proof {
        if a >= 0 {
            assert((a as int) * (num as int) <= 1000000000000000000) by (nonlinear_arith)
                requires
                    0 <= a <= 1000000000000,
                    num <= 1000000,
            ;
            assert(0 <= (a as int) * (num as int) / (den as int) <= (a as int) * (num as int))
                by (nonlinear_arith)
                requires
                    den >= 1,
                    a >= 0,
                    num >= 0,
            ;
        } else {
            assert((-(a as int)) * (num as int) <= 1000000000000000000) by (nonlinear_arith)
                requires
                    -1000000000000 <= a < 0,
                    num <= 1000000,
            ;
            assert(0 <= (-(a as int)) * (num as int) / (den as int) <= (-(a as int)) * (
            num as int)) by (nonlinear_arith)
                requires
                    den >= 1,
                    a < 0,
                    num >= 0,
            ;
        }
    }
    if a >= 0 {
        (((a as u64) * num / den) as i64)
    } else {
        let m: u64 = (-a) as u64;
        0 - ((m * num / den) as i64)
    }
}

/// Signed scaling clamped into `[-cap, cap]`.
pub open spec fn scale_cap_spec(a: int, num: int, den: int, cap: int) -> int {
    let v = scale_signed_spec(a, num, den);
    if v > cap {
        cap
    } else if v < -cap {
        -cap
    } else {
        v
    }
}

/// Scale a signed value by `num / den` (rounding toward zero) and clamp
/// the result into `[-cap, cap]`.
pub fn scale_cap(a: i64, num: u64, den: u64, cap: i64) -> (r: i64)
    requires
        -1000000000000 <= a <= 1000000000000,
        num <= 1000000,
        1 <= den,
        0 <= cap,
    ensures
        r == scale_cap_spec(a as int, num as int, den as int, cap as int),
        -cap <= r <= cap,
{
    let v = scale_i64(a, num, den);
    if v > cap {
        cap
    } else if v < 0 - cap {
        0 - cap
    } else {
        v
    }
}

/// Clamp to a closed interval.
pub open spec fn clamp_spec(x: int, lo: int, hi: int) -> int {
    if x < lo {
        lo
    } else if x > hi {
        hi
    } else {
        x
    }
}

/// Clamp a value into `[lo, hi]`.
pub fn clamp_u64(x: u64, lo: u64, hi: u64) -> (r: u64)
    requires
        lo <= hi,
    ensures
        r == clamp_spec(x as int, lo as int, hi as int),
        lo <= r <= hi,
{
    if x < lo {
        lo
    } else if x > hi {
        hi
    } else {
        x
    }
}

} // verus!
