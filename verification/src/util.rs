//! The clock and the scalar helpers that the generators share.

use vstd::prelude::*;
use vstd::arithmetic::div_mod::lemma_fundamental_div_mod_converse;
use vstd::arithmetic::div_mod::lemma_fundamental_div_mod;
use vstd::arithmetic::div_mod::lemma_mod_bound;

verus! {

/// Samples per second.
pub const BITRATE: u32 = 44100;

/// The fixed-point representation of `1.0`.
pub const UNIT: i64 = 1_000_000;

/// The fixed-point representation of a half turn, rounded down.
pub const PI: i64 = 3_141_592;

/// The fixed-point representation of a full turn, rounded down.
pub const TAU: i64 = 6_283_185;

/// The number of whole samples in a duration of `length` millionths of a
/// second: the product with the sample rate, truncated, and held to what a
/// sample counter can reach. A negative duration has none.
pub open spec fn spec_samples(length: i64) -> int {
    if length <= 0 {
        0
    } else if (length * BITRATE) / (UNIT as int) >= u32::MAX {
        u32::MAX as int
    } else {
        (length * BITRATE) / (UNIT as int)
    }
}

/// Converts a duration to a sample count.
pub fn samples(length: i64) -> (count: u32)
    ensures
        count == spec_samples(length),
{
    if length <= 0 {
        0
    } else {
        assert(length * BITRATE <= i64::MAX * 44100) by (nonlinear_arith)
            requires
                0 < length <= i64::MAX,
                BITRATE == 44100,
        ;
        let product: i128 = (length as i128) * (BITRATE as i128);
        let whole: i128 = product / (UNIT as i128);
        if whole >= u32::MAX as i128 {
            u32::MAX
        } else {
            whole as u32
        }
    }
}

/// Divides by a positive number, rounding towards negative infinity.
pub fn div_floor(n: i128, d: i128) -> (q: i128)
    requires
        d > 0,
        n > i128::MIN,
    ensures
        q == n as int / d as int,
{
    if n >= 0 {
        n / d
    } else {
        let below: i128 = (-n - 1) / d;
        proof {
            let m = -n - 1;
            lemma_fundamental_div_mod(m, d as int);
            lemma_mod_bound(m, d as int);
            let r = d - 1 - m % (d as int);
            let q = -(m / (d as int)) - 1;
            assert(n == q * d + r) by (nonlinear_arith)
                requires
                    m == d * (m / (d as int)) + m % (d as int),
                    n == -m - 1,
                    r == d - 1 - m % (d as int),
                    q == -(m / (d as int)) - 1,
            ;
            lemma_fundamental_div_mod_converse(n as int, d as int, q, r);
        }
        -below - 1
    }
}

/// The remainder of a division by a positive number, never negative.
pub fn mod_floor(n: i128, d: i128) -> (r: i128)
    requires
        d > 0,
    ensures
        r == n as int % d as int,
        0 <= r < d,
{
    let r: i128 = n % d;
    proof {
        lemma_mod_bound(n as int, d as int);
        if n < 0 {
            let m = -n;
            lemma_fundamental_div_mod(m, d as int);
            lemma_mod_bound(m, d as int);
            let k = m / (d as int);
            let t = m % (d as int);
            if t == 0 {
                assert(n == (-k) * d + 0) by (nonlinear_arith)
                    requires
                        m == d * k + t,
                        t == 0,
                        n == -m,
                ;
                lemma_fundamental_div_mod_converse(n as int, d as int, -k, 0);
            } else {
                assert(n == (-k - 1) * d + (d - t)) by (nonlinear_arith)
                    requires
                        m == d * k + t,
                        n == -m,
                ;
                lemma_fundamental_div_mod_converse(n as int, d as int, -k - 1, d - t);
            }
        }
    }
    if r < 0 {
        r + d
    } else {
        r
    }
}

/// The point a fraction `x` of the way from `a` to `b`.
pub open spec fn spec_lerp(x: i64, a: i64, b: i64) -> int {
    a + (x * (b - a)) / (UNIT as int)
}

/// Between its ends, an interpolation stays between them.
pub proof fn lemma_lerp_between(x: i64, a: i64, b: i64)
    requires
        0 <= x <= UNIT,
    ensures
        a <= b ==> a <= spec_lerp(x, a, b) <= b,
        b <= a ==> b <= spec_lerp(x, a, b) <= a,
        spec_lerp(0, a, b) == a,
        spec_lerp(UNIT, a, b) == b,
{
    let u = UNIT as int;
    let d = b - a;
    lemma_fundamental_div_mod(x * d, u);
    lemma_mod_bound(x * d, u);
    let q = (x * d) / u;
    if a <= b {
        assert(0 <= x * d <= u * d) by (nonlinear_arith)
            requires
                0 <= x <= u,
                0 <= d,
        ;
        assert(0 <= q <= d) by (nonlinear_arith)
            requires
                0 <= x * d <= u * d,
                x * d == u * q + (x * d) % u,
                0 <= (x * d) % u < u,
                u > 0,
        ;
    }
    if b <= a {
        assert(u * d <= x * d <= 0) by (nonlinear_arith)
            requires
                0 <= x <= u,
                d <= 0,
        ;
        assert(d <= q <= 0) by (nonlinear_arith)
            requires
                u * d <= x * d <= 0,
                x * d == u * q + (x * d) % u,
                0 <= (x * d) % u < u,
                u > 0,
        ;
    }
    assert(0 * d == 0);
    lemma_fundamental_div_mod_converse(u * d, u, d, 0);
}

/// Linear interpolation: maps `0..UNIT` onto `a..b`.
pub fn lerp(x: i64, a: i64, b: i64) -> (y: i64)
    requires
        i64::MIN <= spec_lerp(x, a, b) <= i64::MAX,
    ensures
        y == spec_lerp(x, a, b),
{
    let span: i128 = b as i128 - a as i128;
    assert(-0x8000_0000_0000_0000_0000_0000_0000_0000 < x * span < 0x8000_0000_0000_0000_0000_0000_0000_0000)
        by (nonlinear_arith)
        requires
            -0x8000_0000_0000_0000 <= x < 0x8000_0000_0000_0000,
            -0x1_0000_0000_0000_0000 < span < 0x1_0000_0000_0000_0000,
    ;
    let q: i128 = div_floor(x as i128 * span, UNIT as i128);
    (a as i128 + q) as i64
}

/// Where `x` between `-UNIT` and `UNIT` falls between `a` and `b`.
pub open spec fn spec_scale(x: i64, a: i64, b: i64) -> int {
    (b + spec_lerp(x, a, b)) / 2
}

/// Maps `-UNIT..UNIT` onto `a..b`.
pub fn scale(x: i64, a: i64, b: i64) -> (y: i64)
    requires
        i64::MIN <= spec_lerp(x, a, b) <= i64::MAX,
    ensures
        y == spec_scale(x, a, b),
{
    let sum: i128 = b as i128 + lerp(x, a, b) as i128;
    div_floor(sum, 2) as i64
}

/// `x` held to the range from `low` to `high`.
pub open spec fn spec_clamp_to(x: int, low: int, high: int) -> int {
    if x > high {
        if high < low { low } else { high }
    } else if x < low {
        low
    } else {
        x
    }
}

/// Holds a sample to `-UNIT..=UNIT`.
pub fn clamp(x: i64) -> (y: i64)
    ensures
        y == spec_clamp_to(x as int, -UNIT, UNIT as int),
{
    if x > UNIT {
        UNIT
    } else if x < -UNIT {
        -UNIT
    } else {
        x
    }
}

/// Holds a sample to `0..=UNIT`.
pub fn clamp01(x: i64) -> (y: i64)
    ensures
        y == spec_clamp_to(x as int, 0, UNIT as int),
{
    if x > UNIT {
        UNIT
    } else if x < 0 {
        0
    } else {
        x
    }
}

/// `x` divided by `1 - a`, held to `-UNIT..=UNIT`.
pub open spec fn spec_distort(x: i64, a: i64) -> int {
    spec_clamp_to((x * UNIT) / (UNIT - a), -UNIT, UNIT as int)
}

/// Overdrive: amplifies by `1 / (1 - a)` and clips. The amount `a` is below
/// `UNIT`.
pub fn distort(x: i64, a: i64) -> (y: i64)
    requires
        a < UNIT,
    ensures
        y == spec_distort(x, a),
{
    assert(-0x8000_0000_0000_0000 * 1_000_000 <= x * UNIT <= 0x8000_0000_0000_0000 * 1_000_000)
        by (nonlinear_arith)
        requires
            -0x8000_0000_0000_0000 <= x < 0x8000_0000_0000_0000,
            UNIT == 1_000_000,
    ;
    let driven: i128 = div_floor(x as i128 * UNIT as i128, UNIT as i128 - a as i128);
    if driven > UNIT as i128 {
        UNIT
    } else if driven < -(UNIT as i128) {
        -UNIT
    } else {
        driven as i64
    }
}

} // verus!
