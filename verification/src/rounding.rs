//! Arithmetic in the precision of IEEE 754 binary64 numbers, carried out on integers.
//!
//! A binary64 number has 53 significant bits, and every operation rounds its exact result to
//! the nearest such number, ties to the even one. Where no result is so small or so large that
//! the exponent matters, that rounding commutes with scaling by powers of two: a fraction over
//! a power of two is rounded by rounding its numerator.

use crate::geometry;
use crate::geometry::saturate;
use vstd::prelude::*;

verus! {

/// The integer nearest to `n / d`, of two the even one.
pub open spec fn nearest_even(n: int, d: int) -> int {
    let q = n / d;
    let r = n % d;
    if 2 * r < d || (2 * r == d && q % 2 == 0) {
        q
    } else {
        q + 1
    }
}

/// The integer nearest to `n / d`, for `n` not negative, of two the larger one.
pub open spec fn nearest_up(n: int, d: int) -> int {
    (2 * n + d) / (2 * d)
}

/// The integer nearest to `h / 2`, of two the one farther from zero.
pub open spec fn half_away(h: int) -> int {
    if h >= 0 {
        (h + 1) / 2
    } else {
        -((1 - h) / 2)
    }
}

/// The power of two that the last of 53 significant bits of `p` counts, and one where `p` has
/// no more than 53 bits.
pub open spec fn last_place(p: int) -> int
    decreases p,
{
    if p < 0x20_0000_0000_0000 {
        1
    } else {
        2 * last_place(p / 2)
    }
}

/// The binary64 number nearest to `v`.
pub open spec fn binary64(v: int) -> int {
    let p = if v < 0 {
        -v
    } else {
        v
    };
    let rounded = nearest_even(p, last_place(p)) * last_place(p);
    if v < 0 {
        -rounded
    } else {
        rounded
    }
}

/// The power of two by which `n / d` has to be multiplied to have 53 bits before the point.
pub open spec fn quotient_scale(n: int, d: int) -> int
    decreases d * 0x20_0000_0000_0000 - n,
{
    if n <= 0 || n >= d * 0x10_0000_0000_0000 {
        1
    } else {
        2 * quotient_scale(2 * n, d)
    }
}

/// The numerator of the binary64 number nearest to `n / d`, over `quotient_scale(n, d)`.
pub open spec fn quotient(n: int, d: int) -> int {
    nearest_even(n * quotient_scale(n, d), d)
}

pub(crate) fn round_even(n: u128, d: u128) -> (r: u128)
    requires
        0 < d <= 0x4000_0000_0000_0000_0000_0000_0000_0000,
        n < 0x4000_0000_0000_0000_0000_0000_0000_0000,
    ensures
        r == nearest_even(n as int, d as int),
        r <= n + 1,
{
    let q: u128 = n / d;
    let r: u128 = n % d;
    assert(q <= n) by (nonlinear_arith)
        requires
            q == n / d,
            d > 0,
    ;
    if 2 * r < d || (2 * r == d && q % 2 == 0) {
        q
    } else {
        q + 1
    }
}

proof fn last_place_bounds(p: int)
    requires
        p >= 0,
    ensures
        last_place(p) >= 1,
        p >= 0x20_0000_0000_0000 ==> last_place(p) * 0x10_0000_0000_0000 <= p,
        p < last_place(p) * 0x20_0000_0000_0000,
    decreases p,
{
    if p >= 0x20_0000_0000_0000 {
        last_place_bounds(p / 2);
    }
}

proof fn unit_is_exact(v: int, u: int)
    requires
        u == 1,
    ensures
        nearest_even(v, u) * u == v,
{
    assert(v / 1 == v);
    assert(v % 1 == 0);
}

/// Rounding to 53 significant bits at most doubles a number.
pub proof fn rounding_bound(v: int)
    requires
        v >= 0,
    ensures
        0 <= binary64(v) <= 2 * v,
{
    last_place_bounds(v);
    let u = last_place(v);
    let q = v / u;
    let r = v % u;
    assert(q * u + r == v && 0 <= r < u && q >= 0) by (nonlinear_arith)
        requires
            q == v / u,
            r == v % u,
            u >= 1,
            v >= 0,
    ;
    if u == 1 {
        unit_is_exact(v, u);
    } else {
        assert(v >= 0x20_0000_0000_0000) by {
            if v < 0x20_0000_0000_0000 {
                assert(u == 1);
            }
        }
        let m = nearest_even(v, u);
        assert(0 <= m * u <= 2 * v) by (nonlinear_arith)
            requires
                m == q || m == q + 1,
                q >= 0,
                q * u <= v,
                u <= v,
                u >= 1,
        ;
    }
}

/// A number of no more than 53 bits is a binary64 number.
pub proof fn small_is_exact(v: int)
    requires
        -0x20_0000_0000_0000 < v < 0x20_0000_0000_0000,
    ensures
        binary64(v) == v,
{
    let p = if v < 0 {
        -v
    } else {
        v
    };
    assert(last_place(p) == 1);
    unit_is_exact(p, last_place(p));
}

/// Zero is a binary64 number.
pub proof fn zero_stays_zero()
    ensures
        binary64(0) == 0,
{
    small_is_exact(0);
}

/// A positive number is rounded to a positive one.
pub proof fn positive_stays_positive(v: int)
    ensures
        v > 0 ==> binary64(v) > 0,
{
    if v > 0 {
        last_place_bounds(v);
        let u = last_place(v);
        if u == 1 {
            unit_is_exact(v, u);
        } else {
            assert(v >= 0x20_0000_0000_0000) by {
                if v < 0x20_0000_0000_0000 {
                    assert(u == 1);
                }
            }
            let q = v / u;
            assert(q >= 1) by (nonlinear_arith)
                requires
                    q == v / u,
                    u * 0x10_0000_0000_0000 <= v,
                    u >= 1,
            ;
            let m = nearest_even(v, u);
            assert(m * u > 0) by (nonlinear_arith)
                requires
                    m >= 1,
                    u >= 1,
            ;
        }
    }
}

/// A coordinate is rounded to a number of no more than 64 bits, the first of them alone where
/// it has all of them.
pub proof fn coordinate_bound(v: int)
    requires
        0 <= v <= 0x7fff_ffff_ffff_ffff,
    ensures
        binary64(v) <= 0x8000_0000_0000_0000,
{
    last_place_bounds(v);
    let u = last_place(v);
    let k = last_place_divides(v, 10);
    let q = v / u;
    let r = v % u;
    assert(q * u + r == v && 0 <= r < u) by (nonlinear_arith)
        requires
            q == v / u,
            r == v % u,
            u >= 1,
    ;
    assert(q < k) by (nonlinear_arith)
        requires
            q * u <= v,
            v < k * u,
            u >= 1,
    ;
    let m = nearest_even(v, u);
    assert(m * u <= k * u) by (nonlinear_arith)
        requires
            m <= k,
            u >= 1,
    ;
}

/// Two to the power of 53 and `n` more.
spec fn power_above(n: nat) -> int
    decreases n,
{
    if n == 0 {
        0x20_0000_0000_0000
    } else {
        2 * power_above((n - 1) as nat)
    }
}

/// The last place of a number below a power of two divides that power.
proof fn last_place_divides(v: int, n: nat) -> (k: int)
    requires
        n == 10 ==> v < 0x8000_0000_0000_0000,
        n != 10 ==> v < power_above(n),
        0 <= v,
    ensures
        n == 10 ==> power_above(n) == 0x8000_0000_0000_0000,
        k * last_place(v) == power_above(n),
        k > 0,
    decreases n,
{
    assert(power_above(10) == 0x8000_0000_0000_0000) by {
        reveal_with_fuel(power_above, 12);
    }
    if v < 0x20_0000_0000_0000 {
        power_above_positive(n);
        assert(last_place(v) == 1);
        power_above(n)
    } else {
        assert(n > 0);
        assert(v / 2 < power_above((n - 1) as nat));
        let k = last_place_divides(v / 2, (n - 1) as nat);
        assert(k * last_place(v) == 2 * (k * last_place(v / 2))) by (nonlinear_arith)
            requires
                last_place(v) == 2 * last_place(v / 2),
        ;
        k
    }
}

proof fn power_above_positive(n: nat)
    ensures
        power_above(n) > 0,
    decreases n,
{
    if n > 0 {
        power_above_positive((n - 1) as nat);
    }
}

/// `p` rounded to 53 significant bits.
fn round_magnitude(p: u128) -> (r: u128)
    requires
        p < 0x1000_0000_0000_0000_0000_0000_0000_0000,
    ensures
        r == nearest_even(p as int, last_place(p as int)) * last_place(p as int),
        r <= 2 * p,
{
    let mut unit: u128 = 1;
    let mut rest: u128 = p;
    while rest >= 0x20_0000_0000_0000
        invariant
            p < 0x1000_0000_0000_0000_0000_0000_0000_0000,
            unit >= 1,
            unit * rest <= p,
            unit * last_place(rest as int) == last_place(p as int),
        decreases rest,
    {
        assert(last_place(rest as int) == 2 * last_place(rest as int / 2));
        assert(unit * last_place(rest as int) == (2 * unit) * last_place(rest as int / 2))
            by (nonlinear_arith)
            requires
                last_place(rest as int) == 2 * last_place(rest as int / 2),
        ;
        assert((2 * unit) * (rest / 2) <= unit * rest) by (nonlinear_arith);
        assert(2 * unit <= p) by (nonlinear_arith)
            requires
                unit * rest <= p,
                rest >= 0x20_0000_0000_0000,
        ;
        unit = 2 * unit;
        rest = rest / 2;
    }
    assert(unit == last_place(p as int)) by (nonlinear_arith)
        requires
            unit * last_place(rest as int) == last_place(p as int),
            last_place(rest as int) == 1,
    ;
    proof {
        last_place_bounds(p as int);
    }
    if unit == 1 {
        proof {
            unit_is_exact(p as int, last_place(p as int));
        }
        return p;
    }
    let m: u128 = round_even(p, unit);
    proof {
        let q = p as int / unit as int;
        let r = p as int % unit as int;
        assert(q * unit + r == p && 0 <= r < unit && q * unit <= p && q >= 1) by (nonlinear_arith)
            requires
                q == p as int / unit as int,
                r == p as int % unit as int,
                unit >= 1,
                unit * 0x10_0000_0000_0000 <= p,
        ;
        assert(m == q || m == q + 1);
        assert(m * unit <= 2 * p) by (nonlinear_arith)
            requires
                m == q || m == q + 1,
                q * unit <= p,
                unit <= p,
        ;
    }
    m * unit
}

/// The binary64 number nearest to `v`.
pub fn round_binary64(v: i128) -> (r: i128)
    requires
        -0x1000_0000_0000_0000_0000_0000_0000_0000 < v
            < 0x1000_0000_0000_0000_0000_0000_0000_0000,
    ensures
        r == binary64(v as int),
        -2 * (if v < 0 {
            -v
        } else {
            v as int
        }) <= r <= 2 * (if v < 0 {
            -v
        } else {
            v as int
        }),
{
    if v < 0 {
        -(round_magnitude((-v) as u128) as i128)
    } else {
        round_magnitude(v as u128) as i128
    }
}

/// The binary64 number nearest to a sum of a few coordinates.
pub fn round_sum(v: i128) -> (r: i128)
    requires
        -0x80_0000_0000_0000_0000 <= v <= 0x80_0000_0000_0000_0000,
    ensures
        r == binary64(v as int),
        -0x20_0000_0000_0000_0000 <= v <= 0x20_0000_0000_0000_0000 ==> -0x40_0000_0000_0000_0000
            <= r <= 0x40_0000_0000_0000_0000,
        -0x8_0000_0000_0000_0000 <= v <= 0x8_0000_0000_0000_0000 ==> -0x10_0000_0000_0000_0000
            <= r <= 0x10_0000_0000_0000_0000,
        -0x100_0000_0000_0000_0000 <= r <= 0x100_0000_0000_0000_0000,
{
    round_binary64(v)
}

/// The binary64 number nearest to a coordinate.
pub fn round_coordinate(v: i64) -> (r: i128)
    ensures
        r == binary64(v as int),
        -0x1_0000_0000_0000_0000 <= r <= 0x1_0000_0000_0000_0000,
{
    round_binary64(v as i128)
}

/// The coordinate nearest to `h / 2`.
pub fn halve_away(h: i128) -> (r: i64)
    requires
        -0x1000_0000_0000_0000_0000_0000_0000_0000 < h
            < 0x1000_0000_0000_0000_0000_0000_0000_0000,
    ensures
        r == geometry::saturated(half_away(h as int)),
{
    if h >= 0 {
        saturate((h + 1) / 2)
    } else {
        let m: i128 = (1 - h) / 2;
        saturate(-m)
    }
}

pub(crate) proof fn quotient_scale_bounds(n: int, d: int)
    requires
        0 < n,
        0 < d,
        n < d * 0x20_0000_0000_0000,
    ensures
        quotient_scale(n, d) >= 1,
        d * 0x10_0000_0000_0000 <= n * quotient_scale(n, d) < d * 0x20_0000_0000_0000,
    decreases d * 0x20_0000_0000_0000 - n,
{
    if n < d * 0x10_0000_0000_0000 {
        quotient_scale_bounds(2 * n, d);
        let s = quotient_scale(2 * n, d);
        assert((2 * n) * s == n * (2 * s)) by (nonlinear_arith);
    }
}

/// The binary64 number nearest to `n / d`, as a numerator over a power of two.
pub fn divide(n: u64, d: u64) -> (r: (u64, u128))
    requires
        0 < n,
        0 < d <= 0x8000_0000_0000_0000,
        n < d * 0x10_0000_0000_0000,
    ensures
        r.0 == quotient(n as int, d as int),
        r.1 == quotient_scale(n as int, d as int),
        r.0 <= 0x20_0000_0000_0000,
        1 <= r.1 <= d * 0x20_0000_0000_0000,
{
    let mut scaled: u128 = n as u128;
    let mut scale: u128 = 1;
    let bound: u128 = d as u128 * 0x10_0000_0000_0000;
    assert(bound <= 0x8000_0000_0000_0000 * 0x10_0000_0000_0000) by (nonlinear_arith)
        requires
            bound == d * 0x10_0000_0000_0000,
            d <= 0x8000_0000_0000_0000,
    ;
    while scaled < bound
        invariant
            n > 0,
            bound == d * 0x10_0000_0000_0000,
            bound <= 0x8000_0000_0000_0000 * 0x10_0000_0000_0000,
            scale >= 1,
            scaled == n * scale,
            0 < scaled < 2 * bound,
            scale * quotient_scale(scaled as int, d as int) == quotient_scale(n as int, d as int),
        decreases 2 * bound - scaled,
    {
        assert(scale <= scaled) by (nonlinear_arith)
            requires
                scaled == n * scale,
                n > 0,
        ;
        assert(scale * quotient_scale(scaled as int, d as int) == (2 * scale) * quotient_scale(
            2 * scaled,
            d as int,
        )) by (nonlinear_arith)
            requires
                quotient_scale(scaled as int, d as int) == 2 * quotient_scale(
                    2 * scaled,
                    d as int,
                ),
        ;
        assert(2 * scaled == n * (2 * scale)) by (nonlinear_arith)
            requires
                scaled == n * scale,
        ;
        scaled = 2 * scaled;
        scale = 2 * scale;
    }
    assert(scale == quotient_scale(n as int, d as int)) by (nonlinear_arith)
        requires
            scale * quotient_scale(scaled as int, d as int) == quotient_scale(n as int, d as int),
            quotient_scale(scaled as int, d as int) == 1,
    ;
    assert(scale <= scaled) by (nonlinear_arith)
        requires
            scaled == n * scale,
            n > 0,
    ;
    let m: u128 = round_even(scaled, d as u128);
    proof {
        let q = scaled as int / d as int;
        assert(q < 0x20_0000_0000_0000) by (nonlinear_arith)
            requires
                q == scaled as int / d as int,
                scaled < d * 0x20_0000_0000_0000,
                d > 0,
        ;
    }
    (m as u64, scale)
}

/// Rounding a number to 53 significant bits moves it by no more than one part in two to the power
/// of 53.
pub proof fn rounding_error(v: int)
    requires
        v >= 0,
    ensures
        binary64(v) >= 0,
        0x20_0000_0000_0000 * (binary64(v) - v) <= v,
        0x20_0000_0000_0000 * (v - binary64(v)) <= v,
{
    last_place_bounds(v);
    rounding_bound(v);
    let u = last_place(v);
    if v < 0x20_0000_0000_0000 {
        small_is_exact(v);
    } else {
        let q = v / u;
        let r = v % u;
        assert(q * u + r == v && 0 <= r < u) by (nonlinear_arith)
            requires
                q == v / u,
                r == v % u,
                u >= 1,
        ;
        let m = nearest_even(v, u);
        if m == q {
            assert(m * u == v - r);
        } else {
            assert((q + 1) * u == q * u + u) by (nonlinear_arith);
        }
        assert(2 * (m * u - v) <= u && 2 * (v - m * u) <= u);
    }
}

proof fn scale_is_large(n: int, d: int)
    requires
        0 < n,
        0 < d,
    ensures
        quotient_scale(n, d) >= 1,
        n * quotient_scale(n, d) >= d * 0x10_0000_0000_0000,
    decreases d * 0x20_0000_0000_0000 - n,
{
    if n < d * 0x10_0000_0000_0000 {
        scale_is_large(2 * n, d);
        let t = quotient_scale(2 * n, d);
        assert(n * (2 * t) == (2 * n) * t) by (nonlinear_arith);
    } else {
        assert(n * 1 == n);
    }
}

/// The quotient of a number by one that is no smaller, over its scale, is off by no more than half
/// of what its last bit counts. The scale has 53 bits or more.
pub proof fn quotient_error(n: int, d: int)
    requires
        0 < n <= d,
    ensures
        quotient_scale(n, d) >= 0x10_0000_0000_0000,
        0 <= quotient(n, d) <= quotient_scale(n, d),
        2 * (quotient(n, d) * d - n * quotient_scale(n, d)) <= d,
        2 * (n * quotient_scale(n, d) - quotient(n, d) * d) <= d,
{
    scale_is_large(n, d);
    let s = quotient_scale(n, d);
    let x = n * s;
    let q = x / d;
    let r = x % d;
    let m = quotient(n, d);
    assert(s >= 0x10_0000_0000_0000) by (nonlinear_arith)
        requires
            n * s >= d * 0x10_0000_0000_0000,
            0 < n <= d,
            s >= 1,
    ;
    assert(q * d + r == x && 0 <= r < d) by (nonlinear_arith)
        requires
            q == x / d,
            r == x % d,
            d > 0,
    ;
    assert((q + 1) * d == q * d + d) by (nonlinear_arith);
    assert(2 * (m * d - x) <= d && 2 * (x - m * d) <= d);
    assert(x <= d * s) by (nonlinear_arith)
        requires
            x == n * s,
            n <= d,
            s >= 1,
    ;
    assert(m <= s) by (nonlinear_arith)
        requires
            2 * (m * d - x) <= d,
            x <= d * s,
            d > 0,
    ;
    assert(m >= 0) by (nonlinear_arith)
        requires
            2 * (x - m * d) <= d,
            x >= 0,
            d > 0,
    ;
}

} // verus!
