//! Fixed-point scalars: an `i64` holds the real value scaled by `FX_ONE`.
//!
//! Multiplying two fixed-point values yields a product at scale
//! `FX_ONE * FX_ONE`; `div_trunc(p, FX_ONE)` rescales it, truncating
//! toward zero exactly as Rust integer division does.

use vstd::prelude::*;

verus! {

/// The fixed-point scale: the representation of the real number `1.0`.
pub const FX_ONE: i64 = 1_000_000;

/// Truncating division (toward zero), the rounding of Rust's `/` on
/// signed integers, defined over mathematical integers.
pub open spec fn tdiv(a: int, d: int) -> int
    recommends
        d >= 1,
{
    if a < 0 {
        -((-a) / d)
    } else {
        a / d
    }
}

/// Truncating toward zero never increases magnitude: `|tdiv(a, d)| * d <= |a|`.
pub proof fn lemma_tdiv_abs(a: int, d: int)
    requires
        d >= 1,
    ensures
        a >= 0 ==> 0 <= tdiv(a, d) && tdiv(a, d) * d <= a,
        a < 0 ==> tdiv(a, d) <= 0 && -(tdiv(a, d) * d) <= -a,
{
    if a >= 0 {
        assert(0 <= a / d && (a / d) * d <= a) by (nonlinear_arith)
            requires
                a >= 0,
                d >= 1,
        ;
    } else {
        let b = -a;
        assert(0 <= b / d && (b / d) * d <= b) by (nonlinear_arith)
            requires
                b >= 0,
                d >= 1,
        ;
        assert((-(b / d)) * d == -((b / d) * d)) by (nonlinear_arith);
    }
}

/// An exact multiple divides back exactly: `tdiv(a * d, d) == a`.
pub proof fn lemma_tdiv_exact(a: int, d: int)
    requires
        d >= 1,
    ensures
        tdiv(a * d, d) == a,
{
    if a >= 0 {
        assert((a * d) / d == a) by (nonlinear_arith)
            requires
                a >= 0,
                d >= 1,
        ;
    } else {
        let b = -a;
        assert((b * d) / d == b) by (nonlinear_arith)
            requires
                b >= 0,
                d >= 1,
        ;
        assert(-(a * d) == b * d) by (nonlinear_arith)
            requires
                b == -a,
        ;
    }
}

/// The remainder of truncating division is smaller than the divisor:
/// `a == tdiv(a, d) * d + rem` with `|rem| < d`.
pub proof fn lemma_tdiv_rem(a: int, d: int)
    requires
        d >= 1,
    ensures
        a - tdiv(a, d) * d < d,
        -(a - tdiv(a, d) * d) < d,
{
    if a >= 0 {
        assert(a - (a / d) * d < d && a - (a / d) * d >= 0) by (nonlinear_arith)
            requires
                a >= 0,
                d >= 1,
        ;
    } else {
        let b = -a;
        assert(b - (b / d) * d < d && b - (b / d) * d >= 0) by (nonlinear_arith)
            requires
                b >= 0,
                d >= 1,
        ;
        assert((-(b / d)) * d == -((b / d) * d)) by (nonlinear_arith);
    }
}

/// Truncating division of `a` by `d >= 1`, matching `tdiv`.
pub fn div_trunc(a: i64, d: i64) -> (r: i64)
    requires
        d >= 1,
        a > i64::MIN,
    ensures
        r == tdiv(a as int, d as int),
{
    if a < 0 {
        let na: u64 = (-a) as u64;
        let q: u64 = na / (d as u64);
        proof {
            lemma_tdiv_abs(a as int, d as int);
        }
        -(q as i64)
    } else {
        let q: u64 = (a as u64) / (d as u64);
        proof {
            lemma_tdiv_abs(a as int, d as int);
        }
        q as i64
    }
}

/// Truncating division for wide intermediates, matching `tdiv`.
pub fn div_trunc_wide(a: i128, d: i128) -> (r: i128)
    requires
        d >= 1,
        a > i128::MIN,
    ensures
        r == tdiv(a as int, d as int),
{
    if a < 0 {
        let na: u128 = (-a) as u128;
        let q: u128 = na / (d as u128);
        proof {
            lemma_tdiv_abs(a as int, d as int);
        }
        -(q as i128)
    } else {
        let q: u128 = (a as u128) / (d as u128);
        proof {
            lemma_tdiv_abs(a as int, d as int);
        }
        q as i128
    }
}

/// The integer square root, defined recursively: the largest `r` with
/// `r * r <= n` (and `0` for negative arguments).
pub open spec fn sqrt_floor(n: int) -> int
    decreases n,
{
    if n <= 0 {
        0
    } else {
        let p = sqrt_floor(n - 1);
        if (p + 1) * (p + 1) <= n {
            p + 1
        } else {
            p
        }
    }
}

/// `sqrt_floor(n)` squares to at most `n`, and is the largest such value.
pub proof fn lemma_sqrt_floor_props(n: int)
    requires
        n >= 0,
    ensures
        0 <= sqrt_floor(n),
        sqrt_floor(n) * sqrt_floor(n) <= n,
        n < (sqrt_floor(n) + 1) * (sqrt_floor(n) + 1),
    decreases n,
{
    if n == 0 {
        assert(sqrt_floor(0) == 0);
    } else {
        lemma_sqrt_floor_props(n - 1);
        let p = sqrt_floor(n - 1);
        if (p + 1) * (p + 1) <= n {
            assert(n - 1 < (p + 1) * (p + 1));
            assert(n < (p + 2) * (p + 2)) by (nonlinear_arith)
                requires
                    n - 1 < (p + 1) * (p + 1),
                    p >= 0,
            ;
        }
    }
}

/// Any `r` with `r * r <= n < (r + 1) * (r + 1)` is `sqrt_floor(n)`.
pub proof fn lemma_sqrt_floor_unique(n: int, r: int)
    requires
        n >= 0,
        r >= 0,
        r * r <= n,
        n < (r + 1) * (r + 1),
    ensures
        r == sqrt_floor(n),
{
    lemma_sqrt_floor_props(n);
    let s = sqrt_floor(n);
    if r < s {
        assert((r + 1) * (r + 1) <= s * s) by (nonlinear_arith)
            requires
                0 <= r,
                r + 1 <= s,
        ;
    }
    if s < r {
        assert((s + 1) * (s + 1) <= r * r) by (nonlinear_arith)
            requires
                0 <= s,
                s + 1 <= r,
        ;
    }
}

/// The largest argument `isqrt` accepts.
pub const ISQRT_ARG_MAX: u128 = 4_000_000_000_000_000_000_000_000;

/// Integer square root by binary search.
pub fn isqrt(n: u128) -> (r: u64)
    requires
        n <= ISQRT_ARG_MAX,
    ensures
        r as int == sqrt_floor(n as int),
        (r as int) * (r as int) <= n as int,
        n < (r as int + 1) * (r as int + 1),
{
    let mut lo: u128 = 0;
    let mut hi: u128 = 2_100_000_000_001;
    proof {
        assert((2_100_000_000_001 as int) * (2_100_000_000_001 as int) > ISQRT_ARG_MAX as int)
            by (nonlinear_arith);
    }
    while lo + 1 < hi
        invariant
            0 <= lo < hi <= 2_100_000_000_001,
            lo * lo <= n,
            n < hi * hi,
        decreases hi - lo,
    {
        let mid: u128 = lo + (hi - lo) / 2;
        proof {
            assert((mid as int) * (mid as int) <= 4_410_000_000_004_200_000_000_001)
                by (nonlinear_arith)
                requires
                    0 <= mid as int <= 2_100_000_000_001,
            ;
        }
        if mid * mid <= n {
            lo = mid;
        } else {
            hi = mid;
        }
    }
    proof {
        assert(lo * lo <= n < (lo + 1) * (lo + 1));
        lemma_sqrt_floor_unique(n as int, lo as int);
    }
    lo as u64
}

/// `2 * pi` at fixed-point scale, truncated.
pub const TWO_PI_FX: i64 = 6_283_185;

/// `pi` at fixed-point scale, rounded to nearest.
pub const PI_FX: i64 = 3_141_593;

/// `pi / 2` at fixed-point scale, truncated.
pub const HALF_PI_FX: i64 = 1_570_796;

/// The largest magnitude `cos_fx` and `sin_fx` accept.
pub const TRIG_ARG_MAX: i64 = 4_000_000_000_000;

/// Degree-8 Taylor polynomial of the cosine on `[0, pi/2]`, evaluated in
/// fixed point with truncating divisions and clamped into `[-1, 1]`.
pub open spec fn cos_poly(t: int) -> int
    recommends
        0 <= t <= HALF_PI_FX + 1,
{
    let s = FX_ONE as int;
    let p2 = (t * t) / s;
    let p4 = (p2 * p2) / s;
    let p6 = (p4 * p2) / s;
    let p8 = (p6 * p2) / s;
    let raw = s - p2 / 2 + p4 / 24 - p6 / 720 + p8 / 40320;
    if raw > s {
        s
    } else if raw < -s {
        -s
    } else {
        raw
    }
}

/// The fixed-point cosine: reduce the angle into one quadrant by the
/// symmetries of the cosine, then evaluate `cos_poly`.
pub open spec fn cos_fx_spec(x: int) -> int {
    let a = if x < 0 {
        -x
    } else {
        x
    };
    let r = a % (TWO_PI_FX as int);
    let f = if r > PI_FX {
        TWO_PI_FX - r
    } else {
        r
    };
    if f > HALF_PI_FX {
        -cos_poly(PI_FX - f)
    } else {
        cos_poly(f)
    }
}

/// The fixed-point sine, via the shift `sin(x) == cos(x - pi/2)`.
pub open spec fn sin_fx_spec(x: int) -> int {
    cos_fx_spec(x - HALF_PI_FX)
}

/// The cosine polynomial stays within `[-1, 1]` in fixed point.
pub proof fn lemma_cos_fx_bounds(x: int)
    ensures
        -FX_ONE <= cos_fx_spec(x) <= FX_ONE,
{
}

/// Evaluates `cos_poly` on a reduced, non-negative angle.
fn cos_poly_exec(t: i64) -> (r: i64)
    requires
        0 <= t <= HALF_PI_FX + 1,
    ensures
        r == cos_poly(t as int),
{
    let s: u64 = FX_ONE as u64;
    let tu: u64 = t as u64;
    proof {
        assert(tu * tu <= 2_467_403_415_210) by (nonlinear_arith)
            requires
                tu <= 1_570_797,
        ;
    }
    let p2: u64 = (tu * tu) / s;
    proof {
        assert(p2 * p2 <= 6_088_098_000_000 && p2 <= 2_467_404) by (nonlinear_arith)
            requires
                p2 <= 2_467_403,
        ;
    }
    let p4: u64 = (p2 * p2) / s;
    proof {
        assert(p4 * p2 <= 15_023_846_000_000) by (nonlinear_arith)
            requires
                p4 <= 6_088_098,
                p2 <= 2_467_403,
        ;
    }
    let p6: u64 = (p4 * p2) / s;
    proof {
        assert(p6 * p2 <= 37_070_000_000_000) by (nonlinear_arith)
            requires
                p6 <= 15_023_846,
                p2 <= 2_467_403,
        ;
    }
    let p8: u64 = (p6 * p2) / s;
    let raw: i64 = FX_ONE - (p2 / 2) as i64 + (p4 / 24) as i64 - (p6 / 720) as i64 + (p8
        / 40320) as i64;
    if raw > FX_ONE {
        FX_ONE
    } else if raw < -FX_ONE {
        -FX_ONE
    } else {
        raw
    }
}

/// The fixed-point cosine of an angle in radians at scale `FX_ONE`,
/// matching `cos_fx_spec`; the result lies in `[-FX_ONE, FX_ONE]`.
pub fn cos_fx(x: i64) -> (r: i64)
    requires
        -TRIG_ARG_MAX - 2 * HALF_PI_FX <= x <= TRIG_ARG_MAX + 2 * HALF_PI_FX,
    ensures
        r == cos_fx_spec(x as int),
        -FX_ONE <= r <= FX_ONE,
{
    let a: i64 = if x < 0 {
        -x
    } else {
        x
    };
    let r0: i64 = ((a as u64) % (TWO_PI_FX as u64)) as i64;
    let f: i64 = if r0 > PI_FX {
        TWO_PI_FX - r0
    } else {
        r0
    };
    if f > HALF_PI_FX {
        -cos_poly_exec(PI_FX - f)
    } else {
        cos_poly_exec(f)
    }
}

/// The fixed-point sine, matching `sin_fx_spec`.
pub fn sin_fx(x: i64) -> (r: i64)
    requires
        -TRIG_ARG_MAX <= x <= TRIG_ARG_MAX,
    ensures
        r == sin_fx_spec(x as int),
        -FX_ONE <= r <= FX_ONE,
{
    cos_fx(x - HALF_PI_FX)
}


/// Tangent of `pi / 8` at fixed-point scale, rounded to nearest.
pub const TAN_PI_8_FX: i64 = 414_214;

/// `pi / 4` at fixed-point scale, truncated.
pub const QUARTER_PI_FX: i64 = 785_398;

/// Degree-7 Taylor polynomial of the arctangent, evaluated on the
/// magnitude with truncating divisions, carrying the argument's sign.
pub open spec fn atan_poly(u: int) -> int
    recommends
        -430_000 <= u <= 430_000,
{
    let a = if u < 0 {
        -u
    } else {
        u
    };
    let s = FX_ONE as int;
    let p2 = (a * a) / s;
    let a3 = (a * p2) / s;
    let a5 = (a3 * p2) / s;
    let a7 = (a5 * p2) / s;
    let raw = a - a3 / 3 + a5 / 5 - a7 / 7;
    if u < 0 {
        -raw
    } else {
        raw
    }
}

/// The arctangent of a ratio in `[0, 1]`: the ratio of `y` to `x` at
/// fixed-point scale, reduced into the small-argument range of the
/// polynomial by the shift identity about `pi / 4`.
pub open spec fn atan_unit_spec(t: int) -> int
    recommends
        0 <= t <= FX_ONE as int,
{
    if t <= TAN_PI_8_FX as int {
        atan_poly(t)
    } else {
        QUARTER_PI_FX as int + atan_poly(tdiv((t - FX_ONE) * (FX_ONE as int), t + FX_ONE))
    }
}

/// The arctangent of `y / x` for non-negative `y` and positive `x`:
/// the first-quadrant angle, in radians at fixed-point scale.
pub open spec fn atan2_fx_spec(y: int, x: int) -> int
    recommends
        0 <= y,
        1 <= x,
{
    if y <= x {
        atan_unit_spec(tdiv(y * (FX_ONE as int), x))
    } else {
        HALF_PI_FX as int - atan_unit_spec(tdiv(x * (FX_ONE as int), y))
    }
}

/// Evaluates `atan_poly` exactly.
fn atan_poly_exec(u: i64) -> (r: i64)
    requires
        -430_000 <= u <= 430_000,
    ensures
        r == atan_poly(u as int),
        -500_000 <= r <= 500_000,
{
    let a: u64 = if u < 0 {
        (-u) as u64
    } else {
        u as u64
    };
    let s: u64 = FX_ONE as u64;
    proof {
        assert(a * a <= 184_900_000_000) by (nonlinear_arith)
            requires
                a <= 430_000,
        ;
    }
    let p2: u64 = (a * a) / s;
    proof {
        assert(a * p2 <= 79_507_000_000) by (nonlinear_arith)
            requires
                a <= 430_000,
                p2 <= 184_900,
        ;
    }
    let a3: u64 = (a * p2) / s;
    proof {
        assert(a3 * p2 <= 14_700_844_300) by (nonlinear_arith)
            requires
                a3 <= 79_507,
                p2 <= 184_900,
        ;
    }
    let a5: u64 = (a3 * p2) / s;
    proof {
        assert(a5 * p2 <= 2_718_030_000) by (nonlinear_arith)
            requires
                a5 <= 14_700,
                p2 <= 184_900,
        ;
    }
    let a7: u64 = (a5 * p2) / s;
    let raw: i64 = (a as i64) - (a3 / 3) as i64 + (a5 / 5) as i64 - (a7 / 7) as i64;
    if u < 0 {
        -raw
    } else {
        raw
    }
}

/// The first-quadrant arctangent `atan2_fx_spec`, for `0 <= y` and
/// `1 <= x`, both at most `2 * FX_ONE`.
pub fn atan2_fx(y: i64, x: i64) -> (r: i64)
    requires
        0 <= y <= 2_000_000,
        1 <= x <= 2_000_000,
    ensures
        r == atan2_fx_spec(y as int, x as int),
        0 <= r <= HALF_PI_FX,
{
    if y <= x {
        let t = div_trunc(y * FX_ONE, x);
        proof {
            lemma_tdiv_abs((y as int) * 1_000_000, x as int);
            assert(t as int <= 1_000_000) by (nonlinear_arith)
                requires
                    (t as int) * (x as int) <= (y as int) * 1_000_000,
                    y <= x,
                    x >= 1,
                    t >= 0,
            ;
        }
        atan_unit(t)
    } else {
        let t = div_trunc(x * FX_ONE, y);
        proof {
            lemma_tdiv_abs((x as int) * 1_000_000, y as int);
            assert(t as int <= 1_000_000) by (nonlinear_arith)
                requires
                    (t as int) * (y as int) <= (x as int) * 1_000_000,
                    x <= y,
                    y >= 1,
                    t >= 0,
            ;
        }
        HALF_PI_FX - atan_unit(t)
    }
}

/// The arctangent of a ratio in `[0, 1]`, matching `atan_unit_spec`.
fn atan_unit(t: i64) -> (r: i64)
    requires
        0 <= t <= FX_ONE,
    ensures
        r == atan_unit_spec(t as int),
        0 <= r <= HALF_PI_FX,
{
    if t <= TAN_PI_8_FX {
        let r = atan_poly_exec(t);
        proof {
            lemma_atan_poly_range(t as int);
        }
        r
    } else {
        let num: i64 = (t - FX_ONE) * FX_ONE;
        let arg: i64 = div_trunc(num, t + FX_ONE);
        proof {
            lemma_tdiv_abs(num as int, t as int + FX_ONE as int);
            assert(arg as int >= -430_000) by (nonlinear_arith)
                requires
                    arg <= 0,
                    -((arg as int) * ((t as int) + 1_000_000)) <= -(((t as int) - 1_000_000)
                        * 1_000_000),
                    414_214 < t as int <= 1_000_000,
            ;
            lemma_atan_poly_range(arg as int);
        }
        QUARTER_PI_FX + atan_poly_exec(arg)
    }
}

/// On the reduced range the arctangent polynomial stays within the
/// eighth-turn band, so both reduction branches land in `[0, pi/2]`.
proof fn lemma_atan_poly_range(u: int)
    requires
        -430_000 <= u <= 430_000,
    ensures
        -440_000 <= atan_poly(u) <= 440_000,
        0 <= u ==> 0 <= atan_poly(u),
        u <= 0 ==> atan_poly(u) <= 0,
{
    let a = if u < 0 {
        -u
    } else {
        u
    };
    let s = FX_ONE as int;
    assert(0 <= (a * a) / s <= 184_900) by (nonlinear_arith)
        requires
            0 <= a <= 430_000,
            s == 1_000_000,
    ;
    let p2 = (a * a) / s;
    assert(0 <= (a * p2) / s <= 79_507) by (nonlinear_arith)
        requires
            0 <= a <= 430_000,
            0 <= p2 <= 184_900,
            s == 1_000_000,
    ;
    let a3 = (a * p2) / s;
    assert(0 <= (a3 * p2) / s <= 14_701) by (nonlinear_arith)
        requires
            0 <= a3 <= 79_507,
            0 <= p2 <= 184_900,
            s == 1_000_000,
    ;
    let a5 = (a3 * p2) / s;
    assert(0 <= (a5 * p2) / s <= 2_719) by (nonlinear_arith)
        requires
            0 <= a5 <= 14_701,
            0 <= p2 <= 184_900,
            s == 1_000_000,
    ;
    assert((a * p2) / 1_000_000 <= a) by (nonlinear_arith)
        requires
            0 <= a,
            0 <= p2 <= 1_000_000,
    ;
    assert((a3 * p2) / 1_000_000 <= a3) by (nonlinear_arith)
        requires
            0 <= a3,
            0 <= p2 <= 1_000_000,
    ;
    let a5 = (a3 * p2) / s;
    assert((a5 * p2) / 1_000_000 <= a5) by (nonlinear_arith)
        requires
            0 <= a5,
            0 <= p2 <= 1_000_000,
    ;
    let a7 = (a5 * p2) / s;
    assert(0 <= a3 / 3 && 3 * (a3 / 3) <= a3) by (nonlinear_arith)
        requires
            a3 >= 0,
    ;
    assert(0 <= a5 / 5 && 5 * (a5 / 5) <= a5) by (nonlinear_arith)
        requires
            a5 >= 0,
    ;
    assert(0 <= a7 / 7 && 7 * (a7 / 7) <= a7) by (nonlinear_arith)
        requires
            a7 >= 0,
    ;
}

} // verus!
