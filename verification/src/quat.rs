//! Fixed-point quaternion algebra.
//!
//! A quaternion holds four `i64` components at scale `FX_ONE`. The
//! mathematical model `Quatm` has unbounded integer components; the
//! exact Hamilton product `qmul` multiplies the scales, and `qdown_by`
//! rescales with truncating division, which is what the executable
//! operations compute.

use vstd::prelude::*;
use crate::fixed::{FX_ONE, TWO_PI_FX, PI_FX, HALF_PI_FX, tdiv, lemma_tdiv_abs, lemma_tdiv_exact,
    lemma_tdiv_rem, div_trunc, div_trunc_wide, sqrt_floor, lemma_sqrt_floor_props, isqrt,
    cos_fx, cos_fx_spec, lemma_cos_fx_bounds, TRIG_ARG_MAX, atan2_fx, atan2_fx_spec};
use crate::vec3::{V3m, Vec3Fx, norm3_sq, comps3_bounded};

verus! {

/// Mathematical model of a quaternion: `w` is the scalar (real) part,
/// `x`, `y`, `z` the vector (imaginary) part.
pub ghost struct Quatm {
    pub x: int,
    pub y: int,
    pub z: int,
    pub w: int,
}

/// The squared euclidean norm.
pub open spec fn norm_sq(q: Quatm) -> int {
    q.x * q.x + q.y * q.y + q.z * q.z + q.w * q.w
}

/// Every component lies in `[-b, b]`.
pub open spec fn comps_bounded(q: Quatm, b: int) -> bool {
    -b <= q.x <= b && -b <= q.y <= b && -b <= q.z <= b && -b <= q.w <= b
}

/// The zero quaternion.
pub open spec fn qzero() -> Quatm {
    Quatm { x: 0, y: 0, z: 0, w: 0 }
}

/// The unit quaternion `1` at fixed-point scale: scalar `FX_ONE`,
/// vector zero.
pub open spec fn qunit() -> Quatm {
    Quatm { x: 0, y: 0, z: 0, w: FX_ONE as int }
}

/// The exact Hamilton product; the scale of the result is the product
/// of the scales of the factors.
pub open spec fn qmul(a: Quatm, b: Quatm) -> Quatm {
    Quatm {
        x: a.w * b.x + a.x * b.w + a.y * b.z - a.z * b.y,
        y: a.w * b.y - a.x * b.z + a.y * b.w + a.z * b.x,
        z: a.w * b.z + a.x * b.y - a.y * b.x + a.z * b.w,
        w: a.w * b.w - a.x * b.x - a.y * b.y - a.z * b.z,
    }
}

/// Componentwise sum.
pub open spec fn qadd(a: Quatm, b: Quatm) -> Quatm {
    Quatm { x: a.x + b.x, y: a.y + b.y, z: a.z + b.z, w: a.w + b.w }
}

/// The conjugate: the vector part negated.
pub open spec fn qconj(q: Quatm) -> Quatm {
    Quatm { x: -q.x, y: -q.y, z: -q.z, w: q.w }
}

/// Each component divided by `d`, truncating toward zero.
pub open spec fn qdown_by(q: Quatm, d: int) -> Quatm
    recommends
        d >= 1,
{
    Quatm { x: tdiv(q.x, d), y: tdiv(q.y, d), z: tdiv(q.z, d), w: tdiv(q.w, d) }
}

/// The fixed-point Hamilton product: the exact product rescaled back
/// to scale `FX_ONE`.
pub open spec fn qmul_fx(a: Quatm, b: Quatm) -> Quatm {
    qdown_by(qmul(a, b), FX_ONE as int)
}

proof fn nl_sq_nonneg(x: int)
    by (nonlinear_arith)
    ensures
        x * x >= 0,
{
}

proof fn nl_sq_mono(x: int, b: int)
    by (nonlinear_arith)
    requires
        -b <= x <= b,
        b >= 0,
    ensures
        x * x <= b * b,
{
}

proof fn nl_abs_from_sq(x: int, b: int)
    by (nonlinear_arith)
    requires
        x * x <= b * b,
        b >= 0,
    ensures
        -b <= x <= b,
{
}

/// The norm is non-negative.
pub proof fn lemma_norm_nonneg(q: Quatm)
    ensures
        norm_sq(q) >= 0,
{
    nl_sq_nonneg(q.x);
    nl_sq_nonneg(q.y);
    nl_sq_nonneg(q.z);
    nl_sq_nonneg(q.w);
}

/// A norm bound gives componentwise bounds: if `norm_sq(q) <= b * b`
/// with `b >= 0`, every component lies in `[-b, b]`.
pub proof fn lemma_norm_comps(q: Quatm, b: int)
    requires
        b >= 0,
        norm_sq(q) <= b * b,
    ensures
        comps_bounded(q, b),
{
    nl_sq_nonneg(q.x);
    nl_sq_nonneg(q.y);
    nl_sq_nonneg(q.z);
    nl_sq_nonneg(q.w);
    nl_abs_from_sq(q.x, b);
    nl_abs_from_sq(q.y, b);
    nl_abs_from_sq(q.z, b);
    nl_abs_from_sq(q.w, b);
}

proof fn nl_four_square(ax: int, ay: int, az: int, aw: int, kx: int, ky: int, kz: int, kw: int)
    ensures
        (aw * kx + ax * kw + ay * kz - az * ky) * (aw * kx + ax * kw + ay * kz - az * ky) + (aw * ky - ax * kz + ay * kw + az * kx) * (aw * ky - ax * kz + ay * kw + az * kx) + (aw * kz + ax * ky - ay * kx + az * kw) * (aw * kz + ax * ky - ay * kx + az * kw) + (aw * kw - ax * kx - ay * ky - az * kz) * (aw * kw - ax * kx - ay * ky - az * kz) == (ax * ax + ay * ay + az * az + aw * aw) * (kx * kx + ky * ky + kz * kz + kw * kw),
{
    assert((aw * kx + ax * kw + ay * kz - az * ky) * (aw * kx + ax * kw + ay * kz - az * ky) == (aw * kx) * (aw * kx) + (ax * kw) * (ax * kw) + (ay * kz) * (ay * kz) + (az * ky) * (az * ky) + 2 * ((aw * kx) * (ax * kw)) + 2 * ((aw * kx) * (ay * kz)) - 2 * ((aw * kx) * (az * ky)) + 2 * ((ax * kw) * (ay * kz)) - 2 * ((ax * kw) * (az * ky)) - 2 * ((ay * kz) * (az * ky))) by (nonlinear_arith);
    assert((aw * ky - ax * kz + ay * kw + az * kx) * (aw * ky - ax * kz + ay * kw + az * kx) == (aw * ky) * (aw * ky) + (ax * kz) * (ax * kz) + (ay * kw) * (ay * kw) + (az * kx) * (az * kx) - 2 * ((aw * ky) * (ax * kz)) + 2 * ((aw * ky) * (ay * kw)) + 2 * ((aw * ky) * (az * kx)) - 2 * ((ax * kz) * (ay * kw)) - 2 * ((ax * kz) * (az * kx)) + 2 * ((ay * kw) * (az * kx))) by (nonlinear_arith);
    assert((aw * kz + ax * ky - ay * kx + az * kw) * (aw * kz + ax * ky - ay * kx + az * kw) == (aw * kz) * (aw * kz) + (ax * ky) * (ax * ky) + (ay * kx) * (ay * kx) + (az * kw) * (az * kw) + 2 * ((aw * kz) * (ax * ky)) - 2 * ((aw * kz) * (ay * kx)) + 2 * ((aw * kz) * (az * kw)) - 2 * ((ax * ky) * (ay * kx)) + 2 * ((ax * ky) * (az * kw)) - 2 * ((ay * kx) * (az * kw))) by (nonlinear_arith);
    assert((aw * kw - ax * kx - ay * ky - az * kz) * (aw * kw - ax * kx - ay * ky - az * kz) == (aw * kw) * (aw * kw) + (ax * kx) * (ax * kx) + (ay * ky) * (ay * ky) + (az * kz) * (az * kz) - 2 * ((aw * kw) * (ax * kx)) - 2 * ((aw * kw) * (ay * ky)) - 2 * ((aw * kw) * (az * kz)) + 2 * ((ax * kx) * (ay * ky)) + 2 * ((ax * kx) * (az * kz)) + 2 * ((ay * ky) * (az * kz))) by (nonlinear_arith);
    assert((aw * kw) * (aw * kw) == (aw * aw) * (kw * kw)) by (nonlinear_arith);
    assert((aw * kw) * (ax * kx) == (ax * aw) * (kx * kw)) by (nonlinear_arith);
    assert((aw * kw) * (ay * ky) == (ay * aw) * (ky * kw)) by (nonlinear_arith);
    assert((aw * kw) * (az * kz) == (az * aw) * (kz * kw)) by (nonlinear_arith);
    assert((aw * kx) * (aw * kx) == (aw * aw) * (kx * kx)) by (nonlinear_arith);
    assert((aw * kx) * (ax * kw) == (ax * aw) * (kx * kw)) by (nonlinear_arith);
    assert((aw * kx) * (ay * kz) == (ay * aw) * (kx * kz)) by (nonlinear_arith);
    assert((aw * kx) * (az * ky) == (az * aw) * (kx * ky)) by (nonlinear_arith);
    assert((aw * ky) * (aw * ky) == (aw * aw) * (ky * ky)) by (nonlinear_arith);
    assert((aw * ky) * (ax * kz) == (ax * aw) * (ky * kz)) by (nonlinear_arith);
    assert((aw * ky) * (ay * kw) == (ay * aw) * (ky * kw)) by (nonlinear_arith);
    assert((aw * ky) * (az * kx) == (az * aw) * (kx * ky)) by (nonlinear_arith);
    assert((aw * kz) * (aw * kz) == (aw * aw) * (kz * kz)) by (nonlinear_arith);
    assert((aw * kz) * (ax * ky) == (ax * aw) * (ky * kz)) by (nonlinear_arith);
    assert((aw * kz) * (ay * kx) == (ay * aw) * (kx * kz)) by (nonlinear_arith);
    assert((aw * kz) * (az * kw) == (az * aw) * (kz * kw)) by (nonlinear_arith);
    assert((ax * kw) * (ax * kw) == (ax * ax) * (kw * kw)) by (nonlinear_arith);
    assert((ax * kw) * (ay * kz) == (ax * ay) * (kz * kw)) by (nonlinear_arith);
    assert((ax * kw) * (az * ky) == (ax * az) * (ky * kw)) by (nonlinear_arith);
    assert((ax * kx) * (ax * kx) == (ax * ax) * (kx * kx)) by (nonlinear_arith);
    assert((ax * kx) * (ay * ky) == (ax * ay) * (kx * ky)) by (nonlinear_arith);
    assert((ax * kx) * (az * kz) == (ax * az) * (kx * kz)) by (nonlinear_arith);
    assert((ax * ky) * (ax * ky) == (ax * ax) * (ky * ky)) by (nonlinear_arith);
    assert((ax * ky) * (ay * kx) == (ax * ay) * (kx * ky)) by (nonlinear_arith);
    assert((ax * ky) * (az * kw) == (ax * az) * (ky * kw)) by (nonlinear_arith);
    assert((ax * kz) * (ax * kz) == (ax * ax) * (kz * kz)) by (nonlinear_arith);
    assert((ax * kz) * (ay * kw) == (ax * ay) * (kz * kw)) by (nonlinear_arith);
    assert((ax * kz) * (az * kx) == (ax * az) * (kx * kz)) by (nonlinear_arith);
    assert((ay * kw) * (ay * kw) == (ay * ay) * (kw * kw)) by (nonlinear_arith);
    assert((ay * kw) * (az * kx) == (ay * az) * (kx * kw)) by (nonlinear_arith);
    assert((ay * kx) * (ay * kx) == (ay * ay) * (kx * kx)) by (nonlinear_arith);
    assert((ay * kx) * (az * kw) == (ay * az) * (kx * kw)) by (nonlinear_arith);
    assert((ay * ky) * (ay * ky) == (ay * ay) * (ky * ky)) by (nonlinear_arith);
    assert((ay * ky) * (az * kz) == (ay * az) * (ky * kz)) by (nonlinear_arith);
    assert((ay * kz) * (ay * kz) == (ay * ay) * (kz * kz)) by (nonlinear_arith);
    assert((ay * kz) * (az * ky) == (ay * az) * (ky * kz)) by (nonlinear_arith);
    assert((az * kw) * (az * kw) == (az * az) * (kw * kw)) by (nonlinear_arith);
    assert((az * kx) * (az * kx) == (az * az) * (kx * kx)) by (nonlinear_arith);
    assert((az * ky) * (az * ky) == (az * az) * (ky * ky)) by (nonlinear_arith);
    assert((az * kz) * (az * kz) == (az * az) * (kz * kz)) by (nonlinear_arith);
    assert((ax * ax + ay * ay + az * az + aw * aw) * (kx * kx + ky * ky + kz * kz + kw * kw) == (ax * ax) * (kx * kx + ky * ky + kz * kz + kw * kw) + (ay * ay) * (kx * kx + ky * ky + kz * kz + kw * kw) + (az * az) * (kx * kx + ky * ky + kz * kz + kw * kw) + (aw * aw) * (kx * kx + ky * ky + kz * kz + kw * kw)) by (nonlinear_arith);
    assert((ax * ax) * (kx * kx + ky * ky + kz * kz + kw * kw) == (ax * ax) * (kx * kx) + (ax * ax) * (ky * ky) + (ax * ax) * (kz * kz) + (ax * ax) * (kw * kw)) by (nonlinear_arith);
    assert((ay * ay) * (kx * kx + ky * ky + kz * kz + kw * kw) == (ay * ay) * (kx * kx) + (ay * ay) * (ky * ky) + (ay * ay) * (kz * kz) + (ay * ay) * (kw * kw)) by (nonlinear_arith);
    assert((az * az) * (kx * kx + ky * ky + kz * kz + kw * kw) == (az * az) * (kx * kx) + (az * az) * (ky * ky) + (az * az) * (kz * kz) + (az * az) * (kw * kw)) by (nonlinear_arith);
    assert((aw * aw) * (kx * kx + ky * ky + kz * kz + kw * kw) == (aw * aw) * (kx * kx) + (aw * aw) * (ky * ky) + (aw * aw) * (kz * kz) + (aw * aw) * (kw * kw)) by (nonlinear_arith);
}

proof fn nl_assoc_x(ax: int, ay: int, az: int, aw: int, kx: int, ky: int, kz: int, kw: int, mx: int, my: int, mz: int, mw: int)
    ensures
        (aw * kw - ax * kx - ay * ky - az * kz) * mx + (aw * kx + ax * kw + ay * kz - az * ky) * mw + (aw * ky - ax * kz + ay * kw + az * kx) * mz - (aw * kz + ax * ky - ay * kx + az * kw) * my == aw * (kw * mx + kx * mw + ky * mz - kz * my) + ax * (kw * mw - kx * mx - ky * my - kz * mz) + ay * (kw * mz + kx * my - ky * mx + kz * mw) - az * (kw * my - kx * mz + ky * mw + kz * mx),
{
    assert((aw * kw - ax * kx - ay * ky - az * kz) * mx == (aw * kw) * mx - (ax * kx) * mx - (ay * ky) * mx - (az * kz) * mx) by (nonlinear_arith);
    assert((aw * kw) * mx == aw * (kw * mx)) by (nonlinear_arith);
    assert((ax * kx) * mx == ax * (kx * mx)) by (nonlinear_arith);
    assert((ay * ky) * mx == ay * (ky * mx)) by (nonlinear_arith);
    assert((az * kz) * mx == az * (kz * mx)) by (nonlinear_arith);
    assert((aw * kx + ax * kw + ay * kz - az * ky) * mw == (aw * kx) * mw + (ax * kw) * mw + (ay * kz) * mw - (az * ky) * mw) by (nonlinear_arith);
    assert((aw * kx) * mw == aw * (kx * mw)) by (nonlinear_arith);
    assert((ax * kw) * mw == ax * (kw * mw)) by (nonlinear_arith);
    assert((ay * kz) * mw == ay * (kz * mw)) by (nonlinear_arith);
    assert((az * ky) * mw == az * (ky * mw)) by (nonlinear_arith);
    assert((aw * ky - ax * kz + ay * kw + az * kx) * mz == (aw * ky) * mz - (ax * kz) * mz + (ay * kw) * mz + (az * kx) * mz) by (nonlinear_arith);
    assert((aw * ky) * mz == aw * (ky * mz)) by (nonlinear_arith);
    assert((ax * kz) * mz == ax * (kz * mz)) by (nonlinear_arith);
    assert((ay * kw) * mz == ay * (kw * mz)) by (nonlinear_arith);
    assert((az * kx) * mz == az * (kx * mz)) by (nonlinear_arith);
    assert((aw * kz + ax * ky - ay * kx + az * kw) * my == (aw * kz) * my + (ax * ky) * my - (ay * kx) * my + (az * kw) * my) by (nonlinear_arith);
    assert((aw * kz) * my == aw * (kz * my)) by (nonlinear_arith);
    assert((ax * ky) * my == ax * (ky * my)) by (nonlinear_arith);
    assert((ay * kx) * my == ay * (kx * my)) by (nonlinear_arith);
    assert((az * kw) * my == az * (kw * my)) by (nonlinear_arith);
    assert(aw * (kw * mx + kx * mw + ky * mz - kz * my) == aw * (kw * mx) + aw * (kx * mw) + aw * (ky * mz) - aw * (kz * my)) by (nonlinear_arith);
    assert(ax * (kw * mw - kx * mx - ky * my - kz * mz) == ax * (kw * mw) - ax * (kx * mx) - ax * (ky * my) - ax * (kz * mz)) by (nonlinear_arith);
    assert(ay * (kw * mz + kx * my - ky * mx + kz * mw) == ay * (kw * mz) + ay * (kx * my) - ay * (ky * mx) + ay * (kz * mw)) by (nonlinear_arith);
    assert(az * (kw * my - kx * mz + ky * mw + kz * mx) == az * (kw * my) - az * (kx * mz) + az * (ky * mw) + az * (kz * mx)) by (nonlinear_arith);
}

proof fn nl_assoc_y(ax: int, ay: int, az: int, aw: int, kx: int, ky: int, kz: int, kw: int, mx: int, my: int, mz: int, mw: int)
    ensures
        (aw * kw - ax * kx - ay * ky - az * kz) * my - (aw * kx + ax * kw + ay * kz - az * ky) * mz + (aw * ky - ax * kz + ay * kw + az * kx) * mw + (aw * kz + ax * ky - ay * kx + az * kw) * mx == aw * (kw * my - kx * mz + ky * mw + kz * mx) - ax * (kw * mz + kx * my - ky * mx + kz * mw) + ay * (kw * mw - kx * mx - ky * my - kz * mz) + az * (kw * mx + kx * mw + ky * mz - kz * my),
{
    assert((aw * kw - ax * kx - ay * ky - az * kz) * my == (aw * kw) * my - (ax * kx) * my - (ay * ky) * my - (az * kz) * my) by (nonlinear_arith);
    assert((aw * kw) * my == aw * (kw * my)) by (nonlinear_arith);
    assert((ax * kx) * my == ax * (kx * my)) by (nonlinear_arith);
    assert((ay * ky) * my == ay * (ky * my)) by (nonlinear_arith);
    assert((az * kz) * my == az * (kz * my)) by (nonlinear_arith);
    assert((aw * kx + ax * kw + ay * kz - az * ky) * mz == (aw * kx) * mz + (ax * kw) * mz + (ay * kz) * mz - (az * ky) * mz) by (nonlinear_arith);
    assert((aw * kx) * mz == aw * (kx * mz)) by (nonlinear_arith);
    assert((ax * kw) * mz == ax * (kw * mz)) by (nonlinear_arith);
    assert((ay * kz) * mz == ay * (kz * mz)) by (nonlinear_arith);
    assert((az * ky) * mz == az * (ky * mz)) by (nonlinear_arith);
    assert((aw * ky - ax * kz + ay * kw + az * kx) * mw == (aw * ky) * mw - (ax * kz) * mw + (ay * kw) * mw + (az * kx) * mw) by (nonlinear_arith);
    assert((aw * ky) * mw == aw * (ky * mw)) by (nonlinear_arith);
    assert((ax * kz) * mw == ax * (kz * mw)) by (nonlinear_arith);
    assert((ay * kw) * mw == ay * (kw * mw)) by (nonlinear_arith);
    assert((az * kx) * mw == az * (kx * mw)) by (nonlinear_arith);
    assert((aw * kz + ax * ky - ay * kx + az * kw) * mx == (aw * kz) * mx + (ax * ky) * mx - (ay * kx) * mx + (az * kw) * mx) by (nonlinear_arith);
    assert((aw * kz) * mx == aw * (kz * mx)) by (nonlinear_arith);
    assert((ax * ky) * mx == ax * (ky * mx)) by (nonlinear_arith);
    assert((ay * kx) * mx == ay * (kx * mx)) by (nonlinear_arith);
    assert((az * kw) * mx == az * (kw * mx)) by (nonlinear_arith);
    assert(aw * (kw * my - kx * mz + ky * mw + kz * mx) == aw * (kw * my) - aw * (kx * mz) + aw * (ky * mw) + aw * (kz * mx)) by (nonlinear_arith);
    assert(ax * (kw * mz + kx * my - ky * mx + kz * mw) == ax * (kw * mz) + ax * (kx * my) - ax * (ky * mx) + ax * (kz * mw)) by (nonlinear_arith);
    assert(ay * (kw * mw - kx * mx - ky * my - kz * mz) == ay * (kw * mw) - ay * (kx * mx) - ay * (ky * my) - ay * (kz * mz)) by (nonlinear_arith);
    assert(az * (kw * mx + kx * mw + ky * mz - kz * my) == az * (kw * mx) + az * (kx * mw) + az * (ky * mz) - az * (kz * my)) by (nonlinear_arith);
}

proof fn nl_assoc_z(ax: int, ay: int, az: int, aw: int, kx: int, ky: int, kz: int, kw: int, mx: int, my: int, mz: int, mw: int)
    ensures
        (aw * kw - ax * kx - ay * ky - az * kz) * mz + (aw * kx + ax * kw + ay * kz - az * ky) * my - (aw * ky - ax * kz + ay * kw + az * kx) * mx + (aw * kz + ax * ky - ay * kx + az * kw) * mw == aw * (kw * mz + kx * my - ky * mx + kz * mw) + ax * (kw * my - kx * mz + ky * mw + kz * mx) - ay * (kw * mx + kx * mw + ky * mz - kz * my) + az * (kw * mw - kx * mx - ky * my - kz * mz),
{
    assert((aw * kw - ax * kx - ay * ky - az * kz) * mz == (aw * kw) * mz - (ax * kx) * mz - (ay * ky) * mz - (az * kz) * mz) by (nonlinear_arith);
    assert((aw * kw) * mz == aw * (kw * mz)) by (nonlinear_arith);
    assert((ax * kx) * mz == ax * (kx * mz)) by (nonlinear_arith);
    assert((ay * ky) * mz == ay * (ky * mz)) by (nonlinear_arith);
    assert((az * kz) * mz == az * (kz * mz)) by (nonlinear_arith);
    assert((aw * kx + ax * kw + ay * kz - az * ky) * my == (aw * kx) * my + (ax * kw) * my + (ay * kz) * my - (az * ky) * my) by (nonlinear_arith);
    assert((aw * kx) * my == aw * (kx * my)) by (nonlinear_arith);
    assert((ax * kw) * my == ax * (kw * my)) by (nonlinear_arith);
    assert((ay * kz) * my == ay * (kz * my)) by (nonlinear_arith);
    assert((az * ky) * my == az * (ky * my)) by (nonlinear_arith);
    assert((aw * ky - ax * kz + ay * kw + az * kx) * mx == (aw * ky) * mx - (ax * kz) * mx + (ay * kw) * mx + (az * kx) * mx) by (nonlinear_arith);
    assert((aw * ky) * mx == aw * (ky * mx)) by (nonlinear_arith);
    assert((ax * kz) * mx == ax * (kz * mx)) by (nonlinear_arith);
    assert((ay * kw) * mx == ay * (kw * mx)) by (nonlinear_arith);
    assert((az * kx) * mx == az * (kx * mx)) by (nonlinear_arith);
    assert((aw * kz + ax * ky - ay * kx + az * kw) * mw == (aw * kz) * mw + (ax * ky) * mw - (ay * kx) * mw + (az * kw) * mw) by (nonlinear_arith);
    assert((aw * kz) * mw == aw * (kz * mw)) by (nonlinear_arith);
    assert((ax * ky) * mw == ax * (ky * mw)) by (nonlinear_arith);
    assert((ay * kx) * mw == ay * (kx * mw)) by (nonlinear_arith);
    assert((az * kw) * mw == az * (kw * mw)) by (nonlinear_arith);
    assert(aw * (kw * mz + kx * my - ky * mx + kz * mw) == aw * (kw * mz) + aw * (kx * my) - aw * (ky * mx) + aw * (kz * mw)) by (nonlinear_arith);
    assert(ax * (kw * my - kx * mz + ky * mw + kz * mx) == ax * (kw * my) - ax * (kx * mz) + ax * (ky * mw) + ax * (kz * mx)) by (nonlinear_arith);
    assert(ay * (kw * mx + kx * mw + ky * mz - kz * my) == ay * (kw * mx) + ay * (kx * mw) + ay * (ky * mz) - ay * (kz * my)) by (nonlinear_arith);
    assert(az * (kw * mw - kx * mx - ky * my - kz * mz) == az * (kw * mw) - az * (kx * mx) - az * (ky * my) - az * (kz * mz)) by (nonlinear_arith);
}

proof fn nl_assoc_w(ax: int, ay: int, az: int, aw: int, kx: int, ky: int, kz: int, kw: int, mx: int, my: int, mz: int, mw: int)
    ensures
        (aw * kw - ax * kx - ay * ky - az * kz) * mw - (aw * kx + ax * kw + ay * kz - az * ky) * mx - (aw * ky - ax * kz + ay * kw + az * kx) * my - (aw * kz + ax * ky - ay * kx + az * kw) * mz == aw * (kw * mw - kx * mx - ky * my - kz * mz) - ax * (kw * mx + kx * mw + ky * mz - kz * my) - ay * (kw * my - kx * mz + ky * mw + kz * mx) - az * (kw * mz + kx * my - ky * mx + kz * mw),
{
    assert((aw * kw - ax * kx - ay * ky - az * kz) * mw == (aw * kw) * mw - (ax * kx) * mw - (ay * ky) * mw - (az * kz) * mw) by (nonlinear_arith);
    assert((aw * kw) * mw == aw * (kw * mw)) by (nonlinear_arith);
    assert((ax * kx) * mw == ax * (kx * mw)) by (nonlinear_arith);
    assert((ay * ky) * mw == ay * (ky * mw)) by (nonlinear_arith);
    assert((az * kz) * mw == az * (kz * mw)) by (nonlinear_arith);
    assert((aw * kx + ax * kw + ay * kz - az * ky) * mx == (aw * kx) * mx + (ax * kw) * mx + (ay * kz) * mx - (az * ky) * mx) by (nonlinear_arith);
    assert((aw * kx) * mx == aw * (kx * mx)) by (nonlinear_arith);
    assert((ax * kw) * mx == ax * (kw * mx)) by (nonlinear_arith);
    assert((ay * kz) * mx == ay * (kz * mx)) by (nonlinear_arith);
    assert((az * ky) * mx == az * (ky * mx)) by (nonlinear_arith);
    assert((aw * ky - ax * kz + ay * kw + az * kx) * my == (aw * ky) * my - (ax * kz) * my + (ay * kw) * my + (az * kx) * my) by (nonlinear_arith);
    assert((aw * ky) * my == aw * (ky * my)) by (nonlinear_arith);
    assert((ax * kz) * my == ax * (kz * my)) by (nonlinear_arith);
    assert((ay * kw) * my == ay * (kw * my)) by (nonlinear_arith);
    assert((az * kx) * my == az * (kx * my)) by (nonlinear_arith);
    assert((aw * kz + ax * ky - ay * kx + az * kw) * mz == (aw * kz) * mz + (ax * ky) * mz - (ay * kx) * mz + (az * kw) * mz) by (nonlinear_arith);
    assert((aw * kz) * mz == aw * (kz * mz)) by (nonlinear_arith);
    assert((ax * ky) * mz == ax * (ky * mz)) by (nonlinear_arith);
    assert((ay * kx) * mz == ay * (kx * mz)) by (nonlinear_arith);
    assert((az * kw) * mz == az * (kw * mz)) by (nonlinear_arith);
    assert(aw * (kw * mw - kx * mx - ky * my - kz * mz) == aw * (kw * mw) - aw * (kx * mx) - aw * (ky * my) - aw * (kz * mz)) by (nonlinear_arith);
    assert(ax * (kw * mx + kx * mw + ky * mz - kz * my) == ax * (kw * mx) + ax * (kx * mw) + ax * (ky * mz) - ax * (kz * my)) by (nonlinear_arith);
    assert(ay * (kw * my - kx * mz + ky * mw + kz * mx) == ay * (kw * my) - ay * (kx * mz) + ay * (ky * mw) + ay * (kz * mx)) by (nonlinear_arith);
    assert(az * (kw * mz + kx * my - ky * mx + kz * mw) == az * (kw * mz) + az * (kx * my) - az * (ky * mx) + az * (kz * mw)) by (nonlinear_arith);
}

proof fn nl_cauchy_schwarz(ax: int, ay: int, az: int, aw: int, kx: int, ky: int, kz: int, kw: int)
    ensures
        (ax * kx + ay * ky + az * kz + aw * kw) * (ax * kx + ay * ky + az * kz + aw * kw) <= (ax * ax + ay * ay + az * az + aw * aw) * (kx * kx + ky * ky + kz * kz + kw * kw),
{
    assert((ax * kx + ay * ky + az * kz + aw * kw) * (ax * kx + ay * ky + az * kz + aw * kw) == (ax * kx) * (ax * kx) + (ay * ky) * (ay * ky) + (az * kz) * (az * kz) + (aw * kw) * (aw * kw) + 2 * ((ax * kx) * (ay * ky)) + 2 * ((ax * kx) * (az * kz)) + 2 * ((ax * kx) * (aw * kw)) + 2 * ((ay * ky) * (az * kz)) + 2 * ((ay * ky) * (aw * kw)) + 2 * ((az * kz) * (aw * kw))) by (nonlinear_arith);
    assert((ax * kx) * (ax * kx) == (ax * ax) * (kx * kx)) by (nonlinear_arith);
    assert((ax * kx) * (ay * ky) == (ax * ay) * (kx * ky)) by (nonlinear_arith);
    assert((ax * kx) * (az * kz) == (ax * az) * (kx * kz)) by (nonlinear_arith);
    assert((ax * kx) * (aw * kw) == (ax * aw) * (kx * kw)) by (nonlinear_arith);
    assert((ay * ky) * (ay * ky) == (ay * ay) * (ky * ky)) by (nonlinear_arith);
    assert((ay * ky) * (az * kz) == (ay * az) * (ky * kz)) by (nonlinear_arith);
    assert((ay * ky) * (aw * kw) == (ay * aw) * (ky * kw)) by (nonlinear_arith);
    assert((az * kz) * (az * kz) == (az * az) * (kz * kz)) by (nonlinear_arith);
    assert((az * kz) * (aw * kw) == (az * aw) * (kz * kw)) by (nonlinear_arith);
    assert((aw * kw) * (aw * kw) == (aw * aw) * (kw * kw)) by (nonlinear_arith);
    assert((ax * ax + ay * ay + az * az + aw * aw) * (kx * kx + ky * ky + kz * kz + kw * kw) == (ax * ax) * (kx * kx + ky * ky + kz * kz + kw * kw) + (ay * ay) * (kx * kx + ky * ky + kz * kz + kw * kw) + (az * az) * (kx * kx + ky * ky + kz * kz + kw * kw) + (aw * aw) * (kx * kx + ky * ky + kz * kz + kw * kw)) by (nonlinear_arith);
    assert((ax * ax) * (kx * kx + ky * ky + kz * kz + kw * kw) == (ax * ax) * (kx * kx) + (ax * ax) * (ky * ky) + (ax * ax) * (kz * kz) + (ax * ax) * (kw * kw)) by (nonlinear_arith);
    assert((ay * ay) * (kx * kx + ky * ky + kz * kz + kw * kw) == (ay * ay) * (kx * kx) + (ay * ay) * (ky * ky) + (ay * ay) * (kz * kz) + (ay * ay) * (kw * kw)) by (nonlinear_arith);
    assert((az * az) * (kx * kx + ky * ky + kz * kz + kw * kw) == (az * az) * (kx * kx) + (az * az) * (ky * ky) + (az * az) * (kz * kz) + (az * az) * (kw * kw)) by (nonlinear_arith);
    assert((aw * aw) * (kx * kx + ky * ky + kz * kz + kw * kw) == (aw * aw) * (kx * kx) + (aw * aw) * (ky * ky) + (aw * aw) * (kz * kz) + (aw * aw) * (kw * kw)) by (nonlinear_arith);
    assert((ax * ky - ay * kx) * (ax * ky - ay * kx) == (ax * ky) * (ax * ky) - 2 * ((ax * ky) * (ay * kx)) + (ay * kx) * (ay * kx)) by (nonlinear_arith);
    assert((ax * ky) * (ax * ky) == (ax * ax) * (ky * ky)) by (nonlinear_arith);
    assert((ay * kx) * (ay * kx) == (ay * ay) * (kx * kx)) by (nonlinear_arith);
    assert((ax * ky) * (ay * kx) == (ax * ay) * (kx * ky)) by (nonlinear_arith);
    assert((ax * ky - ay * kx) * (ax * ky - ay * kx) >= 0) by (nonlinear_arith);
    assert((ax * kz - az * kx) * (ax * kz - az * kx) == (ax * kz) * (ax * kz) - 2 * ((ax * kz) * (az * kx)) + (az * kx) * (az * kx)) by (nonlinear_arith);
    assert((ax * kz) * (ax * kz) == (ax * ax) * (kz * kz)) by (nonlinear_arith);
    assert((az * kx) * (az * kx) == (az * az) * (kx * kx)) by (nonlinear_arith);
    assert((ax * kz) * (az * kx) == (ax * az) * (kx * kz)) by (nonlinear_arith);
    assert((ax * kz - az * kx) * (ax * kz - az * kx) >= 0) by (nonlinear_arith);
    assert((ax * kw - aw * kx) * (ax * kw - aw * kx) == (ax * kw) * (ax * kw) - 2 * ((ax * kw) * (aw * kx)) + (aw * kx) * (aw * kx)) by (nonlinear_arith);
    assert((ax * kw) * (ax * kw) == (ax * ax) * (kw * kw)) by (nonlinear_arith);
    assert((aw * kx) * (aw * kx) == (aw * aw) * (kx * kx)) by (nonlinear_arith);
    assert((ax * kw) * (aw * kx) == (ax * aw) * (kx * kw)) by (nonlinear_arith);
    assert((ax * kw - aw * kx) * (ax * kw - aw * kx) >= 0) by (nonlinear_arith);
    assert((ay * kz - az * ky) * (ay * kz - az * ky) == (ay * kz) * (ay * kz) - 2 * ((ay * kz) * (az * ky)) + (az * ky) * (az * ky)) by (nonlinear_arith);
    assert((ay * kz) * (ay * kz) == (ay * ay) * (kz * kz)) by (nonlinear_arith);
    assert((az * ky) * (az * ky) == (az * az) * (ky * ky)) by (nonlinear_arith);
    assert((ay * kz) * (az * ky) == (ay * az) * (ky * kz)) by (nonlinear_arith);
    assert((ay * kz - az * ky) * (ay * kz - az * ky) >= 0) by (nonlinear_arith);
    assert((ay * kw - aw * ky) * (ay * kw - aw * ky) == (ay * kw) * (ay * kw) - 2 * ((ay * kw) * (aw * ky)) + (aw * ky) * (aw * ky)) by (nonlinear_arith);
    assert((ay * kw) * (ay * kw) == (ay * ay) * (kw * kw)) by (nonlinear_arith);
    assert((aw * ky) * (aw * ky) == (aw * aw) * (ky * ky)) by (nonlinear_arith);
    assert((ay * kw) * (aw * ky) == (ay * aw) * (ky * kw)) by (nonlinear_arith);
    assert((ay * kw - aw * ky) * (ay * kw - aw * ky) >= 0) by (nonlinear_arith);
    assert((az * kw - aw * kz) * (az * kw - aw * kz) == (az * kw) * (az * kw) - 2 * ((az * kw) * (aw * kz)) + (aw * kz) * (aw * kz)) by (nonlinear_arith);
    assert((az * kw) * (az * kw) == (az * az) * (kw * kw)) by (nonlinear_arith);
    assert((aw * kz) * (aw * kz) == (aw * aw) * (kz * kz)) by (nonlinear_arith);
    assert((az * kw) * (aw * kz) == (az * aw) * (kz * kw)) by (nonlinear_arith);
    assert((az * kw - aw * kz) * (az * kw - aw * kz) >= 0) by (nonlinear_arith);
}


/// Euler's four-square identity: the squared norm of the exact Hamilton
/// product is the product of the squared norms.
pub proof fn lemma_qmul_norm(a: Quatm, b: Quatm)
    ensures
        norm_sq(qmul(a, b)) == norm_sq(a) * norm_sq(b),
{
    nl_four_square(a.x, a.y, a.z, a.w, b.x, b.y, b.z, b.w);
}

/// The exact Hamilton product is associative.
pub proof fn lemma_qmul_assoc(a: Quatm, b: Quatm, c: Quatm)
    ensures
        qmul(qmul(a, b), c) == qmul(a, qmul(b, c)),
{
    nl_assoc_x(a.x, a.y, a.z, a.w, b.x, b.y, b.z, b.w, c.x, c.y, c.z, c.w);
    nl_assoc_y(a.x, a.y, a.z, a.w, b.x, b.y, b.z, b.w, c.x, c.y, c.z, c.w);
    nl_assoc_z(a.x, a.y, a.z, a.w, b.x, b.y, b.z, b.w, c.x, c.y, c.z, c.w);
    nl_assoc_w(a.x, a.y, a.z, a.w, b.x, b.y, b.z, b.w, c.x, c.y, c.z, c.w);
}

/// The exact Hamilton product distributes over the sum.
pub proof fn lemma_qmul_distrib(a: Quatm, b: Quatm, c: Quatm)
    ensures
        qmul(a, qadd(b, c)) == qadd(qmul(a, b), qmul(a, c)),
        qmul(qadd(b, c), a) == qadd(qmul(b, a), qmul(c, a)),
{
    assert(a.x * (b.x + c.x) == a.x * b.x + a.x * c.x) by (nonlinear_arith);
    assert((b.x + c.x) * a.x == b.x * a.x + c.x * a.x) by (nonlinear_arith);
    assert(a.x * (b.y + c.y) == a.x * b.y + a.x * c.y) by (nonlinear_arith);
    assert((b.y + c.y) * a.x == b.y * a.x + c.y * a.x) by (nonlinear_arith);
    assert(a.x * (b.z + c.z) == a.x * b.z + a.x * c.z) by (nonlinear_arith);
    assert((b.z + c.z) * a.x == b.z * a.x + c.z * a.x) by (nonlinear_arith);
    assert(a.x * (b.w + c.w) == a.x * b.w + a.x * c.w) by (nonlinear_arith);
    assert((b.w + c.w) * a.x == b.w * a.x + c.w * a.x) by (nonlinear_arith);
    assert(a.y * (b.x + c.x) == a.y * b.x + a.y * c.x) by (nonlinear_arith);
    assert((b.x + c.x) * a.y == b.x * a.y + c.x * a.y) by (nonlinear_arith);
    assert(a.y * (b.y + c.y) == a.y * b.y + a.y * c.y) by (nonlinear_arith);
    assert((b.y + c.y) * a.y == b.y * a.y + c.y * a.y) by (nonlinear_arith);
    assert(a.y * (b.z + c.z) == a.y * b.z + a.y * c.z) by (nonlinear_arith);
    assert((b.z + c.z) * a.y == b.z * a.y + c.z * a.y) by (nonlinear_arith);
    assert(a.y * (b.w + c.w) == a.y * b.w + a.y * c.w) by (nonlinear_arith);
    assert((b.w + c.w) * a.y == b.w * a.y + c.w * a.y) by (nonlinear_arith);
    assert(a.z * (b.x + c.x) == a.z * b.x + a.z * c.x) by (nonlinear_arith);
    assert((b.x + c.x) * a.z == b.x * a.z + c.x * a.z) by (nonlinear_arith);
    assert(a.z * (b.y + c.y) == a.z * b.y + a.z * c.y) by (nonlinear_arith);
    assert((b.y + c.y) * a.z == b.y * a.z + c.y * a.z) by (nonlinear_arith);
    assert(a.z * (b.z + c.z) == a.z * b.z + a.z * c.z) by (nonlinear_arith);
    assert((b.z + c.z) * a.z == b.z * a.z + c.z * a.z) by (nonlinear_arith);
    assert(a.z * (b.w + c.w) == a.z * b.w + a.z * c.w) by (nonlinear_arith);
    assert((b.w + c.w) * a.z == b.w * a.z + c.w * a.z) by (nonlinear_arith);
    assert(a.w * (b.x + c.x) == a.w * b.x + a.w * c.x) by (nonlinear_arith);
    assert((b.x + c.x) * a.w == b.x * a.w + c.x * a.w) by (nonlinear_arith);
    assert(a.w * (b.y + c.y) == a.w * b.y + a.w * c.y) by (nonlinear_arith);
    assert((b.y + c.y) * a.w == b.y * a.w + c.y * a.w) by (nonlinear_arith);
    assert(a.w * (b.z + c.z) == a.w * b.z + a.w * c.z) by (nonlinear_arith);
    assert((b.z + c.z) * a.w == b.z * a.w + c.z * a.w) by (nonlinear_arith);
    assert(a.w * (b.w + c.w) == a.w * b.w + a.w * c.w) by (nonlinear_arith);
    assert((b.w + c.w) * a.w == b.w * a.w + c.w * a.w) by (nonlinear_arith);
}

proof fn nl_unit_scale(qx: int, qy: int, qz: int, qw: int, s: int, ux: int, uy: int, uz: int, uw: int)
    by (nonlinear_arith)
    requires
        ux == 0,
        uy == 0,
        uz == 0,
        uw == s,
    ensures
        uw * qx + ux * qw + uy * qz - uz * qy == qx * s,
        uw * qy - ux * qz + uy * qw + uz * qx == qy * s,
        uw * qz + ux * qy - uy * qx + uz * qw == qz * s,
        uw * qw - ux * qx - uy * qy - uz * qz == qw * s,
        qw * uw - qx * ux - qy * uy - qz * uz == qw * s,
        qw * ux + qx * uw + qy * uz - qz * uy == qx * s,
        qw * uy - qx * uz + qy * uw + qz * ux == qy * s,
        qw * uz + qx * uy - qy * ux + qz * uw == qz * s,
{
}

/// Multiplying by the unit quaternion on either side scales by `FX_ONE`,
/// and rescaling gives the argument back.
pub proof fn lemma_qmul_fx_unit(q: Quatm)
    ensures
        qmul_fx(qunit(), q) == q,
        qmul_fx(q, qunit()) == q,
{
    let s = FX_ONE as int;
    let u = qunit();
    nl_unit_scale(q.x, q.y, q.z, q.w, s, u.x, u.y, u.z, u.w);
    lemma_tdiv_exact(q.x, s);
    lemma_tdiv_exact(q.y, s);
    lemma_tdiv_exact(q.z, s);
    lemma_tdiv_exact(q.w, s);
}

proof fn nl_zero_mul(qx: int, qy: int, qz: int, qw: int, ux: int, uy: int, uz: int, uw: int)
    by (nonlinear_arith)
    requires
        ux == 0,
        uy == 0,
        uz == 0,
        uw == 0,
    ensures
        uw * qx + ux * qw + uy * qz - uz * qy == 0,
        uw * qy - ux * qz + uy * qw + uz * qx == 0,
        uw * qz + ux * qy - uy * qx + uz * qw == 0,
        uw * qw - ux * qx - uy * qy - uz * qz == 0,
        qw * uw - qx * ux - qy * uy - qz * uz == 0,
        qw * ux + qx * uw + qy * uz - qz * uy == 0,
        qw * uy - qx * uz + qy * uw + qz * ux == 0,
        qw * uz + qx * uy - qy * ux + qz * uw == 0,
{
}

/// Multiplying the zero quaternion gives zero, before and after rescaling.
pub proof fn lemma_qmul_fx_zero(q: Quatm)
    ensures
        qmul_fx(qzero(), q) == qzero(),
        qmul_fx(q, qzero()) == qzero(),
{
    let u = qzero();
    nl_zero_mul(q.x, q.y, q.z, q.w, u.x, u.y, u.z, u.w);
}

proof fn nl_mul_sign(u: int, v: int)
    by (nonlinear_arith)
    requires
        v >= 0,
    ensures
        u >= 0 ==> u * v >= 0,
        u <= 0 ==> u * v <= 0,
{
}

proof fn nl_sq_neg(x: int)
    by (nonlinear_arith)
    ensures
        (-x) * (-x) == x * x,
{
}

proof fn nl_reassoc_sq(r: int, d: int)
    by (nonlinear_arith)
    ensures
        (r * d) * (r * d) == (r * r) * (d * d),
{
}

proof fn nl_sq_split(u: int, v: int)
    by (nonlinear_arith)
    ensures
        (u + v) * (u + v) == u * u + 2 * (u * v) + v * v,
{
}

proof fn nl_mul_bound(u: int, v: int, ub: int, vb: int)
    by (nonlinear_arith)
    requires
        ub >= 0,
        vb >= 0,
        -ub <= u <= ub,
        -vb <= v <= vb,
    ensures
        u * v <= ub * vb,
{
}

proof fn lemma_trunc_sq_le(e: int, r: int, d: int)
    requires
        d >= 1,
        (if e >= 0 {
            0 <= r && r * d <= e
        } else {
            r <= 0 && -(r * d) <= -e
        }),
    ensures
        (r * r) * (d * d) <= e * e,
{
    nl_mul_sign(r, d);
    nl_reassoc_sq(r, d);
    if e >= 0 {
        nl_sq_mono(r * d, e);
    } else {
        nl_sq_mono(r * d, -e);
        nl_sq_neg(e);
    }
}

proof fn lemma_trunc_sq_ge(e: int, r: int, d: int, emax: int)
    requires
        d >= 1,
        emax >= 0,
        -emax <= e <= emax,
        (if e >= 0 {
            0 <= r && r * d <= e
        } else {
            r <= 0 && -(r * d) <= -e
        }),
        e - r * d < d,
        -(e - r * d) < d,
    ensures
        e * e <= (r * r) * (d * d) + 2 * (emax * d) + d * d,
{
    nl_mul_sign(r, d);
    nl_sq_split(r * d, e - r * d);
    nl_reassoc_sq(r, d);
    nl_mul_bound(r * d, e - r * d, emax, d);
    nl_sq_mono(e - r * d, d);
}

proof fn nl_distrib4(p: int, q: int, r: int, s: int, t: int)
    by (nonlinear_arith)
    ensures
        (p + q + r + s) * t == p * t + q * t + r * t + s * t,
{
}

/// Rescaling by `d` at most divides the squared norm by `d * d`.
pub proof fn lemma_qdown_norm_le(e: Quatm, d: int)
    requires
        d >= 1,
    ensures
        norm_sq(qdown_by(e, d)) * (d * d) <= norm_sq(e),
{
    let r = qdown_by(e, d);
    lemma_tdiv_abs(e.x, d);
    lemma_tdiv_abs(e.y, d);
    lemma_tdiv_abs(e.z, d);
    lemma_tdiv_abs(e.w, d);
    lemma_trunc_sq_le(e.x, r.x, d);
    lemma_trunc_sq_le(e.y, r.y, d);
    lemma_trunc_sq_le(e.z, r.z, d);
    lemma_trunc_sq_le(e.w, r.w, d);
    nl_distrib4(r.x * r.x, r.y * r.y, r.z * r.z, r.w * r.w, d * d);
}

/// Rescaling by `d` loses at most `8 * emax * d + 4 * d * d` of the
/// exact squared norm, where `emax` bounds the components.
pub proof fn lemma_qdown_norm_ge(e: Quatm, d: int, emax: int)
    requires
        d >= 1,
        emax >= 0,
        comps_bounded(e, emax),
    ensures
        norm_sq(e) <= norm_sq(qdown_by(e, d)) * (d * d) + 8 * (emax * d) + 4 * (d * d),
{
    let r = qdown_by(e, d);
    lemma_tdiv_abs(e.x, d);
    lemma_tdiv_abs(e.y, d);
    lemma_tdiv_abs(e.z, d);
    lemma_tdiv_abs(e.w, d);
    lemma_tdiv_rem(e.x, d);
    lemma_tdiv_rem(e.y, d);
    lemma_tdiv_rem(e.z, d);
    lemma_tdiv_rem(e.w, d);
    lemma_trunc_sq_ge(e.x, r.x, d, emax);
    lemma_trunc_sq_ge(e.y, r.y, d, emax);
    lemma_trunc_sq_ge(e.z, r.z, d, emax);
    lemma_trunc_sq_ge(e.w, r.w, d, emax);
    nl_distrib4(r.x * r.x, r.y * r.y, r.z * r.z, r.w * r.w, d * d);
}

/// The squared norm of the fixed-point product is at most the product
/// of the squared norms divided by the squared scale.
pub proof fn lemma_qmul_fx_norm(a: Quatm, b: Quatm)
    ensures
        norm_sq(qmul_fx(a, b)) * ((FX_ONE as int) * (FX_ONE as int)) <= norm_sq(a) * norm_sq(b),
{
    lemma_qmul_norm(a, b);
    lemma_qdown_norm_le(qmul(a, b), FX_ONE as int);
}

proof fn lemma_inner_bound(inner: int, da: int, db: int, na: int, nb: int)
    requires
        da >= 0,
        db >= 0,
        0 <= na <= da * da,
        0 <= nb <= db * db,
        inner * inner <= na * nb,
    ensures
        inner <= da * db,
{
    assert(na * nb <= (da * da) * (db * db)) by (nonlinear_arith)
        requires
            0 <= na <= da * da,
            0 <= nb <= db * db,
    ;
    assert((da * da) * (db * db) == (da * db) * (da * db)) by (nonlinear_arith);
    assert(da * db >= 0) by (nonlinear_arith)
        requires
            da >= 0,
            db >= 0,
    ;
    assert(inner <= da * db) by (nonlinear_arith)
        requires
            inner * inner <= (da * db) * (da * db),
            da * db >= 0,
    ;
}

/// A triangle-inequality step for sums: if `norm_sq(a) <= da * da` and
/// `norm_sq(b) <= db * db`, then `norm_sq(qadd(a, b)) <= (da + db)^2`.
pub proof fn lemma_qadd_norm(a: Quatm, b: Quatm, da: int, db: int)
    requires
        da >= 0,
        db >= 0,
        norm_sq(a) <= da * da,
        norm_sq(b) <= db * db,
    ensures
        norm_sq(qadd(a, b)) <= (da + db) * (da + db),
{
    let inner = a.x * b.x + a.y * b.y + a.z * b.z + a.w * b.w;
    lemma_norm_nonneg(a);
    lemma_norm_nonneg(b);
    nl_cauchy_schwarz(a.x, a.y, a.z, a.w, b.x, b.y, b.z, b.w);
    lemma_inner_bound(inner, da, db, norm_sq(a), norm_sq(b));
    assert((a.x + b.x) * (a.x + b.x) == a.x * a.x + 2 * (a.x * b.x) + b.x * b.x)
        by (nonlinear_arith);
    assert((a.y + b.y) * (a.y + b.y) == a.y * a.y + 2 * (a.y * b.y) + b.y * b.y)
        by (nonlinear_arith);
    assert((a.z + b.z) * (a.z + b.z) == a.z * a.z + 2 * (a.z * b.z) + b.z * b.z)
        by (nonlinear_arith);
    assert((a.w + b.w) * (a.w + b.w) == a.w * a.w + 2 * (a.w * b.w) + b.w * b.w)
        by (nonlinear_arith);
    assert((da + db) * (da + db) == da * da + 2 * (da * db) + db * db) by (nonlinear_arith);
}

/// The largest component magnitude `Quaternion::multiply` accepts.
pub const QMUL_COMP_MAX: i64 = 1_500_000_000_000;

/// The largest component magnitude `Quaternion::normalize` accepts.
pub const NORMALIZE_COMP_MAX: i64 = 10_000_000;

/// The smallest squared norm (a quarter of the unit norm, squared) for
/// which `Quaternion::normalize` promises a unit result.
pub const QMIN_NORM_SQ: i64 = 62_500_000_000;

/// The largest component magnitude `Quaternion::exp_map` accepts.
pub const EXP_ARG_MAX: i64 = 1_000_000_000_000;

/// Each component scaled by `k`.
pub open spec fn qscale(q: Quatm, k: int) -> Quatm {
    Quatm { x: q.x * k, y: q.y * k, z: q.z * k, w: q.w * k }
}

/// The fixed-point normalization: scale up by `FX_ONE`, then divide by
/// the integer square root of the squared norm.
pub open spec fn qnormalize(q: Quatm) -> Quatm
    recommends
        norm_sq(q) >= 1,
{
    qdown_by(qscale(q, FX_ONE as int), sqrt_floor(norm_sq(q)))
}

/// The fixed-point quaternion exponential map: a 3-vector holding the
/// rotation axis scaled by the half-angle becomes the unit quaternion
/// with scalar part `cos` of the magnitude and vector part the axis
/// scaled by `sin` of the magnitude.
pub open spec fn exp_map_spec(v: V3m) -> Quatm {
    let n = norm3_sq(v);
    let m = sqrt_floor(n);
    let red = m % (TWO_PI_FX as int);
    let c = cos_fx_spec(m);
    let smag = sqrt_floor((FX_ONE as int) * (FX_ONE as int) - c * c);
    let s = if red <= PI_FX as int {
        smag
    } else {
        -smag
    };
    Quatm { x: tdiv(v.x * s, m + 1), y: tdiv(v.y * s, m + 1), z: tdiv(v.z * s, m + 1), w: c }
}


/// The inverse of the exponential map for rotations short of the
/// half-turn boundary: recovers the axis scaled by the half-angle.
pub open spec fn to_axis_angle_spec(q: Quatm) -> V3m {
    let m = sqrt_floor(q.x * q.x + q.y * q.y + q.z * q.z);
    let half = atan2_fx_spec(m, q.w);
    V3m { x: tdiv(q.x * half, m + 1), y: tdiv(q.y * half, m + 1), z: tdiv(q.z * half, m + 1) }
}

proof fn nl_mul_abs(u: int, v: int, b: int)
    by (nonlinear_arith)
    requires
        b >= 0,
        -b <= u <= b,
        -b <= v <= b,
    ensures
        -(b * b) <= u * v <= b * b,
{
}

proof fn nl_mul_abs2(u: int, v: int, ub: int, vb: int)
    by (nonlinear_arith)
    requires
        ub >= 0,
        vb >= 0,
        -ub <= u <= ub,
        -vb <= v <= vb,
    ensures
        -(ub * vb) <= u * v <= ub * vb,
{
}

proof fn nl_distrib3(p: int, q: int, r: int, t: int)
    by (nonlinear_arith)
    ensures
        (p + q + r) * t == p * t + q * t + r * t,
{
}


proof fn nl_abs_from_sq_strict(x: int, b: int)
    by (nonlinear_arith)
    requires
        x * x < (b + 1) * (b + 1),
        b >= 0,
    ensures
        -b <= x <= b,
{
}

proof fn nl_sqrt_lower(n: int, m: int, t: int)
    by (nonlinear_arith)
    requires
        t >= 0,
        t * t <= n,
        n < (m + 1) * (m + 1),
        m >= 0,
    ensures
        t <= m,
{
}

proof fn nl_upper_from_scaled(nn: int, m: int)
    by (nonlinear_arith)
    requires
        m >= 250_000,
        nn * (m * m) <= (m * m) * 1_000_000_000_000 + 2 * (m * 1_000_000_000_000),
    ensures
        nn <= 1_000_008_000_000,
{
}

proof fn nl_lower_from_scaled(nn: int, m: int)
    by (nonlinear_arith)
    requires
        m >= 1,
        (m * m) * 1_000_000_000_000 <= nn * (m * m) + 8 * ((m * 1_000_000) * m) + 4 * (m * m),
    ensures
        nn >= 999_991_999_996,
{
}

/// The squared norm of `qscale(q, k)` is `norm_sq(q) * k * k`.
proof fn lemma_qscale_norm(q: Quatm, k: int)
    ensures
        norm_sq(qscale(q, k)) == norm_sq(q) * (k * k),
{
    nl_reassoc_sq(q.x, k);
    nl_reassoc_sq(q.y, k);
    nl_reassoc_sq(q.z, k);
    nl_reassoc_sq(q.w, k);
    nl_distrib4(q.x * q.x, q.y * q.y, q.z * q.z, q.w * q.w, k * k);
}

/// Normalization lands within a tight band around the unit norm: for
/// any quaternion whose norm is at least a quarter of the unit norm,
/// the squared norm of `qnormalize(q)` is within `8 * FX_ONE + 4` of
/// the exact unit `FX_ONE * FX_ONE`.
pub proof fn lemma_qnormalize_bounds(q: Quatm)
    requires
        QMIN_NORM_SQ as int <= norm_sq(q),
    ensures
        999_991_999_996 <= norm_sq(qnormalize(q)) <= 1_000_008_000_000,
{
    let s = FX_ONE as int;
    let nsq = norm_sq(q);
    let m = sqrt_floor(nsq);
    lemma_norm_nonneg(q);
    lemma_sqrt_floor_props(nsq);
    assert(m >= 250_000) by {
        if m + 1 <= 250_000 {
            nl_mul_mono_both(m + 1, 250_000);
        }
    };
    let e = qscale(q, s);
    lemma_qscale_norm(q, s);
    // componentwise bound |q_i| <= m, so |e_i| <= m * s
    nl_sq_nonneg(q.x);
    nl_sq_nonneg(q.y);
    nl_sq_nonneg(q.z);
    nl_sq_nonneg(q.w);
    nl_abs_from_sq_strict(q.x, m);
    nl_abs_from_sq_strict(q.y, m);
    nl_abs_from_sq_strict(q.z, m);
    nl_abs_from_sq_strict(q.w, m);
    let r = qnormalize(q);
    lemma_qdown_norm_le(e, m);
    lemma_qdown_norm_ge(e, m, m * s);
    // upper: norm_sq(r) * m^2 <= nsq * s^2 <= ((m+1)^2 - 1) * s^2
    assert(nsq * (s * s) <= (m * m) * (s * s) + 2 * (m * (s * s))) by (nonlinear_arith)
        requires
            nsq < (m + 1) * (m + 1),
            s >= 1,
            m >= 0,
    ;
    nl_upper_from_scaled(norm_sq(r), m);
    // lower: m^2 * s^2 <= nsq * s^2 <= norm_sq(r) * m^2 + 8 * (m*s) * m + 4 * m^2
    assert((m * m) * (s * s) <= nsq * (s * s)) by (nonlinear_arith)
        requires
            m * m <= nsq,
            s >= 1,
    ;
    assert(norm_sq(e) <= norm_sq(r) * (m * m) + 8 * ((m * s) * m) + 4 * (m * m));
    nl_lower_from_scaled_glue(norm_sq(r), m, norm_sq(e), nsq);
}

proof fn nl_mul_mono_both(u: int, v: int)
    by (nonlinear_arith)
    requires
        0 <= u <= v,
    ensures
        u * u <= v * v,
{
}

proof fn nl_lower_from_scaled_glue(nn: int, m: int, ne: int, nsq: int)
    by (nonlinear_arith)
    requires
        m >= 1,
        ne == nsq * (1_000_000 * 1_000_000),
        m * m <= nsq,
        ne <= nn * (m * m) + 8 * ((m * 1_000_000) * m) + 4 * (m * m),
    ensures
        nn >= 999_991_999_996,
{
}


proof fn nl_vec_scale_sum(vx: int, vy: int, vz: int, s: int)
    ensures
        (vx * s) * (vx * s) + (vy * s) * (vy * s) + (vz * s) * (vz * s) == (vx * vx + vy * vy
            + vz * vz) * (s * s),
{
    nl_reassoc_sq(vx, s);
    nl_reassoc_sq(vy, s);
    nl_reassoc_sq(vz, s);
    nl_distrib3(vx * vx, vy * vy, vz * vz, s * s);
}

proof fn nl_exp_vec_bound(sum: int, kk: int, ssq: int)
    by (nonlinear_arith)
    requires
        kk >= 1,
        ssq >= 0,
        sum * kk <= (kk - 1) * ssq,
    ensures
        sum <= ssq,
{
}

/// The exponential map yields a unit-bounded quaternion: its squared
/// norm never exceeds the unit norm `FX_ONE * FX_ONE`.
pub proof fn lemma_exp_map_norm(v: V3m)
    ensures
        norm_sq(exp_map_spec(v)) <= (FX_ONE as int) * (FX_ONE as int),
{
    let s1 = FX_ONE as int;
    let n = norm3_sq(v);
    nl_sq_nonneg(v.x);
    nl_sq_nonneg(v.y);
    nl_sq_nonneg(v.z);
    let m = sqrt_floor(n);
    lemma_sqrt_floor_props(n);
    let c = cos_fx_spec(m);
    lemma_cos_fx_bounds(m);
    nl_sq_mono(c, s1);
    let smag = sqrt_floor(s1 * s1 - c * c);
    lemma_sqrt_floor_props(s1 * s1 - c * c);
    let red = m % (TWO_PI_FX as int);
    let s = if red <= PI_FX as int {
        smag
    } else {
        -smag
    };
    nl_sq_neg(smag);
    let q = exp_map_spec(v);
    lemma_tdiv_abs(v.x * s, m + 1);
    lemma_tdiv_abs(v.y * s, m + 1);
    lemma_tdiv_abs(v.z * s, m + 1);
    lemma_trunc_sq_le(v.x * s, q.x, m + 1);
    lemma_trunc_sq_le(v.y * s, q.y, m + 1);
    lemma_trunc_sq_le(v.z * s, q.z, m + 1);
    nl_reassoc_sq(v.x, s);
    nl_reassoc_sq(v.y, s);
    nl_reassoc_sq(v.z, s);
    nl_vec_scale_sum(v.x, v.y, v.z, s);
    let sum = q.x * q.x + q.y * q.y + q.z * q.z;
    nl_distrib3(q.x * q.x, q.y * q.y, q.z * q.z, (m + 1) * (m + 1));
    // sum * (m+1)^2 <= n * s^2 <= ((m+1)^2 - 1) * smag^2
    assert(n * (s * s) <= ((m + 1) * (m + 1) - 1) * (s * s)) by (nonlinear_arith)
        requires
            n < (m + 1) * (m + 1),
            s * s >= 0,
    ;
    nl_sq_nonneg(s);
    nl_sq_nonneg(smag);
    assert(s * s == smag * smag);
    nl_exp_vec_bound(sum, (m + 1) * (m + 1), smag * smag);
    assert((m + 1) * (m + 1) >= 1) by (nonlinear_arith)
        requires
            m >= 0,
    ;
}

/// The exponential map of the zero vector is the unit quaternion: a
/// zero rotation axis yields a well-defined identity rotation.
pub proof fn lemma_exp_map_zero()
    ensures
        exp_map_spec(V3m { x: 0, y: 0, z: 0 }) == qunit(),
{
    let v = V3m { x: 0, y: 0, z: 0 };
    assert(norm3_sq(v) == 0);
    assert(sqrt_floor(0) == 0);
    assert(cos_fx_spec(0) == FX_ONE as int);
    assert((FX_ONE as int) * (FX_ONE as int) - (FX_ONE as int) * (FX_ONE as int) == 0);
    assert(tdiv(0 * (FX_ONE as int), 1) == 0);
}


/// Closure of unit quaternions under multiplication: the fixed-point
/// product of an exactly-unit quaternion with itself stays within a
/// quarter of unit length, and normalizing it yields a squared norm
/// within `8 * FX_ONE + 4` of exactly one.
pub proof fn lemma_unit_square_normalizes(q: Quatm)
    requires
        norm_sq(q) == (FX_ONE as int) * (FX_ONE as int),
    ensures
        norm_sq(qmul_fx(q, q)) <= (FX_ONE as int) * (FX_ONE as int),
        999_991_999_996 <= norm_sq(qnormalize(qmul_fx(q, q))) <= 1_000_008_000_000,
{
    let s = FX_ONE as int;
    let e = qmul(q, q);
    let r = qmul_fx(q, q);
    lemma_qmul_norm(q, q);
    lemma_norm_nonneg(e);
    assert(s == 1_000_000);
    assert(s * s == 1_000_000_000_000) by (nonlinear_arith)
        requires
            s == 1_000_000,
    ;
    assert((s * s) * (s * s) == 1_000_000_000_000_000_000_000_000) by (nonlinear_arith)
        requires
            s * s == 1_000_000_000_000,
    ;
    assert((s * s) * s == 1_000_000_000_000_000_000) by (nonlinear_arith)
        requires
            s == 1_000_000,
            s * s == 1_000_000_000_000,
    ;
    assert(norm_sq(e) == (s * s) * (s * s));
    lemma_norm_comps(e, s * s);
    lemma_qdown_norm_le(e, s);
    lemma_qdown_norm_ge(e, s, s * s);
    assert(norm_sq(r) * (s * s) == norm_sq(r) * 1_000_000_000_000);
    assert(8 * ((s * s) * s) == 8_000_000_000_000_000_000);
    lemma_qnormalize_bounds(r);
}

/// A fixed-point quaternion: four `i64` components at scale `FX_ONE`;
/// `w` is the scalar part.
#[derive(Clone, Copy, Debug, PartialEq, Eq, Structural)]
pub struct Quaternion {
    pub x: i64,
    pub y: i64,
    pub z: i64,
    pub w: i64,
}

impl View for Quaternion {
    type V = Quatm;

    open spec fn view(&self) -> Quatm {
        Quatm { x: self.x as int, y: self.y as int, z: self.z as int, w: self.w as int }
    }
}

impl Quaternion {
    /// Builds a quaternion from its vector and scalar components.
    pub fn new(x: i64, y: i64, z: i64, w: i64) -> (q: Quaternion)
        ensures
            q@ == (Quatm { x: x as int, y: y as int, z: z as int, w: w as int }),
    {
        Quaternion { x, y, z, w }
    }

    /// The unit quaternion: no rotation.
    pub fn identity() -> (q: Quaternion)
        ensures
            q@ == qunit(),
    {
        Quaternion { x: 0, y: 0, z: 0, w: FX_ONE }
    }

    /// The scalar (real) part.
    pub fn real_part(&self) -> (r: i64)
        ensures
            r as int == self@.w,
    {
        self.w
    }

    /// The vector (imaginary) part.
    pub fn imag(&self) -> (r: Vec3Fx)
        ensures
            r@ == (V3m { x: self@.x, y: self@.y, z: self@.z }),
    {
        Vec3Fx { x: self.x, y: self.y, z: self.z }
    }

    /// The conjugate: the vector part negated.
    pub fn conjugate(&self) -> (r: Quaternion)
        requires
            comps_bounded(self@, 4_000_000_000_000_000_000),
        ensures
            r@ == qconj(self@),
    {
        Quaternion { x: -self.x, y: -self.y, z: -self.z, w: self.w }
    }

    /// The Hamilton product in fixed point: the exact product of the
    /// two quaternions, rescaled by `FX_ONE` with truncation.
    pub fn multiply(a: &Quaternion, b: &Quaternion) -> (r: Quaternion)
        requires
            comps_bounded(a@, QMUL_COMP_MAX as int),
            comps_bounded(b@, QMUL_COMP_MAX as int),
        ensures
            r@ == qmul_fx(a@, b@),
    {
        proof {
            let bb = QMUL_COMP_MAX as int;
            nl_mul_abs(a@.w, b@.x, bb);
            nl_mul_abs(a@.x, b@.w, bb);
            nl_mul_abs(a@.y, b@.z, bb);
            nl_mul_abs(a@.z, b@.y, bb);
            nl_mul_abs(a@.w, b@.y, bb);
            nl_mul_abs(a@.x, b@.z, bb);
            nl_mul_abs(a@.y, b@.w, bb);
            nl_mul_abs(a@.z, b@.x, bb);
            nl_mul_abs(a@.w, b@.z, bb);
            nl_mul_abs(a@.x, b@.y, bb);
            nl_mul_abs(a@.y, b@.x, bb);
            nl_mul_abs(a@.z, b@.w, bb);
            nl_mul_abs(a@.w, b@.w, bb);
            nl_mul_abs(a@.x, b@.x, bb);
            nl_mul_abs(a@.y, b@.y, bb);
            nl_mul_abs(a@.z, b@.z, bb);
        }
        let ex: i128 = (a.w as i128) * (b.x as i128) + (a.x as i128) * (b.w as i128) + (
        a.y as i128) * (b.z as i128) - (a.z as i128) * (b.y as i128);
        let ey: i128 = (a.w as i128) * (b.y as i128) - (a.x as i128) * (b.z as i128) + (
        a.y as i128) * (b.w as i128) + (a.z as i128) * (b.x as i128);
        let ez: i128 = (a.w as i128) * (b.z as i128) + (a.x as i128) * (b.y as i128) - (
        a.y as i128) * (b.x as i128) + (a.z as i128) * (b.w as i128);
        let ew: i128 = (a.w as i128) * (b.w as i128) - (a.x as i128) * (b.x as i128) - (
        a.y as i128) * (b.y as i128) - (a.z as i128) * (b.z as i128);
        proof {
            lemma_tdiv_abs(ex as int, FX_ONE as int);
            lemma_tdiv_abs(ey as int, FX_ONE as int);
            lemma_tdiv_abs(ez as int, FX_ONE as int);
            lemma_tdiv_abs(ew as int, FX_ONE as int);
        }
        let x: i64 = div_trunc_wide(ex, FX_ONE as i128) as i64;
        let y: i64 = div_trunc_wide(ey, FX_ONE as i128) as i64;
        let z: i64 = div_trunc_wide(ez, FX_ONE as i128) as i64;
        let w: i64 = div_trunc_wide(ew, FX_ONE as i128) as i64;
        Quaternion { x, y, z, w }
    }


    /// Recovers axis-and-half-angle control parameters from a rotation
    /// quaternion whose scalar part is positive — a rotation short of
    /// the half-turn wrap-around — inverting the exponential map up to
    /// the approximation tolerance.
    pub fn to_axis_angle(&self) -> (v: Vec3Fx)
        requires
            1 <= self@.w,
            norm_sq(self@) <= 4_000_000_000_000,
        ensures
            v@ == to_axis_angle_spec(self@),
    {
        proof {
            lemma_norm_comps(self@, 2_000_000);
            nl_mul_abs(self@.x, self@.x, 2_000_000);
            nl_mul_abs(self@.y, self@.y, 2_000_000);
            nl_mul_abs(self@.z, self@.z, 2_000_000);
            nl_sq_nonneg(self@.x);
            nl_sq_nonneg(self@.y);
            nl_sq_nonneg(self@.z);
            nl_sq_nonneg(self@.w);
        }
        let imag_sq: i64 = self.x * self.x + self.y * self.y + self.z * self.z;
        let m: u64 = isqrt(imag_sq as u128);
        proof {
            nl_sqrt_lower(imag_sq as int, 2_000_000, m as int);
        }
        let half: i64 = atan2_fx(m as i64, self.w);
        proof {
            nl_mul_abs2(self@.x, half as int, 2_000_000, HALF_PI_FX as int);
            nl_mul_abs2(self@.y, half as int, 2_000_000, HALF_PI_FX as int);
            nl_mul_abs2(self@.z, half as int, 2_000_000, HALF_PI_FX as int);
        }
        Vec3Fx {
            x: div_trunc(self.x * half, (m as i64) + 1),
            y: div_trunc(self.y * half, (m as i64) + 1),
            z: div_trunc(self.z * half, (m as i64) + 1),
        }
    }

    /// Normalizes to unit length in fixed point: scales by `FX_ONE` and
    /// divides by the integer square root of the squared norm. For any
    /// argument at least a quarter of unit length, the result's squared
    /// norm is within `8 * FX_ONE + 4` of exactly one.
    pub fn normalize(&self) -> (r: Quaternion)
        requires
            1 <= norm_sq(self@),
            comps_bounded(self@, NORMALIZE_COMP_MAX as int),
        ensures
            r@ == qnormalize(self@),
            norm_sq(self@) >= QMIN_NORM_SQ as int ==> 999_991_999_996 <= norm_sq(r@)
                <= 1_000_008_000_000,
    {
        proof {
            let bb = NORMALIZE_COMP_MAX as int;
            nl_mul_abs(self@.x, self@.x, bb);
            nl_mul_abs(self@.y, self@.y, bb);
            nl_mul_abs(self@.z, self@.z, bb);
            nl_mul_abs(self@.w, self@.w, bb);
        }
        let nsq: i64 = self.x * self.x + self.y * self.y + self.z * self.z + self.w * self.w;
        let m: u64 = isqrt(nsq as u128);
        proof {
            lemma_sqrt_floor_props(nsq as int);
            if m == 0 {
                assert((nsq as int) < 1 * 1);
            }
            nl_sqrt_lower(nsq as int, 20_000_000, m as int);
            lemma_tdiv_abs(self@.x * (FX_ONE as int), m as int);
            lemma_tdiv_abs(self@.y * (FX_ONE as int), m as int);
            lemma_tdiv_abs(self@.z * (FX_ONE as int), m as int);
            lemma_tdiv_abs(self@.w * (FX_ONE as int), m as int);
            if norm_sq(self@) >= QMIN_NORM_SQ as int {
                lemma_qnormalize_bounds(self@);
            }
        }
        let x: i64 = div_trunc(self.x * FX_ONE, m as i64);
        let y: i64 = div_trunc(self.y * FX_ONE, m as i64);
        let z: i64 = div_trunc(self.z * FX_ONE, m as i64);
        let w: i64 = div_trunc(self.w * FX_ONE, m as i64);
        Quaternion { x, y, z, w }
    }

    /// The quaternion exponential map of a 3-vector holding the
    /// rotation axis scaled by the half-angle, in fixed point. The
    /// result is unit-bounded, and the zero vector yields the identity.
    pub fn exp_map(v: &Vec3Fx) -> (q: Quaternion)
        requires
            comps3_bounded(v@, EXP_ARG_MAX as int),
        ensures
            q@ == exp_map_spec(v@),
            norm_sq(q@) <= (FX_ONE as int) * (FX_ONE as int),
            v@ == (V3m { x: 0, y: 0, z: 0 }) ==> q@ == qunit(),
    {
        proof {
            let bb = EXP_ARG_MAX as int;
            nl_mul_abs(v@.x, v@.x, bb);
            nl_mul_abs(v@.y, v@.y, bb);
            nl_mul_abs(v@.z, v@.z, bb);
            nl_sq_nonneg(v@.x);
            nl_sq_nonneg(v@.y);
            nl_sq_nonneg(v@.z);
        }
        let n: i128 = (v.x as i128) * (v.x as i128) + (v.y as i128) * (v.y as i128) + (
        v.z as i128) * (v.z as i128);
        let m: u64 = isqrt(n as u128);
        proof {
            nl_sqrt_lower(n as int, 2_000_000_000_000, m as int);
        }
        let red: u64 = m % (TWO_PI_FX as u64);
        let c: i64 = cos_fx(m as i64);
        proof {
            nl_sq_mono(c as int, FX_ONE as int);
            nl_sq_nonneg(c as int);
        }
        let smag_u: u64 = isqrt((FX_ONE * FX_ONE - c * c) as u128);
        proof {
            let d = (FX_ONE as int) * (FX_ONE as int) - (c as int) * (c as int);
            nl_sqrt_lower(d, 1_000_000, smag_u as int);
        }
        let smag: i64 = smag_u as i64;
        let s: i64 = if red <= PI_FX as u64 {
            smag
        } else {
            -smag
        };
        proof {
            nl_mul_abs2(v@.x, s as int, EXP_ARG_MAX as int, FX_ONE as int);
            nl_mul_abs2(v@.y, s as int, EXP_ARG_MAX as int, FX_ONE as int);
            nl_mul_abs2(v@.z, s as int, EXP_ARG_MAX as int, FX_ONE as int);
            lemma_tdiv_abs(v@.x * (s as int), m as int + 1);
            lemma_tdiv_abs(v@.y * (s as int), m as int + 1);
            lemma_tdiv_abs(v@.z * (s as int), m as int + 1);
            lemma_exp_map_norm(v@);
            if v@ == (V3m { x: 0, y: 0, z: 0 }) {
                lemma_exp_map_zero();
            }
        }
        let x: i64 = div_trunc(v.x * s, (m as i64) + 1);
        let y: i64 = div_trunc(v.y * s, (m as i64) + 1);
        let z: i64 = div_trunc(v.z * s, (m as i64) + 1);
        Quaternion { x, y, z, w: c }
    }
}

} // verus!
