//! Fixed-point dual quaternion algebra: a pair of quaternions where
//! the real part encodes a rotation and the dual part encodes a
//! translation; multiplication chains two rigid transforms.

use vstd::prelude::*;
use crate::fixed::FX_ONE;
use crate::quat::{
    Quatm, Quaternion, norm_sq, comps_bounded, qzero, qunit, qconj, qmul, qadd, qmul_fx,
    lemma_qmul_fx_unit, lemma_qmul_fx_zero, lemma_qmul_fx_norm, lemma_qmul_assoc,
    lemma_qmul_distrib, lemma_qadd_norm, lemma_norm_nonneg, lemma_norm_comps, QMUL_COMP_MAX,
};
use crate::vec3::{V3m, Vec3Fx};

verus! {

/// Mathematical model of a dual quaternion.
pub ghost struct DualQuatm {
    pub real: Quatm,
    pub dual: Quatm,
}

/// The identity transform: unit real part, zero dual part.
pub open spec fn dqm_identity() -> DualQuatm {
    DualQuatm { real: qunit(), dual: qzero() }
}

/// The fixed-point dual quaternion product: chains two rigid
/// transforms, applying `b` first and then `a`.
pub open spec fn dqm_mul(a: DualQuatm, b: DualQuatm) -> DualQuatm {
    DualQuatm {
        real: qmul_fx(a.real, b.real),
        dual: qadd(qmul_fx(a.real, b.dual), qmul_fx(a.dual, b.real)),
    }
}

/// The exact (unscaled) dual quaternion product; associativity holds
/// exactly for it.
pub open spec fn dqm_mul_exact(a: DualQuatm, b: DualQuatm) -> DualQuatm {
    DualQuatm {
        real: qmul(a.real, b.real),
        dual: qadd(qmul(a.real, b.dual), qmul(a.dual, b.real)),
    }
}

/// A dual quaternion fit for chaining: the real part is unit-bounded
/// and the dual part's norm is at most `db`.
pub open spec fn dqm_bounded(dq: DualQuatm, db: int) -> bool {
    norm_sq(dq.real) <= (FX_ONE as int) * (FX_ONE as int) && norm_sq(dq.dual) <= db * db
}

/// The identity law: multiplying by the identity dual quaternion on
/// either side gives the argument back, exactly, including the
/// fixed-point rescaling.
pub proof fn lemma_dqm_identity(dq: DualQuatm)
    ensures
        dqm_mul(dqm_identity(), dq) == dq,
        dqm_mul(dq, dqm_identity()) == dq,
{
    lemma_qmul_fx_unit(dq.real);
    lemma_qmul_fx_unit(dq.dual);
    lemma_qmul_fx_zero(dq.real);
    lemma_qmul_fx_zero(dq.dual);
    assert(qadd(qmul_fx(qunit(), dq.dual), qmul_fx(dq.dual, qunit())) == qadd(dq.dual, dq.dual));
    assert(qadd(dq.dual, qzero()) == dq.dual);
    assert(qadd(qzero(), dq.dual) == dq.dual);
}

/// Associativity of the exact dual quaternion product: composing three
/// rigid transforms does not depend on the grouping.
pub proof fn lemma_dqm_mul_exact_assoc(a: DualQuatm, b: DualQuatm, c: DualQuatm)
    ensures
        dqm_mul_exact(dqm_mul_exact(a, b), c) == dqm_mul_exact(a, dqm_mul_exact(b, c)),
{
    lemma_qmul_assoc(a.real, b.real, c.real);
    // dual part, left grouping:
    //   (a.real b.real) c.dual + (a.real b.dual + a.dual b.real) c.real
    lemma_qmul_distrib(c.real, qmul(a.real, b.dual), qmul(a.dual, b.real));
    lemma_qmul_assoc(a.real, b.real, c.dual);
    lemma_qmul_assoc(a.real, b.dual, c.real);
    lemma_qmul_assoc(a.dual, b.real, c.real);
    // dual part, right grouping:
    //   a.real (b.real c.dual + b.dual c.real) + a.dual (b.real c.real)
    lemma_qmul_distrib(a.real, qmul(b.real, c.dual), qmul(b.dual, c.real));
    assert(qadd(qadd(qmul(a.real, qmul(b.real, c.dual)), qmul(a.real, qmul(b.dual, c.real))),
        qmul(a.dual, qmul(b.real, c.real))) == qadd(qmul(a.real, qmul(b.real, c.dual)), qadd(
        qmul(a.real, qmul(b.dual, c.real)), qmul(a.dual, qmul(b.real, c.real)))));
}

/// Multiplication preserves the chaining bounds: the real part stays
/// unit-bounded and the dual norms add.
pub proof fn lemma_dqm_mul_bounded(a: DualQuatm, b: DualQuatm, da: int, db: int)
    requires
        da >= 0,
        db >= 0,
        dqm_bounded(a, da),
        dqm_bounded(b, db),
    ensures
        dqm_bounded(dqm_mul(a, b), da + db),
{
    let s = FX_ONE as int;
    let r = dqm_mul(a, b);
    lemma_qmul_fx_norm(a.real, b.real);
    lemma_norm_nonneg(r.real);
    lemma_norm_nonneg(a.real);
    lemma_norm_nonneg(b.real);
    assert(s * s == 1_000_000_000_000) by (nonlinear_arith)
        requires
            s == 1_000_000,
    ;
    assert(norm_sq(a.real) * norm_sq(b.real) <= (s * s) * (s * s)) by (nonlinear_arith)
        requires
            0 <= norm_sq(a.real) <= s * s,
            0 <= norm_sq(b.real) <= s * s,
    ;
    assert(norm_sq(r.real) <= s * s) by (nonlinear_arith)
        requires
            norm_sq(r.real) * (s * s) <= (s * s) * (s * s),
            s * s >= 1,
    ;
    // dual part: ||a.real * b.dual|| <= db, ||a.dual * b.real|| <= da
    let t1 = qmul_fx(a.real, b.dual);
    let t2 = qmul_fx(a.dual, b.real);
    lemma_qmul_fx_norm(a.real, b.dual);
    lemma_qmul_fx_norm(a.dual, b.real);
    lemma_norm_nonneg(t1);
    lemma_norm_nonneg(t2);
    lemma_norm_nonneg(a.dual);
    lemma_norm_nonneg(b.dual);
    assert(norm_sq(t1) <= db * db) by (nonlinear_arith)
        requires
            norm_sq(t1) * (s * s) <= norm_sq(a.real) * norm_sq(b.dual),
            norm_sq(a.real) <= s * s,
            0 <= norm_sq(b.dual) <= db * db,
            norm_sq(t1) >= 0,
            s * s >= 1,
            norm_sq(a.real) >= 0,
    ;
    assert(norm_sq(t2) <= da * da) by (nonlinear_arith)
        requires
            norm_sq(t2) * (s * s) <= norm_sq(a.dual) * norm_sq(b.real),
            norm_sq(b.real) <= s * s,
            0 <= norm_sq(a.dual) <= da * da,
            norm_sq(t2) >= 0,
            s * s >= 1,
            norm_sq(b.real) >= 0,
    ;
    lemma_qadd_norm(t1, t2, db, da);
}

/// A fixed-point dual quaternion: a rotation-encoding real part and a
/// translation-encoding dual part.
#[derive(Clone, Copy, Debug, PartialEq, Eq, Structural)]
pub struct DualQuaternion {
    pub real: Quaternion,
    pub dual: Quaternion,
}

impl View for DualQuaternion {
    type V = DualQuatm;

    open spec fn view(&self) -> DualQuatm {
        DualQuatm { real: self.real@, dual: self.dual@ }
    }
}

impl DualQuaternion {
    /// Builds a dual quaternion from its two parts, with no
    /// normalization: the caller must ensure the real part is
    /// unit-bounded for the pair to represent a rigid transform.
    pub fn new(re: Quaternion, du: Quaternion) -> (dq: DualQuaternion)
        ensures
            dq@ == (DualQuatm { real: re@, dual: du@ }),
    {
        DualQuaternion { real: re, dual: du }
    }

    /// The identity rigid transform: unit rotation, zero translation.
    pub fn identity() -> (dq: DualQuaternion)
        ensures
            dq@ == dqm_identity(),
            dqm_bounded(dq@, 0),
    {
        let dq = DualQuaternion {
            real: Quaternion::identity(),
            dual: Quaternion::new(0, 0, 0, 0),
        };
        proof {
            assert(norm_sq(dq@.real) == (FX_ONE as int) * (FX_ONE as int)) by (nonlinear_arith)
                requires
                    dq@.real == qunit(),
                    FX_ONE == 1_000_000,
            ;
            assert(norm_sq(dq@.dual) == 0);
        }
        dq
    }

    /// Chains two rigid transforms: the result applies `b` first and
    /// then `a`, matching homogeneous-transform composition order.
    pub fn multiply(a: &DualQuaternion, b: &DualQuaternion) -> (r: DualQuaternion)
        requires
            dqm_bounded(a@, DUAL_NORM_MAX as int),
            dqm_bounded(b@, DUAL_NORM_MAX as int),
        ensures
            r@ == dqm_mul(a@, b@),
    {
        proof {
            lemma_parts_comps(a@);
            lemma_parts_comps(b@);
        }
        let re = Quaternion::multiply(&a.real, &b.real);
        let d1 = Quaternion::multiply(&a.real, &b.dual);
        let d2 = Quaternion::multiply(&a.dual, &b.real);
        proof {
            lemma_qmul_fx_norm(a@.real, b@.dual);
            lemma_qmul_fx_norm(a@.dual, b@.real);
            lemma_term_comps(a@.real, b@.dual, d1@);
            lemma_term_comps(a@.dual, b@.real, d2@);
        }
        let du = Quaternion::new(d1.x + d2.x, d1.y + d2.y, d1.z + d2.z, d1.w + d2.w);
        DualQuaternion { real: re, dual: du }
    }

    /// The rotation part of the transform: the real quaternion.
    pub fn rotation_part(&self) -> (r: Quaternion)
        ensures
            r@ == self@.real,
    {
        self.real
    }

    /// The translation part of the transform: twice the dual part
    /// times the conjugate of the real part, taking the imaginary
    /// components.
    pub fn translation_part(&self) -> (t: Vec3Fx)
        requires
            dqm_bounded(self@, DUAL_NORM_MAX as int),
        ensures
            t@ == translation_of(self@),
    {
        proof {
            lemma_parts_comps(self@);
            lemma_conj_comps(self@.real);
        }
        let c = self.real.conjugate();
        let p = Quaternion::multiply(&self.dual, &c);
        proof {
            lemma_qmul_fx_norm(self@.dual, qconj(self@.real));
            lemma_conj_norm(self@.real);
            lemma_term_comps(self@.dual, qconj(self@.real), p@);
        }
        Vec3Fx { x: 2 * p.x, y: 2 * p.y, z: 2 * p.z }
    }
}

/// The translation encoded by a dual quaternion: the imaginary part of
/// `2 * dual * conj(real)`.
pub open spec fn translation_of(dq: DualQuatm) -> V3m {
    let p = qmul_fx(dq.dual, qconj(dq.real));
    V3m { x: 2 * p.x, y: 2 * p.y, z: 2 * p.z }
}

/// The largest dual-part norm a rigid transform may carry into
/// `DualQuaternion::multiply` and `translation_part`.
pub const DUAL_NORM_MAX: i64 = 1_000_000_000_000;

/// A bounded rigid transform has componentwise-bounded parts.
proof fn lemma_parts_comps(dq: DualQuatm)
    requires
        dqm_bounded(dq, DUAL_NORM_MAX as int),
    ensures
        comps_bounded(dq.real, QMUL_COMP_MAX as int),
        comps_bounded(dq.dual, QMUL_COMP_MAX as int),
{
    lemma_norm_comps(dq.real, 1_000_000);
    lemma_norm_comps(dq.dual, DUAL_NORM_MAX as int);
}

proof fn lemma_conj_comps(q: Quatm)
    requires
        comps_bounded(q, QMUL_COMP_MAX as int),
    ensures
        comps_bounded(qconj(q), QMUL_COMP_MAX as int),
{
}

/// Conjugation preserves the norm.
pub proof fn lemma_conj_norm(q: Quatm)
    ensures
        norm_sq(qconj(q)) == norm_sq(q),
{
    let c = qconj(q);
    assert(c.x * c.x == q.x * q.x && c.y * c.y == q.y * q.y && c.z * c.z == q.z * q.z)
        by (nonlinear_arith)
        requires
            c.x == -q.x,
            c.y == -q.y,
            c.z == -q.z,
    ;
}

/// The rescaled product of two norm-bounded quaternions, one of them
/// unit-bounded, has norm and components bounded by `DUAL_NORM_MAX`.
proof fn lemma_term_comps(a: Quatm, b: Quatm, r: Quatm)
    requires
        r == qmul_fx(a, b),
        norm_sq(r) * ((FX_ONE as int) * (FX_ONE as int)) <= norm_sq(a) * norm_sq(b),
        norm_sq(a) <= 1_000_000_000_000_000_000_000_000,
        norm_sq(b) <= 1_000_000_000_000_000_000_000_000,
        norm_sq(a) <= 1_000_000_000_000 || norm_sq(b) <= 1_000_000_000_000,
    ensures
        comps_bounded(r, DUAL_NORM_MAX as int),
        norm_sq(r) <= 1_000_000_000_000_000_000_000_000,
{
    lemma_norm_nonneg(r);
    lemma_norm_nonneg(a);
    lemma_norm_nonneg(b);
    if norm_sq(a) <= 1_000_000_000_000 {
        assert(norm_sq(r) <= 1_000_000_000_000_000_000_000_000) by (nonlinear_arith)
            requires
                norm_sq(r) * ((FX_ONE as int) * (FX_ONE as int)) <= norm_sq(a) * norm_sq(b),
                0 <= norm_sq(a) <= 1_000_000_000_000,
                0 <= norm_sq(b) <= 1_000_000_000_000_000_000_000_000,
                0 <= norm_sq(r),
                FX_ONE == 1_000_000,
        ;
    } else {
        assert(norm_sq(r) <= 1_000_000_000_000_000_000_000_000) by (nonlinear_arith)
            requires
                norm_sq(r) * ((FX_ONE as int) * (FX_ONE as int)) <= norm_sq(a) * norm_sq(b),
                0 <= norm_sq(b) <= 1_000_000_000_000,
                0 <= norm_sq(a) <= 1_000_000_000_000_000_000_000_000,
                0 <= norm_sq(r),
                FX_ONE == 1_000_000,
        ;
    }
    lemma_norm_comps(r, DUAL_NORM_MAX as int);
}

} // verus!
