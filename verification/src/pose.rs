//! The pose exporter: converts a composed dual quaternion into a
//! renderable pose — a translation, a defensively normalized unit
//! rotation and a fixed unit scale — combined with the segment's own
//! static local transform.

use vstd::prelude::*;
use crate::fixed::FX_ONE;
use crate::vec3::{V3m, Vec3Fx, comps3_bounded};
use crate::quat::{
    Quatm, Quaternion, norm_sq, qconj, qunit, qmul_fx, qnormalize, qscale,
    lemma_norm_comps, lemma_norm_nonneg, lemma_qmul_fx_norm, lemma_qmul_fx_unit,
    lemma_qmul_fx_zero, QMIN_NORM_SQ,
};
use crate::fixed::{tdiv, sqrt_floor, lemma_sqrt_floor_unique, lemma_tdiv_exact};
use crate::dualquat::{
    DualQuatm, DualQuaternion, dqm_identity, dqm_bounded, translation_of, lemma_conj_norm,
    DUAL_NORM_MAX,
};
use crate::chain::{chain_spec, views_of, chain_pose, CHAIN_MAX, lemma_identity_chain};
use crate::joint::{JOINT_DUAL_MAX, joint_dq_spec, default_control, lemma_default_control_identity};

verus! {

/// The largest component magnitude of a local translation.
pub const LOCAL_TRANS_MAX: i64 = 500_000_000_000;

/// The largest squared rotation norm `rotate_vector` accepts: the
/// upper bound that normalization guarantees.
pub const ROT_NORM_SQ_MAX: i64 = 1_000_008_000_000;

/// Mathematical model of a pose.
pub ghost struct Posem {
    pub translation: V3m,
    pub rotation: Quatm,
    pub scale: V3m,
}

/// The fixed unit scale every exported pose carries.
pub open spec fn unit_scale() -> V3m {
    V3m { x: FX_ONE as int, y: FX_ONE as int, z: FX_ONE as int }
}

/// A well-formed local transform: a unit-bounded rotation, a bounded
/// translation and the fixed unit scale.
pub open spec fn pose_wf(p: Posem) -> bool {
    norm_sq(p.rotation) <= (FX_ONE as int) * (FX_ONE as int) && comps3_bounded(
        p.translation,
        LOCAL_TRANS_MAX as int,
    ) && p.scale == unit_scale()
}

/// A renderable pose: a translation, a rotation and a scale, all
/// fixed point.
#[derive(Clone, Copy, Debug, PartialEq, Eq, Structural)]
pub struct Pose {
    pub translation: Vec3Fx,
    pub rotation: Quaternion,
    pub scale: Vec3Fx,
}

impl View for Pose {
    type V = Posem;

    open spec fn view(&self) -> Posem {
        Posem { translation: self.translation@, rotation: self.rotation@, scale: self.scale@ }
    }
}

impl Pose {
    /// The identity pose: zero translation, unit rotation, unit scale.
    pub fn identity() -> (p: Pose)
        ensures
            p@ == identity_pose(),
            pose_wf(p@),
    {
        let p = Pose {
            translation: Vec3Fx { x: 0, y: 0, z: 0 },
            rotation: Quaternion::identity(),
            scale: Vec3Fx { x: FX_ONE, y: FX_ONE, z: FX_ONE },
        };
        proof {
            lemma_unit_norm();
        }
        p
    }

    /// A pose holding only the given translation: the segment's own offset.
    pub fn from_translation(t: Vec3Fx) -> (p: Pose)
        requires
            comps3_bounded(t@, LOCAL_TRANS_MAX as int),
        ensures
            p@ == (Posem { translation: t@, rotation: qunit(), scale: unit_scale() }),
            pose_wf(p@),
    {
        let p = Pose {
            translation: t,
            rotation: Quaternion::identity(),
            scale: Vec3Fx { x: FX_ONE, y: FX_ONE, z: FX_ONE },
        };
        proof {
            lemma_unit_norm();
        }
        p
    }
}

/// The identity pose model.
pub open spec fn identity_pose() -> Posem {
    Posem { translation: V3m { x: 0, y: 0, z: 0 }, rotation: qunit(), scale: unit_scale() }
}

/// The unit quaternion has squared norm exactly `FX_ONE * FX_ONE`.
proof fn lemma_unit_norm()
    ensures
        norm_sq(qunit()) == 1_000_000_000_000,
{
    assert(norm_sq(qunit()) == 1_000_000_000_000) by (nonlinear_arith)
        requires
            qunit().w == 1_000_000,
            qunit().x == 0,
            qunit().y == 0,
            qunit().z == 0,
    ;
}

/// Rotating a vector by a quaternion: conjugation `q * v * conj(q)`
/// in fixed point, taking the imaginary part.
pub open spec fn rotate_spec(q: Quatm, v: V3m) -> V3m {
    let pv = Quatm { x: v.x, y: v.y, z: v.z, w: 0 };
    let r = qmul_fx(qmul_fx(q, pv), qconj(q));
    V3m { x: r.x, y: r.y, z: r.z }
}

proof fn nl_sq_monop(x: int, b: int)
    by (nonlinear_arith)
    requires
        -b <= x <= b,
        b >= 0,
    ensures
        0 <= x * x <= b * b,
{
}

/// Rotates a bounded vector by a near-unit rotation quaternion.
pub fn rotate_vector(q: &Quaternion, v: &Vec3Fx) -> (r: Vec3Fx)
    requires
        norm_sq(q@) <= ROT_NORM_SQ_MAX as int,
        comps3_bounded(v@, LOCAL_TRANS_MAX as int),
    ensures
        r@ == rotate_spec(q@, v@),
        comps3_bounded(r@, DUAL_NORM_MAX as int),
{
    let pv = Quaternion::new(v.x, v.y, v.z, 0);
    proof {
        lemma_norm_comps(q@, 1_000_004);
        nl_sq_monop(pv@.x, LOCAL_TRANS_MAX as int);
        nl_sq_monop(pv@.y, LOCAL_TRANS_MAX as int);
        nl_sq_monop(pv@.z, LOCAL_TRANS_MAX as int);
        lemma_norm_nonneg(pv@);
        lemma_norm_nonneg(q@);
    }
    let t1 = Quaternion::multiply(q, &pv);
    proof {
        lemma_qmul_fx_norm(q@, pv@);
        lemma_norm_nonneg(t1@);
        assert(norm_sq(t1@) <= 810_000_000_000_000_000_000_000) by (nonlinear_arith)
            requires
                norm_sq(t1@) * (1_000_000_000_000 as int) <= norm_sq(q@) * norm_sq(pv@),
                0 <= norm_sq(q@) <= 1_000_008_000_000,
                0 <= norm_sq(pv@) <= 750_000_000_000_000_000_000_000,
                norm_sq(t1@) >= 0,
        ;
        lemma_norm_comps(t1@, 900_000_000_000);
        lemma_conj_norm(q@);
    }
    let cq = q.conjugate();
    let t2 = Quaternion::multiply(&t1, &cq);
    proof {
        lemma_qmul_fx_norm(t1@, qconj(q@));
        lemma_norm_nonneg(t2@);
        assert(norm_sq(t2@) <= 1_000_000_000_000_000_000_000_000) by (nonlinear_arith)
            requires
                norm_sq(t2@) * (1_000_000_000_000 as int) <= norm_sq(t1@) * norm_sq(qconj(q@)),
                0 <= norm_sq(t1@) <= 810_000_000_000_000_000_000_000,
                0 <= norm_sq(qconj(q@)) <= 1_000_008_000_000,
                norm_sq(t2@) >= 0,
        ;
        lemma_norm_comps(t2@, DUAL_NORM_MAX as int);
    }
    Vec3Fx { x: t2.x, y: t2.y, z: t2.z }
}

/// The exported pose: the chain transform's defensively normalized
/// rotation and recovered translation, composed with the segment's
/// static local transform — rotation and translation first, local
/// offset second.
pub open spec fn export_spec(dq: DualQuatm, local: Posem) -> Posem {
    let r = qnormalize(dq.real);
    let t = translation_of(dq);
    let rv = rotate_spec(r, local.translation);
    Posem {
        translation: V3m { x: t.x + rv.x, y: t.y + rv.y, z: t.z + rv.z },
        rotation: qmul_fx(r, local.rotation),
        scale: unit_scale(),
    }
}

/// Converts a composed dual quaternion and a segment's static local
/// transform into the final renderable pose. The explicit
/// normalization of the rotation is the defensive correction against
/// accumulated truncation drift; the exported rotation stays within
/// the normalization tolerance of unit length.
pub fn export_pose(dq: &DualQuaternion, local: &Pose) -> (p: Pose)
    requires
        QMIN_NORM_SQ as int <= norm_sq(dq@.real),
        dqm_bounded(dq@, DUAL_NORM_MAX as int),
        pose_wf(local@),
    ensures
        p@ == export_spec(dq@, local@),
        norm_sq(p@.rotation) <= ROT_NORM_SQ_MAX as int,
        p@.scale == unit_scale(),
{
    let rq = dq.rotation_part();
    proof {
        lemma_norm_comps(rq@, 1_000_000);
        lemma_norm_nonneg(rq@);
    }
    let r = rq.normalize();
    let t = dq.translation_part();
    proof {
        lemma_norm_comps(r@, 1_000_004);
        lemma_norm_nonneg(r@);
        lemma_norm_nonneg(local@.rotation);
        lemma_norm_comps(local@.rotation, 1_000_000);
        lemma_tp_bound(dq@);
    }
    let rot = Quaternion::multiply(&r, &local.rotation);
    proof {
        lemma_qmul_fx_norm(r@, local@.rotation);
        lemma_norm_nonneg(rot@);
        assert(norm_sq(rot@) <= 1_000_008_000_000) by (nonlinear_arith)
            requires
                norm_sq(rot@) * (1_000_000_000_000 as int) <= norm_sq(r@) * norm_sq(
                    local@.rotation,
                ),
                0 <= norm_sq(r@) <= 1_000_008_000_000,
                0 <= norm_sq(local@.rotation) <= 1_000_000_000_000,
                norm_sq(rot@) >= 0,
        ;
    }
    let rv = rotate_vector(&r, &local.translation);
    Pose {
        translation: Vec3Fx { x: t.x + rv.x, y: t.y + rv.y, z: t.z + rv.z },
        rotation: rot,
        scale: Vec3Fx { x: FX_ONE, y: FX_ONE, z: FX_ONE },
    }
}

/// The recovered translation of a bounded rigid transform has bounded
/// components.
proof fn lemma_tp_bound(dq: DualQuatm)
    requires
        dqm_bounded(dq, DUAL_NORM_MAX as int),
    ensures
        comps3_bounded(translation_of(dq), 2_000_000_000_001),
{
    let p = qmul_fx(dq.dual, qconj(dq.real));
    lemma_conj_norm(dq.real);
    lemma_qmul_fx_norm(dq.dual, qconj(dq.real));
    lemma_norm_nonneg(p);
    lemma_norm_nonneg(dq.dual);
    lemma_norm_nonneg(dq.real);
    assert(norm_sq(p) <= 1_000_000_000_000_000_000_000_000) by (nonlinear_arith)
        requires
            norm_sq(p) * ((FX_ONE as int) * (FX_ONE as int)) <= norm_sq(dq.dual) * norm_sq(
                qconj(dq.real),
            ),
            0 <= norm_sq(dq.dual) <= 1_000_000_000_000_000_000_000_000,
            0 <= norm_sq(qconj(dq.real)) <= 1_000_000_000_000,
            norm_sq(p) >= 0,
            FX_ONE == 1_000_000,
    ;
    lemma_norm_comps(p, 1_000_000_000_000);
}


/// A renderable body segment: its chain index selects which prefix of
/// the joint list transforms it, and its static local transform is its
/// own offset from the joint.
#[derive(Clone, Copy, Debug, PartialEq, Eq, Structural)]
pub struct Segment {
    pub node_transform: Pose,
    pub id: usize,
}

impl Segment {
    /// The same segment with the chain index replaced.
    pub fn with_id(self, id: usize) -> (s: Segment)
        ensures
            s.id == id,
            s.node_transform == self.node_transform,
    {
        Segment { node_transform: self.node_transform, id }
    }
}

impl Default for Segment {
    /// A segment at the identity local transform, on chain index zero.
    fn default() -> (s: Segment)
        ensures
            s.id == 0,
            s.node_transform@ == identity_pose(),
    {
        Segment { node_transform: Pose::identity(), id: 0 }
    }
}

impl From<Pose> for Segment {
    /// A segment holding the given local transform, on chain index
    /// zero.
    fn from(node_transform: Pose) -> (s: Segment) {
        Segment { node_transform, id: 0 }
    }
}

impl vstd::std_specs::convert::FromSpecImpl<Pose> for Segment {
    open spec fn obeys_from_spec() -> bool {
        true
    }

    open spec fn from_spec(t: Pose) -> Segment {
        Segment { node_transform: t, id: 0 }
    }
}

/// Checks once, at configuration time, that every segment's chain
/// index refers to an existing joint.
pub fn validate_segments(segments: &Vec<Segment>, n_joints: usize) -> (ok: bool)
    ensures
        ok == forall|i: int| 0 <= i < segments@.len() ==> (#[trigger] segments@[i]).id < n_joints,
{
    let mut i: usize = 0;
    while i < segments.len()
        invariant
            i <= segments@.len(),
            forall|j: int| 0 <= j < i ==> (#[trigger] segments@[j]).id < n_joints,
        decreases segments@.len() - i,
    {
        if segments[i].id >= n_joints {
            return false;
        }
        i = i + 1;
    }
    true
}

proof fn nl_seg_sq_mono(u: int, v: int)
    by (nonlinear_arith)
    requires
        0 <= u <= v,
    ensures
        u * u <= v * v,
{
}

/// The full per-segment evaluation: composes the chain prefix for the
/// segment's index and exports the pose over its local transform.
/// Returns `None` exactly when the composed rotation has drifted below
/// a quarter of unit length, where normalization is no longer
/// meaningful.
pub fn segment_pose(joints: &Vec<DualQuaternion>, seg: &Segment) -> (p: Option<Pose>)
    requires
        seg.id < joints@.len(),
        joints@.len() <= CHAIN_MAX as int,
        forall|j: int| 0 <= j < joints@.len() ==> dqm_bounded(
            #[trigger] joints@[j]@,
            JOINT_DUAL_MAX as int,
        ),
        pose_wf(seg.node_transform@),
    ensures
        match p {
            Some(pose) => norm_sq(chain_spec(views_of(joints@), seg.id as int + 1).real)
                >= QMIN_NORM_SQ as int && pose@ == export_spec(
                chain_spec(views_of(joints@), seg.id as int + 1),
                seg.node_transform@,
            ),
            None => norm_sq(chain_spec(views_of(joints@), seg.id as int + 1).real)
                < QMIN_NORM_SQ as int,
        },
{
    let dq = chain_pose(joints, seg.id);
    proof {
        lemma_norm_comps(dq@.real, 1_000_000);
        nl_sq_monop(dq@.real.x, 1_000_000);
        nl_sq_monop(dq@.real.y, 1_000_000);
        nl_sq_monop(dq@.real.z, 1_000_000);
        nl_sq_monop(dq@.real.w, 1_000_000);
        nl_seg_sq_mono((seg.id as int + 1) * (JOINT_DUAL_MAX as int), DUAL_NORM_MAX as int);
        crate::quat::lemma_norm_nonneg(dq@.dual);
    }
    let nsq: i64 = dq.real.x * dq.real.x + dq.real.y * dq.real.y + dq.real.z * dq.real.z
        + dq.real.w * dq.real.w;
    if nsq >= QMIN_NORM_SQ {
        Some(export_pose(&dq, &seg.node_transform))
    } else {
        None
    }
}

/// Exporting the identity transform reproduces the segment's own
/// static local transform exactly: no net rotation or translation is
/// injected.
pub proof fn lemma_export_identity(local: Posem)
    requires
        pose_wf(local),
    ensures
        export_spec(dqm_identity(), local) == local,
{
    let s = FX_ONE as int;
    lemma_unit_norm();
    // normalize of the unit quaternion is the unit quaternion
    lemma_sqrt_floor_unique(1_000_000_000_000, 1_000_000);
    let e = qscale(qunit(), s);
    assert(e.w == 1_000_000_000_000) by (nonlinear_arith)
        requires
            e.w == qunit().w * (FX_ONE as int),
            qunit().w == 1_000_000,
            FX_ONE == 1_000_000,
    ;
    assert(e.x == 0 && e.y == 0 && e.z == 0);
    assert(tdiv(1_000_000_000_000, 1_000_000) == 1_000_000);
    assert(tdiv(0, 1_000_000) == 0);
    assert(qnormalize(qunit()) == qunit());
    // the identity's translation is zero
    lemma_qmul_fx_zero(qconj(qunit()));
    assert(translation_of(dqm_identity()) == (V3m { x: 0, y: 0, z: 0 }));
    // rotating by the unit quaternion is the identity
    let lt = local.translation;
    let pv = Quatm { x: lt.x, y: lt.y, z: lt.z, w: 0 };
    lemma_qmul_fx_unit(pv);
    assert(qconj(qunit()) == qunit());
    assert(rotate_spec(qunit(), lt) == lt);
    lemma_qmul_fx_unit(local.rotation);
}

/// All joints at their rest defaults yield, for every segment, exactly
/// its own static local transform: the chain of rest-default joint
/// transforms is the identity, and exporting the identity is exact.
pub proof fn lemma_rest_defaults_pose(s: Seq<DualQuatm>, id: int, local: Posem)
    requires
        0 <= id < s.len(),
        forall|j: int| 0 <= j < s.len() ==> s[j] == joint_dq_spec(default_control()),
        pose_wf(local),
    ensures
        export_spec(chain_spec(s, id + 1), local) == local,
{
    lemma_default_control_identity();
    assert(forall|j: int| 0 <= j < s.len() ==> s[j] == dqm_identity());
    lemma_identity_chain(s, id + 1);
    lemma_export_identity(local);
}

} // verus!
