//! Joint parameterization: maps one joint's control vector — rotation
//! magnitude `theta`, a rotation-axis vector and a rigid-body offset —
//! to a unit dual quaternion for that joint.

use vstd::prelude::*;
use crate::fixed::{FX_ONE, tdiv, cos_fx, cos_fx_spec, lemma_tdiv_abs,
    div_trunc};
use crate::vec3::{V3m, Vec3Fx};
use crate::quat::{Quatm, Quaternion, qunit, exp_map_spec, lemma_exp_map_zero};
use crate::dualquat::{DualQuatm, DualQuaternion, dqm_identity, dqm_bounded};

verus! {

/// The gain applied to the rotation-axis controls before they enter
/// the rotation, keeping the effective rotation in a usable range for
/// the bounded control inputs. A tunable constant of the mapping, not
/// part of the algebra.
pub const ROT_GAIN: i64 = 100;

/// The largest control magnitude (fixed point) a joint accepts.
pub const CTRL_MAX: i64 = 100_000_000;

/// The largest dual-part norm a joint's dual quaternion can carry.
pub const JOINT_DUAL_MAX: i64 = 100_000_000;

/// Mathematical model of one joint's controls.
pub ghost struct JointControlm {
    pub theta: int,
    pub rot: V3m,
    pub rigid_body_comps: V3m,
}

/// Every control lies within `[-CTRL_MAX, CTRL_MAX]`.
pub open spec fn ctrl_bounded(c: JointControlm) -> bool {
    -CTRL_MAX <= c.theta <= CTRL_MAX && crate::vec3::comps3_bounded(c.rot, CTRL_MAX as int)
        && crate::vec3::comps3_bounded(c.rigid_body_comps, CTRL_MAX as int)
}

/// The rotation axis scaled by the gain and by half of `theta`: the
/// argument handed to the quaternion exponential map.
pub open spec fn scaled_half_axis(c: JointControlm) -> V3m {
    V3m {
        x: tdiv(c.theta * (c.rot.x * (ROT_GAIN as int)), 2 * (FX_ONE as int)),
        y: tdiv(c.theta * (c.rot.y * (ROT_GAIN as int)), 2 * (FX_ONE as int)),
        z: tdiv(c.theta * (c.rot.z * (ROT_GAIN as int)), 2 * (FX_ONE as int)),
    }
}

/// The dual quaternion of one joint: the real part is the exponential
/// map of the scaled half-angle axis; the dual part encodes the
/// rigid-body offset, its magnitude modulated by `cos(theta / 2)` —
/// the rotation magnitude intentionally couples into the translation,
/// preserved here as the mapping's fidelity requires.
pub open spec fn joint_dq_spec(c: JointControlm) -> DualQuatm {
    let hc = cos_fx_spec(tdiv(c.theta, 2));
    DualQuatm {
        real: exp_map_spec(scaled_half_axis(c)),
        dual: Quatm {
            x: tdiv(c.rigid_body_comps.x * hc, 2 * (FX_ONE as int)),
            y: tdiv(c.rigid_body_comps.y * hc, 2 * (FX_ONE as int)),
            z: tdiv(c.rigid_body_comps.z * hc, 2 * (FX_ONE as int)),
            w: 0,
        },
    }
}

/// One joint's control vector: the rotation magnitude `theta`, the
/// rotation-axis components and the rigid-body offset, all fixed point.
#[derive(Clone, Copy, Debug, PartialEq, Eq, Structural)]
pub struct JointControl {
    pub theta: i64,
    pub rot: Vec3Fx,
    pub rigid_body_comps: Vec3Fx,
}

impl View for JointControl {
    type V = JointControlm;

    open spec fn view(&self) -> JointControlm {
        JointControlm { theta: self.theta as int, rot: self.rot@, rigid_body_comps: self.rigid_body_comps@ }
    }
}

/// The rest state of a joint's controls: axis and offset zero, and
/// `theta` a small non-zero magnitude, because an exactly-zero `theta`
/// degenerates the transform magnitude for the other parameters.
pub open spec fn default_control() -> JointControlm {
    JointControlm {
        theta: 1000,
        rot: V3m { x: 0, y: 0, z: 0 },
        rigid_body_comps: V3m { x: 0, y: 0, z: 0 },
    }
}

impl Default for JointControl {
    /// The rest defaults: `theta` clamped to a small non-zero value,
    /// axis and offset zero.
    fn default() -> (c: Self)
        ensures
            c@ == default_control(),
    {
        JointControl {
            theta: 1000,
            rot: Vec3Fx { x: 0, y: 0, z: 0 },
            rigid_body_comps: Vec3Fx { x: 0, y: 0, z: 0 },
        }
    }
}

proof fn nl_mul_abs2j(u: int, v: int, ub: int, vb: int)
    by (nonlinear_arith)
    requires
        ub >= 0,
        vb >= 0,
        -ub <= u <= ub,
        -vb <= v <= vb,
    ensures
        -(ub * vb) <= u * v <= ub * vb,
{
}

proof fn nl_sq_monoj(x: int, b: int)
    by (nonlinear_arith)
    requires
        -b <= x <= b,
        b >= 0,
    ensures
        x * x <= b * b,
{
}

/// Builds the unit dual quaternion of one joint from its controls.
#[verifier::rlimit(30)]
pub fn joint_dual_quaternion(c: &JointControl) -> (dq: DualQuaternion)
    requires
        ctrl_bounded(c@),
    ensures
        dq@ == joint_dq_spec(c@),
        dqm_bounded(dq@, JOINT_DUAL_MAX as int),
        c@.rot == (V3m { x: 0, y: 0, z: 0 }) ==> dq@.real == qunit(),
{
    let ax: i64 = c.rot.x * ROT_GAIN;
    let ay: i64 = c.rot.y * ROT_GAIN;
    let az: i64 = c.rot.z * ROT_GAIN;
    proof {
        nl_mul_abs2j(c@.theta, ax as int, CTRL_MAX as int, 10_000_000_000);
        nl_mul_abs2j(c@.theta, ay as int, CTRL_MAX as int, 10_000_000_000);
        nl_mul_abs2j(c@.theta, az as int, CTRL_MAX as int, 10_000_000_000);
        lemma_tdiv_abs(c@.theta * (ax as int), 2_000_000);
        lemma_tdiv_abs(c@.theta * (ay as int), 2_000_000);
        lemma_tdiv_abs(c@.theta * (az as int), 2_000_000);
    }
    let v = Vec3Fx {
        x: div_trunc(c.theta * ax, 2 * FX_ONE),
        y: div_trunc(c.theta * ay, 2 * FX_ONE),
        z: div_trunc(c.theta * az, 2 * FX_ONE),
    };
    proof {
        assert(v@ == scaled_half_axis(c@));
        if c@.rot == (V3m { x: 0, y: 0, z: 0 }) {
            assert(ax as int == 0 && ay as int == 0 && az as int == 0);
            assert(c@.theta * (ax as int) == 0 && c@.theta * (ay as int) == 0 && c@.theta * (
            az as int) == 0) by (nonlinear_arith)
                requires
                    ax as int == 0,
                    ay as int == 0,
                    az as int == 0,
            ;
            assert(v@ == (V3m { x: 0, y: 0, z: 0 }));
        }
    }
    let re = Quaternion::exp_map(&v);
    let half: i64 = div_trunc(c.theta, 2);
    let hc: i64 = cos_fx(half);
    proof {
        nl_mul_abs2j(c@.rigid_body_comps.x, hc as int, CTRL_MAX as int, FX_ONE as int);
        nl_mul_abs2j(c@.rigid_body_comps.y, hc as int, CTRL_MAX as int, FX_ONE as int);
        nl_mul_abs2j(c@.rigid_body_comps.z, hc as int, CTRL_MAX as int, FX_ONE as int);
        lemma_tdiv_abs(c@.rigid_body_comps.x * (hc as int), 2_000_000);
        lemma_tdiv_abs(c@.rigid_body_comps.y * (hc as int), 2_000_000);
        lemma_tdiv_abs(c@.rigid_body_comps.z * (hc as int), 2_000_000);
    }
    let du = Quaternion::new(
        div_trunc(c.rigid_body_comps.x * hc, 2 * FX_ONE),
        div_trunc(c.rigid_body_comps.y * hc, 2 * FX_ONE),
        div_trunc(c.rigid_body_comps.z * hc, 2 * FX_ONE),
        0,
    );
    proof {
        nl_sq_monoj(du@.x, 50_000_000);
        nl_sq_monoj(du@.y, 50_000_000);
        nl_sq_monoj(du@.z, 50_000_000);
    }
    DualQuaternion::new(re, du)
}

/// The rest defaults yield exactly the identity transform: no net
/// rotation or translation is injected at rest, although `theta` is
/// not zero.
pub proof fn lemma_default_control_identity()
    ensures
        joint_dq_spec(default_control()) == dqm_identity(),
{
    let c = default_control();
    assert(c.rot.x * (ROT_GAIN as int) == 0);
    assert(c.theta * 0 == 0) by (nonlinear_arith);
    assert(tdiv(0, 2 * (FX_ONE as int)) == 0);
    assert(scaled_half_axis(c) == (V3m { x: 0, y: 0, z: 0 }));
    lemma_exp_map_zero();
    let hc = cos_fx_spec(tdiv(c.theta, 2));
    assert(c.rigid_body_comps.x * hc == 0) by (nonlinear_arith)
        requires
            c.rigid_body_comps.x == 0,
    ;
}

/// A rotation-axis vector of exactly zero, with any `theta`, yields a
/// well-defined identity rotation: no degenerate value is produced.
pub proof fn lemma_zero_axis_rotation(c: JointControlm)
    requires
        c.rot == (V3m { x: 0, y: 0, z: 0 }),
    ensures
        joint_dq_spec(c).real == qunit(),
{
    assert(c.rot.x * (ROT_GAIN as int) == 0);
    assert(c.theta * 0 == 0) by (nonlinear_arith);
    assert(tdiv(0, 2 * (FX_ONE as int)) == 0);
    assert(scaled_half_axis(c) == (V3m { x: 0, y: 0, z: 0 }));
    lemma_exp_map_zero();
}

} // verus!
