//! The chain composer: the cumulative transform of a body segment is
//! the left-associative product of the joint transforms up to its
//! chain index, seeded with the identity, recomputed in full on every
//! evaluation.

use vstd::prelude::*;
use crate::dualquat::{
    DualQuatm, DualQuaternion, dqm_identity, dqm_mul, dqm_bounded, lemma_dqm_identity,
    lemma_dqm_mul_bounded, DUAL_NORM_MAX,
};
use crate::joint::JOINT_DUAL_MAX;
use crate::quat::norm_sq;

verus! {

/// The most joints a chain may hold.
pub const CHAIN_MAX: usize = 1000;

/// The cumulative product of the first `k` joint transforms, seeded
/// with the identity on the left.
pub open spec fn chain_spec(s: Seq<DualQuatm>, k: int) -> DualQuatm
    decreases k,
{
    if k <= 0 {
        dqm_identity()
    } else {
        dqm_mul(chain_spec(s, k - 1), s[k - 1])
    }
}

/// The models of a vector of dual quaternions.
pub open spec fn views_of(s: Seq<DualQuaternion>) -> Seq<DualQuatm> {
    s.map_values(|dq: DualQuaternion| dq@)
}

proof fn nl_chain_sq_mono(u: int, v: int)
    by (nonlinear_arith)
    requires
        0 <= u <= v,
    ensures
        u * u <= v * v,
{
}

/// A prefix product of bounded joints is bounded: the real part stays
/// unit-bounded and the dual norm grows at most linearly.
pub proof fn lemma_chain_bounded(s: Seq<DualQuatm>, k: int)
    requires
        0 <= k <= s.len(),
        forall|j: int| 0 <= j < s.len() ==> dqm_bounded(#[trigger] s[j], JOINT_DUAL_MAX as int),
    ensures
        dqm_bounded(chain_spec(s, k), k * (JOINT_DUAL_MAX as int)),
    decreases k,
{
    if k <= 0 {
        assert(norm_sq(dqm_identity().real) == 1_000_000_000_000) by (nonlinear_arith)
            requires
                dqm_identity().real.w == 1_000_000,
                dqm_identity().real.x == 0,
                dqm_identity().real.y == 0,
                dqm_identity().real.z == 0,
        ;
        assert(norm_sq(dqm_identity().dual) == 0);
    } else {
        lemma_chain_bounded(s, k - 1);
        lemma_dqm_mul_bounded(
            chain_spec(s, k - 1),
            s[k - 1],
            (k - 1) * (JOINT_DUAL_MAX as int),
            JOINT_DUAL_MAX as int,
        );
    }
}

/// Composing any chain of identity transforms yields the identity,
/// whatever the chain's length.
pub proof fn lemma_identity_chain(s: Seq<DualQuatm>, k: int)
    requires
        0 <= k <= s.len(),
        forall|j: int| 0 <= j < s.len() ==> s[j] == dqm_identity(),
    ensures
        chain_spec(s, k) == dqm_identity(),
    decreases k,
{
    if k > 0 {
        lemma_identity_chain(s, k - 1);
        lemma_dqm_identity(dqm_identity());
    }
}

/// Composes the chain prefix for the segment with chain index `id`:
/// the product `identity * joints[0] * ... * joints[id]`. A chain
/// index outside the joint list is a configuration error with no
/// recovery path, excluded by contract.
pub fn chain_pose(joints: &Vec<DualQuaternion>, id: usize) -> (r: DualQuaternion)
    requires
        id < joints@.len(),
        joints@.len() <= CHAIN_MAX as int,
        forall|j: int| 0 <= j < joints@.len() ==> dqm_bounded(
            #[trigger] joints@[j]@,
            JOINT_DUAL_MAX as int,
        ),
    ensures
        r@ == chain_spec(views_of(joints@), id as int + 1),
        dqm_bounded(r@, (id as int + 1) * (JOINT_DUAL_MAX as int)),
{
    let mut acc = DualQuaternion::identity();
    let mut i: usize = 0;
    proof {
        assert(views_of(joints@).len() == joints@.len());
        lemma_chain_bounded(views_of(joints@), 0);
    }
    while i <= id
        invariant
            i <= id + 1,
            id < joints@.len(),
            joints@.len() <= CHAIN_MAX as int,
            forall|j: int| 0 <= j < joints@.len() ==> dqm_bounded(
                #[trigger] joints@[j]@,
                JOINT_DUAL_MAX as int,
            ),
            acc@ == chain_spec(views_of(joints@), i as int),
            dqm_bounded(acc@, (i as int) * (JOINT_DUAL_MAX as int)),
        decreases id + 1 - i,
    {
        proof {
            assert(views_of(joints@)[i as int] == joints@[i as int]@);
            lemma_dqm_mul_bounded(
                acc@,
                joints@[i as int]@,
                (i as int) * (JOINT_DUAL_MAX as int),
                JOINT_DUAL_MAX as int,
            );
            assert((i as int) * (JOINT_DUAL_MAX as int) <= 100_000_000_000);
            nl_chain_sq_mono((i as int) * (JOINT_DUAL_MAX as int), DUAL_NORM_MAX as int);
            nl_chain_sq_mono(JOINT_DUAL_MAX as int, DUAL_NORM_MAX as int);
            crate::quat::lemma_norm_nonneg(acc@.dual);
        }
        acc = DualQuaternion::multiply(&acc, &joints[i]);
        i = i + 1;
    }
    acc
}

} // verus!
