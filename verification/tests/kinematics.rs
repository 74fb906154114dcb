use quatchain::chain::chain_pose;
use quatchain::dualquat::DualQuaternion;
use quatchain::fixed::{cos_fx, isqrt, sin_fx, FX_ONE, HALF_PI_FX, PI_FX};
use quatchain::joint::{joint_dual_quaternion, JointControl};
use quatchain::pose::{export_pose, segment_pose, validate_segments, Pose, Segment};
use quatchain::quat::Quaternion;
use quatchain::vec3::Vec3Fx;

fn norm_sq_of(q: &Quaternion) -> i64 {
    q.x * q.x + q.y * q.y + q.z * q.z + q.w * q.w
}

fn quat_close(a: &Quaternion, b: &Quaternion, tol: i64) -> bool {
    (a.x - b.x).abs() <= tol
        && (a.y - b.y).abs() <= tol
        && (a.z - b.z).abs() <= tol
        && (a.w - b.w).abs() <= tol
}

#[test]
fn isqrt_exact_values() {
    assert_eq!(isqrt(0), 0);
    assert_eq!(isqrt(15), 3);
    assert_eq!(isqrt(16), 4);
    assert_eq!(isqrt(1_000_000_000_000), 1_000_000);
}

#[test]
fn cosine_exact_and_tolerance() {
    assert_eq!(cos_fx(0), FX_ONE);
    assert!(cos_fx(HALF_PI_FX).abs() < 100);
    assert!((cos_fx(PI_FX) + FX_ONE).abs() < 100);
    assert!((sin_fx(HALF_PI_FX) - FX_ONE).abs() < 100);
    assert!(sin_fx(0).abs() < 100);
    // the cosine is even
    assert_eq!(cos_fx(123_456), cos_fx(-123_456));
}

#[test]
fn hamilton_product_i_times_j_is_k() {
    let i = Quaternion::new(FX_ONE, 0, 0, 0);
    let j = Quaternion::new(0, FX_ONE, 0, 0);
    let k = Quaternion::multiply(&i, &j);
    assert_eq!(k, Quaternion::new(0, 0, FX_ONE, 0));
}

#[test]
fn unit_closure_under_multiplication() {
    // a 3-4-5 unit quaternion: norm is exactly FX_ONE
    let q = Quaternion::new(600_000, 800_000, 0, 0);
    assert_eq!(norm_sq_of(&q), FX_ONE * FX_ONE);
    let sq = Quaternion::multiply(&q, &q);
    let n = sq.normalize();
    let nsq = norm_sq_of(&n);
    assert!((nsq - FX_ONE * FX_ONE).abs() <= 8 * FX_ONE + 4);
}

#[test]
fn dual_quaternion_identity_laws() {
    let re = Quaternion::new(10_000, -20_000, 30_000, 990_000);
    let du = Quaternion::new(5_000_000, -2_500_000, 1_000_000, 0);
    let dq = DualQuaternion::new(re, du);
    let id = DualQuaternion::identity();
    assert_eq!(DualQuaternion::multiply(&id, &dq), dq);
    assert_eq!(DualQuaternion::multiply(&dq, &id), dq);
}

#[test]
fn dual_quaternion_associativity_within_tolerance() {
    let a = DualQuaternion::new(
        Quaternion::new(100_000, 0, 0, 994_987),
        Quaternion::new(1_000_000, 2_000_000, 0, 0),
    );
    let b = DualQuaternion::new(
        Quaternion::new(0, 200_000, 0, 979_795),
        Quaternion::new(0, -3_000_000, 500_000, 0),
    );
    let c = DualQuaternion::new(
        Quaternion::new(0, 0, 300_000, 953_939),
        Quaternion::new(750_000, 0, -1_250_000, 0),
    );
    let lhs = DualQuaternion::multiply(&DualQuaternion::multiply(&a, &b), &c);
    let rhs = DualQuaternion::multiply(&a, &DualQuaternion::multiply(&b, &c));
    // truncation makes the fixed-point product only approximately
    // associative; the exact product is associative
    assert!(quat_close(&lhs.real, &rhs.real, 10));
    assert!(quat_close(&lhs.dual, &rhs.dual, 10));
}

#[test]
fn rest_defaults_reproduce_local_transform() {
    let joints = vec![
        joint_dual_quaternion(&JointControl::default()),
        joint_dual_quaternion(&JointControl::default()),
        joint_dual_quaternion(&JointControl::default()),
    ];
    let local = Pose::from_translation(Vec3Fx::new(0, 0, 5 * FX_ONE));
    for id in 0..3usize {
        let seg = Segment::from(local).with_id(id);
        let pose = segment_pose(&joints, &seg).expect("rest defaults stay unit");
        assert_eq!(pose.translation, local.translation);
        assert_eq!(pose.rotation, local.rotation);
        assert_eq!(pose.scale, local.scale);
    }
}

#[test]
fn shared_joint_gives_same_rotation_shifted_translation() {
    // one joint driven, both segments depend on joint 0 only
    let mut c = JointControl::default();
    c.theta = PI_FX;
    c.rot = Vec3Fx::new(0, 0, FX_ONE);
    let joints = vec![joint_dual_quaternion(&c)];
    let seg0 = Segment::from(Pose::identity()).with_id(0);
    let offset = Vec3Fx::new(0, 0, 5 * FX_ONE);
    let seg1 = Segment::from(Pose::from_translation(offset)).with_id(0);
    let p0 = segment_pose(&joints, &seg0).expect("rotation stays unit");
    let p1 = segment_pose(&joints, &seg1).expect("rotation stays unit");
    // the same chain prefix drives both segments: identical rotations
    assert_eq!(p0.rotation, p1.rotation);
    // segment 1 is shifted by its own local offset, carried through
    // the (here near-identity) rotation about the z axis
    let dz = p1.translation.z - p0.translation.z;
    assert!((dz - 5 * FX_ONE).abs() < 5_000);
    assert!((p1.translation.x - p0.translation.x).abs() < 5_000);
    assert!((p1.translation.y - p0.translation.y).abs() < 5_000);
}

#[test]
fn zero_axis_yields_identity_rotation() {
    let mut c = JointControl::default();
    c.theta = 5 * FX_ONE;
    c.rot = Vec3Fx::new(0, 0, 0);
    c.rigid_body_comps = Vec3Fx::new(FX_ONE, 0, 0);
    let dq = joint_dual_quaternion(&c);
    // a zero rotation axis degrades gracefully to the identity
    // rotation: every component is well defined
    assert_eq!(dq.real, Quaternion::identity());
}

#[test]
fn identity_chain_is_identity() {
    for n in 1..=3usize {
        let joints = vec![DualQuaternion::identity(); n];
        for id in 0..n {
            let dq = chain_pose(&joints, id);
            assert_eq!(dq, DualQuaternion::identity());
        }
    }
}

#[test]
fn exp_map_quarter_turn_about_x() {
    // magnitude pi/2: the quaternion of a half-turn about x
    let v = Vec3Fx::new(HALF_PI_FX, 0, 0);
    let q = Quaternion::exp_map(&v);
    assert!((q.x - FX_ONE).abs() < 100);
    assert!(q.y.abs() < 100);
    assert!(q.z.abs() < 100);
    assert!(q.w.abs() < 100);
}

#[test]
fn exp_map_zero_vector_is_identity() {
    let q = Quaternion::exp_map(&Vec3Fx::new(0, 0, 0));
    assert_eq!(q, Quaternion::identity());
}

#[test]
fn translation_roundtrip_through_dual_part() {
    // dual = translation / 2 on a unit real part encodes exactly that
    // translation
    let t = (3 * FX_ONE, -4 * FX_ONE, 5 * FX_ONE);
    let dq = DualQuaternion::new(
        Quaternion::identity(),
        Quaternion::new(t.0 / 2, t.1 / 2, t.2 / 2, 0),
    );
    let back = dq.translation_part();
    assert_eq!(back, Vec3Fx::new(t.0, t.1, t.2));
}

#[test]
fn validate_segments_checks_every_index() {
    let good = vec![
        Segment::from(Pose::identity()).with_id(0),
        Segment::from(Pose::identity()).with_id(2),
    ];
    assert!(validate_segments(&good, 3));
    let bad = vec![
        Segment::from(Pose::identity()).with_id(0),
        Segment::from(Pose::identity()).with_id(3),
    ];
    assert!(!validate_segments(&bad, 3));
}

#[test]
fn export_pose_normalizes_drifted_rotation() {
    // a real part that drifted below unit length is corrected on export
    let dq = DualQuaternion::new(Quaternion::new(0, 0, 0, 900_000), Quaternion::new(0, 0, 0, 0));
    let p = export_pose(&dq, &Pose::identity());
    let nsq = norm_sq_of(&p.rotation);
    assert!((nsq - FX_ONE * FX_ONE).abs() <= 8 * FX_ONE + 4);
    assert_eq!(p.scale, Vec3Fx::new(FX_ONE, FX_ONE, FX_ONE));
}

#[test]
fn fixed_point_multiply_matches_float_reference() {
    // the same Hamilton product in f32 through the reference algebra
    let a = Quaternion::new(100_000, -200_000, 300_000, 927_362);
    let b = Quaternion::new(-50_000, 150_000, 250_000, 955_249);
    let r = Quaternion::multiply(&a, &b);
    let to_f = |q: &Quaternion| {
        static_math::Quaternion::new_from(
            q.w as f32 / 1.0e6,
            q.x as f32 / 1.0e6,
            q.y as f32 / 1.0e6,
            q.z as f32 / 1.0e6,
        )
    };
    let rf = to_f(&a) * to_f(&b);
    let imag = rf.imag();
    assert!((r.w as f32 / 1.0e6 - rf.real()).abs() < 1.0e-3);
    assert!((r.x as f32 / 1.0e6 - imag[0]).abs() < 1.0e-3);
    assert!((r.y as f32 / 1.0e6 - imag[1]).abs() < 1.0e-3);
    assert!((r.z as f32 / 1.0e6 - imag[2]).abs() < 1.0e-3);
}

#[test]
fn axis_angle_roundtrip_through_exp_map() {
    // a rotation well short of the half-turn wrap-around
    let v0 = Vec3Fx::new(200_000, -300_000, 400_000);
    let q = Quaternion::exp_map(&v0);
    let v1 = q.to_axis_angle();
    assert!((v1.x - v0.x).abs() <= 1_000);
    assert!((v1.y - v0.y).abs() <= 1_000);
    assert!((v1.z - v0.z).abs() <= 1_000);
    let q2 = Quaternion::exp_map(&v1);
    assert!(quat_close(&q, &q2, 1_000));
}
