//! Three-component fixed-point vectors: rotation axes, rigid-body
//! offsets and translations.

use vstd::prelude::*;
use crate::fixed::{FX_ONE, TRIG_ARG_MAX, cos_fx, cos_fx_spec, sin_fx, sin_fx_spec};

verus! {

/// Mathematical model of a fixed-point 3-vector.
pub ghost struct V3m {
    pub x: int,
    pub y: int,
    pub z: int,
}

/// The squared euclidean norm of a model vector.
pub open spec fn norm3_sq(v: V3m) -> int {
    v.x * v.x + v.y * v.y + v.z * v.z
}

/// Every component lies in `[-b, b]`.
pub open spec fn comps3_bounded(v: V3m, b: int) -> bool {
    -b <= v.x <= b && -b <= v.y <= b && -b <= v.z <= b
}

/// A fixed-point 3-vector: each component holds the real value scaled
/// by `FX_ONE`.
#[derive(Clone, Copy, Debug, PartialEq, Eq, Structural)]
pub struct Vec3Fx {
    pub x: i64,
    pub y: i64,
    pub z: i64,
}

impl View for Vec3Fx {
    type V = V3m;

    open spec fn view(&self) -> V3m {
        V3m { x: self.x as int, y: self.y as int, z: self.z as int }
    }
}

impl Vec3Fx {
    /// The zero vector.
    pub fn zero() -> (v: Vec3Fx)
        ensures
            v@ == (V3m { x: 0, y: 0, z: 0 }),
    {
        Vec3Fx { x: 0, y: 0, z: 0 }
    }

    /// Builds a vector from its components.
    pub fn new(x: i64, y: i64, z: i64) -> (v: Vec3Fx)
        ensures
            v@ == (V3m { x: x as int, y: y as int, z: z as int }),
    {
        Vec3Fx { x, y, z }
    }

    /// Componentwise sum.
    pub fn add(&self, rhs: &Vec3Fx) -> (r: Vec3Fx)
        requires
            comps3_bounded(self@, 4_000_000_000_000_000_000),
            comps3_bounded(rhs@, 4_000_000_000_000_000_000),
        ensures
            r@ == (V3m {
                x: self@.x + rhs@.x,
                y: self@.y + rhs@.y,
                z: self@.z + rhs@.z,
            }),
    {
        Vec3Fx { x: self.x + rhs.x, y: self.y + rhs.y, z: self.z + rhs.z }
    }

    /// The componentwise fixed-point sine.
    pub fn sin(&self) -> (r: Vec3Fx)
        requires
            comps3_bounded(self@, TRIG_ARG_MAX as int),
        ensures
            r@ == (V3m {
                x: sin_fx_spec(self@.x),
                y: sin_fx_spec(self@.y),
                z: sin_fx_spec(self@.z),
            }),
            comps3_bounded(r@, FX_ONE as int),
    {
        Vec3Fx { x: sin_fx(self.x), y: sin_fx(self.y), z: sin_fx(self.z) }
    }

    /// The componentwise fixed-point cosine.
    pub fn cos(&self) -> (r: Vec3Fx)
        requires
            comps3_bounded(self@, TRIG_ARG_MAX as int),
        ensures
            r@ == (V3m {
                x: cos_fx_spec(self@.x),
                y: cos_fx_spec(self@.y),
                z: cos_fx_spec(self@.z),
            }),
            comps3_bounded(r@, FX_ONE as int),
    {
        Vec3Fx { x: cos_fx(self.x), y: cos_fx(self.y), z: cos_fx(self.z) }
    }
}

} // verus!
