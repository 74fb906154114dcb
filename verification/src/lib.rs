//! Fixed-point quaternion and dual-quaternion algebra for rigid-body
//! forward kinematics: joint controls are mapped to unit dual quaternions,
//! composed along a kinematic chain, and exported as renderable poses.
//!
//! Scalars are fixed-point numbers: an `i64` holding the real value scaled
//! by [`fixed::FX_ONE`]. All arithmetic is exact integer arithmetic with
//! truncating rescaling, so every function has a fully determined contract.

pub mod chain;
pub mod dualquat;
pub mod fixed;
pub mod joint;
pub mod pose;
pub mod quat;
pub mod vec3;
