//! Collision and contact records surfaced by the physics engine.

use vstd::prelude::*;

verus! {

use crate::scalar::Scalar;
use crate::spring::ParticleHandle;
use crate::vec2::V2;

/// A vertex particle found inside a foreign polygon, with the closest
/// eligible segment it should be pushed out of.
#[derive(Clone, Copy, Debug)]
pub struct PointInPolygon {
    pub particle_handle: ParticleHandle,
    pub particle_point: V2,
    pub segment_handle1: ParticleHandle,
    pub segment_handle2: ParticleHandle,
    pub segment_point1: V2,
    pub segment_point2: V2,
    pub ratio: Scalar,
    pub depth: Scalar,
}

/// A collision found during a sub-step.
#[derive(Clone, Copy, Debug)]
pub enum Collision {
    PointInPolygon(PointInPolygon),
}

/// A contact reported to the simulator after resolution: the penetrating
/// particle, the segment endpoints it was pushed away from, and the
/// outward normal it was moved along.
#[derive(Clone, Copy, Debug)]
pub struct Contact {
    pub particle: ParticleHandle,
    pub segment_particle1: ParticleHandle,
    pub segment_particle2: ParticleHandle,
    pub normal: V2,
}

} // verus!
