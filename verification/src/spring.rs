//! Distance constraints between pairs of particles.

use vstd::prelude::*;

verus! {

use crate::object_set::ObjectHandle;
use crate::particle::Particle;
use crate::scalar::Scalar;

/// A handle naming a particle in the physics engine.
pub type ParticleHandle = ObjectHandle<Particle>;

/// A handle naming a spring in the physics engine.
pub type SpringHandle = ObjectHandle<Spring>;

/// A spring binding two particles at a rest length with a stiffness.
#[derive(Clone, Copy, Debug)]
pub struct Spring {
    pub particle1: ParticleHandle,
    pub particle2: ParticleHandle,
    pub length: Scalar,
    pub strength: Scalar,
}

impl Spring {
    /// Builds a spring between two particles.
    pub fn new(particle1: ParticleHandle, particle2: ParticleHandle, length: Scalar, strength:
        Scalar) -> (r: Spring)
        ensures
            r.particle1.id == particle1.id,
            r.particle2.id == particle2.id,
            r.length == length,
            r.strength == strength,
    {
        Spring { particle1, particle2, length, strength }
    }
}

} // verus!
