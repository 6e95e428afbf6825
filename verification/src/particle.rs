//! Point masses with Verlet-style state.
//!
//! A particle keeps its current and previous position; its velocity is
//! always the difference of the two.

use vstd::prelude::*;

verus! {

use crate::scalar::{fdiv, fsub, sc, Scalar, SCALE};
use crate::vec2::V2;

/// A point mass.
#[derive(Clone, Copy, PartialEq, Eq, Structural, Debug)]
pub struct Particle {
    pub mass: Scalar,
    pub radius: Scalar,
    pub position: V2,
    pub previous: V2,
    pub acceleration: V2,
}

impl Particle {
    /// A resting unit-mass point particle at the given position.
    pub fn new(position: V2) -> (r: Particle)
        ensures
            r.mass.raw == SCALE,
            r.radius.raw == 0,
            r.position == position,
            r.previous == position,
            r.acceleration == (V2 { x: Scalar { raw: 0 }, y: Scalar { raw: 0 } }),
    {
        Particle {
            mass: Scalar { raw: SCALE },
            radius: Scalar { raw: 0 },
            position,
            previous: position,
            acceleration: V2::zeros(),
        }
    }

    /// The particle with its mass replaced.
    pub fn with_mass(self, mass: Scalar) -> (r: Particle)
        ensures
            r == (Particle { mass, ..self }),
    {
        Particle { mass, ..self }
    }

    /// The particle's mass.
    pub fn mass(&self) -> (r: Scalar)
        ensures
            r == self.mass,
    {
        self.mass
    }

    /// The reciprocal of the mass.
    pub fn inv_mass(&self) -> (r: Scalar)
        requires
            self.mass.raw != 0,
        ensures
            r.raw == fdiv(sc(), self.mass.raw as int),
    {
        Scalar::one().over(self.mass)
    }

    /// Replaces the mass.
    pub fn set_mass(&mut self, mass: Scalar)
        ensures
            *final(self) == (Particle { mass, ..*old(self) }),
    {
        self.mass = mass;
    }

    /// The particle with its radius replaced.
    pub fn with_radius(self, radius: Scalar) -> (r: Particle)
        ensures
            r == (Particle { radius, ..self }),
    {
        Particle { radius, ..self }
    }

    /// The particle's radius.
    pub fn radius(&self) -> (r: Scalar)
        ensures
            r == self.radius,
    {
        self.radius
    }

    /// Replaces the radius.
    pub fn set_radius(&mut self, radius: Scalar)
        ensures
            *final(self) == (Particle { radius, ..*old(self) }),
    {
        self.radius = radius;
    }

    /// The current position.
    pub fn position(&self) -> (r: V2)
        ensures
            r == self.position,
    {
        self.position
    }

    /// The particle with its previous position set so that it carries
    /// the given velocity.
    pub fn with_velocity(self, velocity: V2) -> (r: Particle)
        ensures
            r.previous.x.raw == fsub(self.position.x.raw as int, velocity.x.raw as int),
            r.previous.y.raw == fsub(self.position.y.raw as int, velocity.y.raw as int),
            r == (Particle { previous: r.previous, ..self }),
    {
        Particle { previous: self.position.minus(velocity), ..self }
    }

    /// The velocity reconstructed from the two stored positions.
    pub fn velocity(&self) -> (r: V2)
        ensures
            r.x.raw == fsub(self.position.x.raw as int, self.previous.x.raw as int),
            r.y.raw == fsub(self.position.y.raw as int, self.previous.y.raw as int),
    {
        self.position.minus(self.previous)
    }

    /// The pending acceleration.
    pub fn acceleration(&self) -> (r: V2)
        ensures
            r == self.acceleration,
    {
        self.acceleration
    }
}

} // verus!
