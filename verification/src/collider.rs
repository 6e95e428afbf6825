//! Polygon colliders: rings of particle handles with cached geometry.

use vstd::prelude::*;

verus! {

use crate::object_set::{ObjectHandle, ObjectSet};
use crate::particle::Particle;
use crate::polygon::ClosedPolygon;
use crate::scalar::Scalar;
use crate::spring::ParticleHandle;
use crate::vec2::V2;

/// Raw value of the default collider restitution.
pub const DEFAULT_RESTITUTION_RAW: i64 = 600_000_000;

/// A collider built from the instantaneous positions of a ring of
/// particles.  `live_handles` and the cached polygon are rebuilt
/// together each sub-step, so they stay in step: position `i` of the
/// polygon belongs to `live_handles[i]`.
pub struct PolygonCollider {
    pub particle_handles: Vec<ParticleHandle>,
    pub live_handles: Vec<ParticleHandle>,
    pub restitution: Scalar,
    pub polygon: ClosedPolygon,
}

/// The particles of a handle list that resolve, as `(handle id, position)`
/// pairs in list order.
pub open spec fn live_points(
    particles: ObjectSet<Particle>,
    handles: Seq<ParticleHandle>,
) -> Seq<(u64, V2)>
    decreases handles.len(),
{
    if handles.len() == 0 {
        Seq::empty()
    } else {
        let rest = live_points(particles, handles.drop_last());
        let h = handles.last();
        if particles.has(h.id) {
            rest.push((h.id, particles.obj(h.id).position))
        } else {
            rest
        }
    }
}

impl PolygonCollider {
    /// The cached polygon matches the live particles of the handle ring.
    pub open spec fn wf(self) -> bool {
        &&& self.polygon.wf()
        &&& self.live_handles@.len() == self.polygon.points_seq().len()
    }

    /// The cache agrees with an arena: handle ids and polygon points are
    /// exactly the live particles of the ring, in order.
    pub open spec fn cache_matches(self, particles: ObjectSet<Particle>) -> bool {
        let lp = live_points(particles, self.particle_handles@);
        &&& self.live_handles@.len() == lp.len()
        &&& self.polygon.points_seq().len() == lp.len()
        &&& forall|i: int|
            0 <= i < lp.len() ==> (#[trigger] self.live_handles@[i]).id == lp[i].0
                && self.polygon.points_seq()[i] == lp[i].1
    }

    /// Builds a collider over a ring of particle handles, with the
    /// default restitution and an empty cache.
    pub fn new(particle_handles: Vec<ParticleHandle>) -> (r: PolygonCollider)
        ensures
            r.wf(),
            r.particle_handles@ == particle_handles@,
            r.restitution.raw == DEFAULT_RESTITUTION_RAW,
            r.polygon.points_seq().len() == 0,
    {
        PolygonCollider {
            particle_handles,
            live_handles: Vec::new(),
            restitution: Scalar { raw: DEFAULT_RESTITUTION_RAW },
            polygon: ClosedPolygon::empty(),
        }
    }

    /// The collider with its restitution replaced.
    pub fn with_restitution(self, coefficient: Scalar) -> (r: PolygonCollider)
        ensures
            r.restitution == coefficient,
            r.particle_handles@ == self.particle_handles@,
            r.live_handles@ == self.live_handles@,
            r.polygon == self.polygon,
    {
        PolygonCollider { restitution: coefficient, ..self }
    }

    /// Appends a particle handle to the ring.
    pub fn add_particle_handle(&mut self, handle: ParticleHandle)
        ensures
            final(self).particle_handles@ == old(self).particle_handles@.push(handle),
            final(self).live_handles@ == old(self).live_handles@,
            final(self).restitution == old(self).restitution,
            final(self).polygon == old(self).polygon,
    {
        self.particle_handles.push(handle);
    }

    /// The cached polygon.
    pub fn polygon(&self) -> (r: &ClosedPolygon)
        ensures
            *r == self.polygon,
    {
        &self.polygon
    }

    /// Whether the cached bounding boxes of the two colliders overlap.
    pub fn intersects_bounding_box(&self, other: &PolygonCollider) -> (r: bool)
        ensures
            r == ({
                let a = self.polygon.bounding_box;
                let b = other.polygon.bounding_box;
                crate::bounding_box::axis_overlaps(
                    a.center.x.raw as int,
                    a.size.x.raw as int,
                    b.center.x.raw as int,
                    b.size.x.raw as int,
                ) && crate::bounding_box::axis_overlaps(
                    a.center.y.raw as int,
                    a.size.y.raw as int,
                    b.center.y.raw as int,
                    b.size.y.raw as int,
                )
            }),
    {
        self.polygon.bounding_box().intersects(other.polygon.bounding_box())
    }

    /// Rebuilds the cached polygon and live-handle list from the current
    /// particle positions; handles that no longer resolve are skipped.
    pub fn update(&mut self, particles: &ObjectSet<Particle>)
        requires
            particles.wf(),
        ensures
            final(self).wf(),
            final(self).cache_matches(*particles),
            final(self).particle_handles@ == old(self).particle_handles@,
            final(self).restitution == old(self).restitution,
    {
        let n = self.particle_handles.len();
        let mut points: Vec<V2> = Vec::new();
        let mut live: Vec<ParticleHandle> = Vec::new();
        let mut i: usize = 0;
        while i < n
            invariant
                particles.wf(),
                n == self.particle_handles@.len(),
                i <= n,
                ({
                    let lp = live_points(*particles, self.particle_handles@.subrange(0, i as int));
                    &&& live@.len() == lp.len()
                    &&& points@.len() == lp.len()
                    &&& forall|k: int|
                        0 <= k < lp.len() ==> (#[trigger] live@[k]).id == lp[k].0 && points@[k]
                            == lp[k].1
                }),
            decreases n - i,
        {
            let h = self.particle_handles[i];
            proof {
                let pre = self.particle_handles@.subrange(0, i as int);
                let cur = self.particle_handles@.subrange(0, i + 1);
                assert(cur.drop_last() =~= pre);
                assert(cur.last() == self.particle_handles@[i as int]);
            }
            match particles.get(h) {
                Some(p) => {
                    points.push(p.position);
                    live.push(h);
                },
                None => {
                },
            }
            i = i + 1;
        }
        proof {
            assert(self.particle_handles@.subrange(0, n as int) =~= self.particle_handles@);
        }
        self.polygon.update(&points);
        self.live_handles = live;
    }
}

/// The collider variants the engine can hold.
pub enum Collider {
    Polygon(PolygonCollider),
}

/// A handle naming a collider in the physics engine.
pub type ColliderHandle = ObjectHandle<Collider>;

impl Collider {
    /// The collider's well-formedness.
    pub open spec fn wf(self) -> bool {
        match self {
            Collider::Polygon(c) => c.wf(),
        }
    }

    /// The underlying polygon collider, as a spec value.
    pub open spec fn poly(self) -> PolygonCollider {
        match self {
            Collider::Polygon(c) => c,
        }
    }

    /// The underlying polygon collider.
    pub fn as_polygon(&self) -> (r: &PolygonCollider)
        ensures
            *r == self.poly(),
    {
        match self {
            Collider::Polygon(c) => c,
        }
    }

    /// Whether the two colliders' cached bounding boxes overlap.
    pub fn intersects(&self, other: &Collider) -> (r: bool)
        ensures
            r == ({
                let a = self.poly().polygon.bounding_box;
                let b = other.poly().polygon.bounding_box;
                crate::bounding_box::axis_overlaps(
                    a.center.x.raw as int,
                    a.size.x.raw as int,
                    b.center.x.raw as int,
                    b.size.x.raw as int,
                ) && crate::bounding_box::axis_overlaps(
                    a.center.y.raw as int,
                    a.size.y.raw as int,
                    b.center.y.raw as int,
                    b.size.y.raw as int,
                )
            }),
    {
        match (self, other) {
            (Collider::Polygon(a), Collider::Polygon(b)) => a.intersects_bounding_box(b),
        }
    }

    /// Rebuilds the cached geometry from the current particle positions.
    pub fn update_cache(&mut self, particles: &ObjectSet<Particle>)
        requires
            particles.wf(),
        ensures
            final(self).wf(),
            final(self).poly().cache_matches(*particles),
            final(self).poly().particle_handles@ == old(self).poly().particle_handles@,
            final(self).poly().restitution == old(self).poly().restitution,
    {
        match self {
            Collider::Polygon(c) => c.update(particles),
        }
    }
}

} // verus!
