//! The physics engine: Verlet integration, world boundaries, spring
//! relaxation and polygon collision resolution, in that fixed order,
//! over a configurable number of sub-steps per update.

use vstd::prelude::*;

verus! {

use crate::collider::{Collider, ColliderHandle};
use crate::collision::{Contact, PointInPolygon};
use crate::object_set::ObjectSet;
use crate::particle::Particle;
use crate::random::RandomSource;
use crate::resolver::CollisionResolver;
use crate::scalar::{fadd, fdiv, fmul, fsub, sc, Scalar, SCALE};
use crate::spring::{ParticleHandle, Spring, SpringHandle};
use crate::vec2::{fmag, lemma_fmag_zero, V2};

/// Raw value of the default step time, one sixtieth of a second.
pub const DEFAULT_STEP_TIME_RAW: i64 = 16_666_666;

/// Default number of sub-steps per update.
pub const DEFAULT_NUM_ITERATIONS: usize = 10;

/// Raw value of the default downward gravity.
pub const DEFAULT_GRAVITY_RAW: i64 = 9_810_000_000;

/// Raw value of the default drag coefficient.
pub const DEFAULT_DRAG_RAW: i64 = 10_000_000;

/// Raw value of the default wall restitution.
pub const DEFAULT_WALL_RESTITUTION_RAW: i64 = 600_000_000;

/// Raw value of the default wall friction.
pub const DEFAULT_FRICTION_RAW: i64 = 500_000_000;

/// Raw value of one half.
pub const HALF_RAW: i64 = 500_000_000;

/// Drag deceleration of a particle: `(half_drag * |v|^2) * unit(v) / mass`,
/// zero for a resting particle.
pub open spec fn drag_accel(mass: int, vx: int, vy: int, half_drag: int) -> (int, int) {
    if vx == 0 && vy == 0 {
        (0, 0)
    } else {
        let m = fmag(vx, vy);
        let coef = fmul(fmul(half_drag, m), m);
        (fdiv(fmul(fdiv(vx, m), coef), mass), fdiv(fmul(fdiv(vy, m), coef), mass))
    }
}

/// One Verlet integration step: reconstruct the velocity, add gravity
/// and drag to the pending acceleration, advance the position, clear
/// the acceleration.
pub open spec fn integrate_spec(p: Particle, gravity: V2, half_drag: int, dt: int) -> Particle {
    let vx = fsub(p.position.x.raw as int, p.previous.x.raw as int);
    let vy = fsub(p.position.y.raw as int, p.previous.y.raw as int);
    let (dax, day) = drag_accel(p.mass.raw as int, vx, vy, half_drag);
    let ax = fadd(p.acceleration.x.raw as int, fsub(gravity.x.raw as int, dax));
    let ay = fadd(p.acceleration.y.raw as int, fsub(gravity.y.raw as int, day));
    Particle {
        previous: p.position,
        position: V2 {
            x: Scalar { raw: fadd(p.position.x.raw as int, fadd(vx, fmul(fmul(ax, dt), dt))) as i64 },
            y: Scalar { raw: fadd(p.position.y.raw as int, fadd(vy, fmul(fmul(ay, dt), dt))) as i64 },
        },
        acceleration: V2 { x: Scalar { raw: 0 }, y: Scalar { raw: 0 } },
        ..p
    }
}

/// Tangential damping after an x-wall bounce: the y-velocity shrinks by
/// the friction share.
pub open spec fn friction_x_spec(p: Particle, friction: int) -> Particle {
    let nvx = fsub(p.position.x.raw as int, p.previous.x.raw as int);
    let nvy = fmul(fsub(p.position.y.raw as int, p.previous.y.raw as int), fsub(sc(), friction));
    Particle {
        previous: V2 {
            x: Scalar { raw: fsub(p.position.x.raw as int, nvx) as i64 },
            y: Scalar { raw: fsub(p.position.y.raw as int, nvy) as i64 },
        },
        ..p
    }
}

/// Tangential damping after a y-wall bounce: the x-velocity shrinks by
/// the friction share.
pub open spec fn friction_y_spec(p: Particle, friction: int) -> Particle {
    let nvx = fmul(fsub(p.position.x.raw as int, p.previous.x.raw as int), fsub(sc(), friction));
    let nvy = fsub(p.position.y.raw as int, p.previous.y.raw as int);
    Particle {
        previous: V2 {
            x: Scalar { raw: fsub(p.position.x.raw as int, nvx) as i64 },
            y: Scalar { raw: fsub(p.position.y.raw as int, nvy) as i64 },
        },
        ..p
    }
}

/// Reflection about the two x walls: the position is mirrored about the
/// wall plane and the stored previous position is set so that the
/// reconstructed x-velocity is `-restitution` times the incoming one.
pub open spec fn boundary_x_spec(
    p: Particle,
    velx: int,
    world_x: int,
    restitution: int,
    friction: int,
) -> Particle {
    let px = p.position.x.raw as int;
    let rad = p.radius.raw as int;
    if px > fsub(world_x, rad) {
        let nx = fsub(fmul(2 * sc(), fsub(world_x, rad)), px);
        let q = Particle {
            position: V2 { x: Scalar { raw: nx as i64 }, ..p.position },
            previous: V2 {
                x: Scalar { raw: fadd(nx, fmul(restitution, velx)) as i64 },
                ..p.previous
            },
            ..p
        };
        friction_x_spec(q, friction)
    } else if px < rad {
        let nx = fsub(fmul(2 * sc(), rad), px);
        let q = Particle {
            position: V2 { x: Scalar { raw: nx as i64 }, ..p.position },
            previous: V2 {
                x: Scalar { raw: fadd(nx, fmul(restitution, velx)) as i64 },
                ..p.previous
            },
            ..p
        };
        friction_x_spec(q, friction)
    } else {
        p
    }
}

/// Reflection about the two y walls, like [`boundary_x_spec`].
pub open spec fn boundary_y_spec(
    p: Particle,
    vely: int,
    world_y: int,
    restitution: int,
    friction: int,
) -> Particle {
    let py = p.position.y.raw as int;
    let rad = p.radius.raw as int;
    if py > fsub(world_y, rad) {
        let ny = fsub(fmul(2 * sc(), fsub(world_y, rad)), py);
        let q = Particle {
            position: V2 { y: Scalar { raw: ny as i64 }, ..p.position },
            previous: V2 {
                y: Scalar { raw: fadd(ny, fmul(restitution, vely)) as i64 },
                ..p.previous
            },
            ..p
        };
        friction_y_spec(q, friction)
    } else if py < rad {
        let ny = fsub(fmul(2 * sc(), rad), py);
        let q = Particle {
            position: V2 { y: Scalar { raw: ny as i64 }, ..p.position },
            previous: V2 {
                y: Scalar { raw: fadd(ny, fmul(restitution, vely)) as i64 },
                ..p.previous
            },
            ..p
        };
        friction_y_spec(q, friction)
    } else {
        p
    }
}

/// Both wall checks, fed with the velocity reconstructed before either.
pub open spec fn boundary_spec(
    p: Particle,
    world: V2,
    restitution: int,
    friction: int,
) -> Particle {
    let vx = fsub(p.position.x.raw as int, p.previous.x.raw as int);
    let vy = fsub(p.position.y.raw as int, p.previous.y.raw as int);
    let q = boundary_x_spec(p, vx, world.x.raw as int, restitution, friction);
    boundary_y_spec(q, vy, world.y.raw as int, restitution, friction)
}

/// One sub-step of a particle that no spring and no collider touches:
/// integration followed by the wall checks.
pub open spec fn free_particle_step(
    p: Particle,
    gravity: V2,
    half_drag: int,
    world: V2,
    restitution: int,
    friction: int,
    dt: int,
) -> Particle {
    boundary_spec(integrate_spec(p, gravity, half_drag, dt), world, restitution, friction)
}

/// `n` such sub-steps in a row.
pub open spec fn free_particle_steps(
    p: Particle,
    gravity: V2,
    half_drag: int,
    world: V2,
    restitution: int,
    friction: int,
    dt: int,
    n: nat,
) -> Particle
    decreases n,
{
    if n == 0 {
        p
    } else {
        free_particle_step(
            free_particle_steps(p, gravity, half_drag, world, restitution, friction, dt, (n - 1) as nat),
            gravity,
            half_drag,
            world,
            restitution,
            friction,
            dt,
        )
    }
}

/// One spring relaxation: both endpoints move along the axis toward the
/// rest length by the correction `(1/2) * k * (d - L) / (d * (m1 + m2))`,
/// each scaled by the opposite endpoint's mass, so the heavier particle
/// moves less.  Coincident endpoints, or a correction denominator that
/// underflows to zero, leave both in place.
pub open spec fn spring_step(p1: Particle, p2: Particle, len: int, strength: int) -> (
    Particle,
    Particle,
) {
    let ax = fsub(p2.position.x.raw as int, p1.position.x.raw as int);
    let ay = fsub(p2.position.y.raw as int, p1.position.y.raw as int);
    let distance = fmag(ax, ay);
    let total = fadd(p1.mass.raw as int, p2.mass.raw as int);
    let denom = fmul(distance, total);
    if denom == 0 {
        (p1, p2)
    } else {
        let displacement = fsub(distance, len);
        let factor = fdiv(fmul(fmul(HALF_RAW as int, strength), displacement), denom);
        let d1x = fmul(fmul(fmul(ax, HALF_RAW as int), factor), p2.mass.raw as int);
        let d1y = fmul(fmul(fmul(ay, HALF_RAW as int), factor), p2.mass.raw as int);
        let d2x = fmul(fmul(fmul(ax, HALF_RAW as int), factor), p1.mass.raw as int);
        let d2y = fmul(fmul(fmul(ay, HALF_RAW as int), factor), p1.mass.raw as int);
        (
            Particle {
                position: V2 {
                    x: Scalar { raw: fadd(p1.position.x.raw as int, d1x) as i64 },
                    y: Scalar { raw: fadd(p1.position.y.raw as int, d1y) as i64 },
                },
                ..p1
            },
            Particle {
                position: V2 {
                    x: Scalar { raw: fsub(p2.position.x.raw as int, d2x) as i64 },
                    y: Scalar { raw: fsub(p2.position.y.raw as int, d2y) as i64 },
                },
                ..p2
            },
        )
    }
}

/// Everything one `update` call guarantees, as a relation between the
/// world before and after it; stated once so that callers can compose
/// whole steps.
pub open spec fn physics_update_rel(pre: Physics, post: Physics) -> bool {
    &&& post.wf()
    &&& post.time.raw == fadd(pre.time.raw as int, pre.step_time.raw as int)
    &&& skeleton_same(pre.particles, post.particles)
    &&& post.springs == pre.springs
    &&& post.world_size == pre.world_size
    &&& post.step_time == pre.step_time
    &&& post.num_iterations == pre.num_iterations
    &&& post.gravity == pre.gravity
    &&& post.drag == pre.drag
    &&& post.restitution == pre.restitution
    &&& post.friction == pre.friction
    &&& post.colliders.entries_seq().len() == pre.colliders.entries_seq().len()
    &&& post.colliders.next() == pre.colliders.next()
    &&& forall|i: int|
        0 <= i < pre.colliders.entries_seq().len() ==> (
        #[trigger] post.colliders.entries_seq()[i]).0 == pre.colliders.entries_seq()[i].0
    &&& (pre.springs.entries_seq().len() == 0 && pre.colliders.entries_seq().len() == 0)
        ==> forall|i: int|
        0 <= i < pre.particles.entries_seq().len() ==> (
        #[trigger] post.particles.entries_seq()[i]) == (
        pre.particles.entries_seq()[i].0,
        free_particle_steps(
            pre.particles.entries_seq()[i].1,
            pre.gravity,
            fmul(HALF_RAW as int, pre.drag.raw as int),
            pre.world_size,
            pre.restitution.raw as int,
            pre.friction.raw as int,
            crate::scalar::fdiv_int(pre.step_time.raw as int, pre.num_iterations as int),
            pre.num_iterations as nat,
        ),
        )
}

/// Two particle arenas share their skeleton: the same ids in the same
/// order, with the same masses and radii.
pub open spec fn skeleton_same(a: ObjectSet<Particle>, b: ObjectSet<Particle>) -> bool {
    &&& a.entries_seq().len() == b.entries_seq().len()
    &&& a.next() == b.next()
    &&& forall|i: int|
        0 <= i < a.entries_seq().len() ==> (#[trigger] b.entries_seq()[i]).0
            == a.entries_seq()[i].0 && b.entries_seq()[i].1.mass == a.entries_seq()[i].1.mass
            && b.entries_seq()[i].1.radius == a.entries_seq()[i].1.radius
}

/// The mass–spring world.
pub struct Physics {
    pub time: Scalar,
    pub world_size: V2,
    pub step_time: Scalar,
    pub num_iterations: usize,
    pub gravity: V2,
    pub drag: Scalar,
    pub restitution: Scalar,
    pub friction: Scalar,
    pub particles: ObjectSet<Particle>,
    pub springs: ObjectSet<Spring>,
    pub colliders: ObjectSet<Collider>,
    pub contacts: Vec<Contact>,
}

impl Physics {
    /// A particle arena is sound: well-formed with positive masses.
    pub open spec fn particles_ok(ps: ObjectSet<Particle>) -> bool {
        &&& ps.wf()
        &&& forall|i: int|
            0 <= i < ps.entries_seq().len() ==> (#[trigger] ps.entries_seq()[i]).1.mass.raw > 0
    }

    /// Engine well-formedness.
    pub open spec fn wf(self) -> bool {
        &&& Physics::particles_ok(self.particles)
        &&& self.springs.wf()
        &&& self.colliders.wf()
        &&& forall|i: int|
            0 <= i < self.colliders.entries_seq().len() ==> (
            #[trigger] self.colliders.entries_seq()[i]).1.wf()
        &&& 1 <= self.num_iterations <= 0xffff
    }

    /// A world of the given size with the default configuration and no
    /// bodies.
    pub fn new(world_size: V2) -> (r: Physics)
        ensures
            r.wf(),
            r.time.raw == 0,
            r.world_size == world_size,
            r.step_time.raw == DEFAULT_STEP_TIME_RAW,
            r.num_iterations == DEFAULT_NUM_ITERATIONS,
            r.gravity.x.raw == 0 && r.gravity.y.raw == DEFAULT_GRAVITY_RAW,
            r.drag.raw == DEFAULT_DRAG_RAW,
            r.restitution.raw == DEFAULT_WALL_RESTITUTION_RAW,
            r.friction.raw == DEFAULT_FRICTION_RAW,
            r.particles.entries_seq().len() == 0,
            r.springs.entries_seq().len() == 0,
            r.colliders.entries_seq().len() == 0,
            r.particles.next() == 0,
            r.springs.next() == 0,
            r.colliders.next() == 0,
            r.contacts@.len() == 0,
    {
        Physics {
            time: Scalar { raw: 0 },
            world_size,
            step_time: Scalar { raw: DEFAULT_STEP_TIME_RAW },
            num_iterations: DEFAULT_NUM_ITERATIONS,
            gravity: V2::new(Scalar { raw: 0 }, Scalar { raw: DEFAULT_GRAVITY_RAW }),
            drag: Scalar { raw: DEFAULT_DRAG_RAW },
            restitution: Scalar { raw: DEFAULT_WALL_RESTITUTION_RAW },
            friction: Scalar { raw: DEFAULT_FRICTION_RAW },
            particles: ObjectSet::new(),
            springs: ObjectSet::new(),
            colliders: ObjectSet::new(),
            contacts: Vec::new(),
        }
    }

    /// Elapsed simulated time.
    pub fn time(&self) -> (r: Scalar)
        ensures
            r == self.time,
    {
        self.time
    }

    /// The world rectangle's size.
    pub fn world_size(&self) -> (r: V2)
        ensures
            r == self.world_size,
    {
        self.world_size
    }

    /// Duration of one full update.
    pub fn step_time(&self) -> (r: Scalar)
        ensures
            r == self.step_time,
    {
        self.step_time
    }

    /// Number of sub-steps per update.
    pub fn num_iterations(&self) -> (r: usize)
        ensures
            r == self.num_iterations,
    {
        self.num_iterations
    }

    /// Adds a particle, handing back its handle.
    pub fn add_particle(&mut self, particle: Particle) -> (h: ParticleHandle)
        requires
            old(self).wf(),
            particle.mass.raw > 0,
        ensures
            final(self).wf(),
            h.id == old(self).particles.next(),
            old(self).particles.next() < u64::MAX ==> final(self).particles.entries_seq() == old(self).particles.entries_seq().push((h.id, particle)) && final(self).particles.next()
                == old(self).particles.next() + 1,
            *final(self) == (Physics { particles: final(self).particles, ..*old(self) }),
    {
        self.particles.insert(particle)
    }

    /// Looks a particle up.
    pub fn get_particle(&self, handle: ParticleHandle) -> (r: Option<&Particle>)
        requires
            self.wf(),
        ensures
            match r {
                Some(p) => self.particles.has(handle.id) && *p == self.particles.obj(handle.id),
                None => !self.particles.has(handle.id),
            },
    {
        self.particles.get(handle)
    }

    /// Looks a particle up for mutation.  The engine stays well-formed
    /// as long as the caller leaves the mass positive.
    pub fn get_particle_mut(&mut self, handle: ParticleHandle) -> (r: Option<&mut Particle>)
        requires
            old(self).wf(),
        ensures
            r is Some <==> old(self).particles.has(handle.id),
            r matches Some(v) ==> {
                &&& *v == old(self).particles.obj(handle.id)
                &&& final(self).particles.entries_seq() == old(self).particles.entries_seq()
                    .update(
                    old(self).particles.idx(handle.id),
                    (handle.id, *final(v)),
                )
                &&& *final(self) == (Physics { particles: final(self).particles, ..*old(self) })
                &&& (final(v).mass.raw > 0 ==> final(self).wf())
            },
            r is None ==> *final(self) == *old(self),
    {
        self.particles.get_mut(handle)
    }

    /// Removes a particle.
    pub fn remove_particle(&mut self, handle: ParticleHandle) -> (r: Option<Particle>)
        requires
            old(self).wf(),
        ensures
            final(self).wf(),
            r is Some <==> old(self).particles.has(handle.id),
            !final(self).particles.has(handle.id),
            *final(self) == (Physics { particles: final(self).particles, ..*old(self) }),
    {
        let r = self.particles.remove(handle);
        proof {
            let pre = old(self).particles;
            let cur = self.particles;
            if pre.has(handle.id) {
                pre.entries_seq().remove_ensures(pre.idx(handle.id));
            }
            assert forall|i: int|
                0 <= i < cur.entries_seq().len() implies (
            #[trigger] cur.entries_seq()[i]).1.mass.raw > 0 by {
                if pre.has(handle.id) {
                    let k = pre.idx(handle.id);
                    let pi = if i < k {
                        i
                    } else {
                        i + 1
                    };
                    assert(cur.entries_seq()[i] == pre.entries_seq()[pi]);
                }
            }
        }
        r
    }

    /// Adds a spring, handing back its handle.
    pub fn add_spring(&mut self, spring: Spring) -> (h: SpringHandle)
        requires
            old(self).wf(),
        ensures
            final(self).wf(),
            h.id == old(self).springs.next(),
            old(self).springs.next() < u64::MAX ==> final(self).springs.entries_seq() == old(self).springs.entries_seq().push((h.id, spring)) && final(self).springs.next() == old(
                self,
            ).springs.next() + 1,
            final(self).springs.next() <= old(self).springs.next() + 1,
            *final(self) == (Physics { springs: final(self).springs, ..*old(self) }),
    {
        self.springs.insert(spring)
    }

    /// Looks a spring up.
    pub fn get_spring(&self, handle: SpringHandle) -> (r: Option<&Spring>)
        requires
            self.wf(),
        ensures
            match r {
                Some(s) => self.springs.has(handle.id) && *s == self.springs.obj(handle.id),
                None => !self.springs.has(handle.id),
            },
    {
        self.springs.get(handle)
    }

    /// Looks a spring up for mutation.
    pub fn get_spring_mut(&mut self, handle: SpringHandle) -> (r: Option<&mut Spring>)
        requires
            old(self).wf(),
        ensures
            r is Some <==> old(self).springs.has(handle.id),
            r matches Some(v) ==> {
                &&& *v == old(self).springs.obj(handle.id)
                &&& *final(self) == (Physics { springs: final(self).springs, ..*old(self) })
                &&& final(self).wf()
            },
            r is None ==> *final(self) == *old(self),
    {
        self.springs.get_mut(handle)
    }

    /// Removes a spring.
    pub fn remove_spring(&mut self, handle: SpringHandle) -> (r: Option<Spring>)
        requires
            old(self).wf(),
        ensures
            final(self).wf(),
            r is Some <==> old(self).springs.has(handle.id),
            !final(self).springs.has(handle.id),
            *final(self) == (Physics { springs: final(self).springs, ..*old(self) }),
    {
        self.springs.remove(handle)
    }

    /// Adds a collider, handing back its handle.
    pub fn add_collider(&mut self, collider: Collider) -> (h: ColliderHandle)
        requires
            old(self).wf(),
            collider.wf(),
        ensures
            final(self).wf(),
            h.id == old(self).colliders.next(),
            old(self).colliders.next() < u64::MAX ==> final(self).colliders.entries_seq() == old(
                self,
            ).colliders.entries_seq().push((h.id, collider)) && final(self).colliders.next()
                == old(self).colliders.next() + 1,
            final(self).colliders.next() <= old(self).colliders.next() + 1,
            *final(self) == (Physics { colliders: final(self).colliders, ..*old(self) }),
    {
        let h = self.colliders.insert(collider);
        proof {
            let pre = old(self).colliders;
            let cur = self.colliders;
            assert forall|i: int|
                0 <= i < cur.entries_seq().len() implies (
            #[trigger] cur.entries_seq()[i]).1.wf() by {
                if pre.next() < u64::MAX && i == cur.entries_seq().len() - 1 {
                } else {
                    assert(cur.entries_seq()[i] == pre.entries_seq()[i]);
                }
            }
        }
        h
    }

    /// Looks a collider up.
    pub fn get_collider(&self, handle: ColliderHandle) -> (r: Option<&Collider>)
        requires
            self.wf(),
        ensures
            match r {
                Some(c) => self.colliders.has(handle.id) && *c == self.colliders.obj(handle.id),
                None => !self.colliders.has(handle.id),
            },
    {
        self.colliders.get(handle)
    }

    /// Removes a collider.
    pub fn remove_collider(&mut self, handle: ColliderHandle) -> (r: Option<Collider>)
        requires
            old(self).wf(),
        ensures
            final(self).wf(),
            r is Some <==> old(self).colliders.has(handle.id),
            !final(self).colliders.has(handle.id),
            *final(self) == (Physics { colliders: final(self).colliders, ..*old(self) }),
    {
        let r = self.colliders.remove(handle);
        proof {
            let pre = old(self).colliders;
            let cur = self.colliders;
            if pre.has(handle.id) {
                pre.entries_seq().remove_ensures(pre.idx(handle.id));
            }
            assert forall|i: int|
                0 <= i < cur.entries_seq().len() implies (
            #[trigger] cur.entries_seq()[i]).1.wf() by {
                if pre.has(handle.id) {
                    let k = pre.idx(handle.id);
                    let pi = if i < k {
                        i
                    } else {
                        i + 1
                    };
                    assert(cur.entries_seq()[i] == pre.entries_seq()[pi]);
                }
            }
        }
        r
    }

    /// The contacts of the most recent update.
    pub fn contacts(&self) -> (r: &Vec<Contact>)
        ensures
            *r == self.contacts,
    {
        &self.contacts
    }

    /// One Verlet step of a single particle.
    fn integrate_particle(p: Particle, gravity: V2, half_drag: Scalar, dt: Scalar) -> (r:
        Particle)
        requires
            p.mass.raw > 0,
        ensures
            r == integrate_spec(p, gravity, half_drag.raw as int, dt.raw as int),
    {
        let velocity = p.position.minus(p.previous);
        let drag_acc = if velocity.is_zero() {
            V2::zeros()
        } else {
            let m = velocity.magnitude();
            proof {
                lemma_fmag_zero(velocity.x.raw as int, velocity.y.raw as int);
            }
            let coef = half_drag.times(m).times(m);
            let unit = V2::new(velocity.x.over(m), velocity.y.over(m));
            V2::new(unit.x.times(coef).over(p.mass), unit.y.times(coef).over(p.mass))
        };
        let accel = p.acceleration.plus(gravity.minus(drag_acc));
        let shift = velocity.plus(accel.scale(dt).scale(dt));
        Particle {
            previous: p.position,
            position: p.position.plus(shift),
            acceleration: V2::zeros(),
            ..p
        }
    }

    /// Both wall checks of a single particle.
    fn boundary_particle(p: Particle, world: V2, restitution: Scalar, friction: Scalar) -> (r:
        Particle)
        ensures
            r == boundary_spec(p, world, restitution.raw as int, friction.raw as int),
    {
        let two = Scalar { raw: 2 * SCALE };
        let velocity = p.position.minus(p.previous);
        let mut q = p;
        if q.position.x.gt(world.x.minus(q.radius)) {
            let nx = two.times(world.x.minus(q.radius)).minus(q.position.x);
            q.position.x = nx;
            q.previous.x = nx.plus(restitution.times(velocity.x));
            q = Physics::friction_x(q, friction);
        } else if q.position.x.lt(q.radius) {
            let nx = two.times(q.radius).minus(q.position.x);
            q.position.x = nx;
            q.previous.x = nx.plus(restitution.times(velocity.x));
            q = Physics::friction_x(q, friction);
        }
        if q.position.y.gt(world.y.minus(q.radius)) {
            let ny = two.times(world.y.minus(q.radius)).minus(q.position.y);
            q.position.y = ny;
            q.previous.y = ny.plus(restitution.times(velocity.y));
            q = Physics::friction_y(q, friction);
        } else if q.position.y.lt(q.radius) {
            let ny = two.times(q.radius).minus(q.position.y);
            q.position.y = ny;
            q.previous.y = ny.plus(restitution.times(velocity.y));
            q = Physics::friction_y(q, friction);
        }
        q
    }

    /// Tangential damping after an x-wall bounce.
    fn friction_x(p: Particle, friction: Scalar) -> (r: Particle)
        ensures
            r == friction_x_spec(p, friction.raw as int),
    {
        let v = p.position.minus(p.previous);
        let nvy = v.y.times(Scalar::one().minus(friction));
        Particle { previous: p.position.minus(V2::new(v.x, nvy)), ..p }
    }

    /// Tangential damping after a y-wall bounce.
    fn friction_y(p: Particle, friction: Scalar) -> (r: Particle)
        ensures
            r == friction_y_spec(p, friction.raw as int),
    {
        let v = p.position.minus(p.previous);
        let nvx = v.x.times(Scalar::one().minus(friction));
        Particle { previous: p.position.minus(V2::new(nvx, v.y)), ..p }
    }

    /// One spring relaxation over a particle pair.
    fn spring_kernel(p1: Particle, p2: Particle, s: Spring) -> (r: (Particle, Particle))
        ensures
            r == spring_step(p1, p2, s.length.raw as int, s.strength.raw as int),
    {
        let axis = p2.position.minus(p1.position);
        let distance = axis.magnitude();
        let total = p1.mass.plus(p2.mass);
        let denom = distance.times(total);
        if denom.raw == 0 {
            (p1, p2)
        } else {
            let half = Scalar { raw: HALF_RAW };
            let displacement = distance.minus(s.length);
            let factor = half.times(s.strength).times(displacement).over(denom);
            let d1 = axis.scale(half).scale(factor).scale(p2.mass);
            let d2 = axis.scale(half).scale(factor).scale(p1.mass);
            (
                Particle { position: p1.position.plus(d1), ..p1 },
                Particle { position: p2.position.minus(d2), ..p2 },
            )
        }
    }

    /// Integrates every particle by one sub-step.
    fn update_particles(&mut self, dt: Scalar)
        requires
            old(self).wf(),
        ensures
            final(self).wf(),
            *final(self) == (Physics { particles: final(self).particles, ..*old(self) }),
            final(self).particles.entries_seq().len() == old(self).particles.entries_seq().len(),
            final(self).particles.next() == old(self).particles.next(),
            forall|i: int|
                0 <= i < old(self).particles.entries_seq().len() ==> (#[trigger] final(self).particles.entries_seq()[i]) == (
                old(self).particles.entries_seq()[i].0,
                integrate_spec(
                    old(self).particles.entries_seq()[i].1,
                    old(self).gravity,
                    fmul(HALF_RAW as int, old(self).drag.raw as int),
                    dt.raw as int,
                ),
                ),
    {
        let half_drag = Scalar { raw: HALF_RAW }.times(self.drag);
        let n = self.particles.len();
        let mut i: usize = 0;
        while i < n
            invariant
                old(self).wf(),
                n == old(self).particles.entries_seq().len(),
                i <= n,
                self.particles.wf(),
                self.particles.entries_seq().len() == n,
                self.particles.next() == old(self).particles.next(),
                *self == (Physics { particles: self.particles, ..*old(self) }),
                half_drag.raw == fmul(HALF_RAW as int, old(self).drag.raw as int),
                forall|k: int|
                    0 <= k < i ==> (#[trigger] self.particles.entries_seq()[k]) == (
                    old(self).particles.entries_seq()[k].0,
                    integrate_spec(
                        old(self).particles.entries_seq()[k].1,
                        old(self).gravity,
                        fmul(HALF_RAW as int, old(self).drag.raw as int),
                        dt.raw as int,
                    ),
                    ),
                forall|k: int|
                    i <= k < n ==> (#[trigger] self.particles.entries_seq()[k]) == old(self).particles.entries_seq()[k],
            decreases n - i,
        {
            let p = *self.particles.nth(i);
            proof {
                let k = i as int;
                assert(self.particles.entries_seq()[k] == old(self).particles.entries_seq()[k]);
                assert(old(self).particles.entries_seq()[i as int].1.mass.raw > 0);
            }
            let q = Physics::integrate_particle(p, self.gravity, half_drag, dt);
            self.particles.set_nth(i, q);
            i = i + 1;
        }
    }

    /// Applies the world boundaries to every particle.
    fn apply_world_boundaries(&mut self)
        requires
            old(self).wf(),
        ensures
            final(self).wf(),
            *final(self) == (Physics { particles: final(self).particles, ..*old(self) }),
            final(self).particles.entries_seq().len() == old(self).particles.entries_seq().len(),
            final(self).particles.next() == old(self).particles.next(),
            forall|i: int|
                0 <= i < old(self).particles.entries_seq().len() ==> (#[trigger] final(self).particles.entries_seq()[i]) == (
                old(self).particles.entries_seq()[i].0,
                boundary_spec(
                    old(self).particles.entries_seq()[i].1,
                    old(self).world_size,
                    old(self).restitution.raw as int,
                    old(self).friction.raw as int,
                ),
                ),
    {
        let n = self.particles.len();
        let mut i: usize = 0;
        while i < n
            invariant
                old(self).wf(),
                n == old(self).particles.entries_seq().len(),
                i <= n,
                self.particles.wf(),
                self.particles.entries_seq().len() == n,
                self.particles.next() == old(self).particles.next(),
                *self == (Physics { particles: self.particles, ..*old(self) }),
                forall|k: int|
                    0 <= k < i ==> (#[trigger] self.particles.entries_seq()[k]) == (
                    old(self).particles.entries_seq()[k].0,
                    boundary_spec(
                        old(self).particles.entries_seq()[k].1,
                        old(self).world_size,
                        old(self).restitution.raw as int,
                        old(self).friction.raw as int,
                    ),
                    ),
                forall|k: int|
                    i <= k < n ==> (#[trigger] self.particles.entries_seq()[k]) == old(self).particles.entries_seq()[k],
            decreases n - i,
        {
            let p = *self.particles.nth(i);
            let q = Physics::boundary_particle(p, self.world_size, self.restitution,
                self.friction);
            self.particles.set_nth(i, q);
            i = i + 1;
        }
    }

    /// Relaxes every spring once, in spring insertion order.
    fn apply_springs(&mut self)
        requires
            old(self).wf(),
        ensures
            final(self).wf(),
            *final(self) == (Physics { particles: final(self).particles, ..*old(self) }),
            skeleton_same(old(self).particles, final(self).particles),
            old(self).springs.entries_seq().len() == 0 ==> final(self).particles == old(
                self,
            ).particles,
    {
        let n = self.springs.len();
        let mut j: usize = 0;
        while j < n
            invariant
                old(self).wf(),
                n == self.springs.entries_seq().len(),
                j <= n,
                Physics::particles_ok(self.particles),
                *self == (Physics { particles: self.particles, ..*old(self) }),
                skeleton_same(old(self).particles, self.particles),
                n == 0 ==> self.particles == old(self).particles,
            decreases n - j,
        {
            let s = *self.springs.nth(j);
            if !s.particle1.same(&s.particle2) {
                let pair = match self.particles.get_pair(s.particle1, s.particle2) {
                    Some((p1, p2)) => Some((*p1, *p2)),
                    None => None,
                };
                match pair {
                    Some((p1, p2)) => {
                        let (q1, q2) = Physics::spring_kernel(p1, p2, s);
                        let ghost pre = self.particles;
                        self.particles.set_pair(s.particle1, s.particle2, q1, q2);
                        proof {
                            assert forall|i: int|
                                0 <= i < self.particles.entries_seq().len() implies (
                            #[trigger] self.particles.entries_seq()[i]).1.mass.raw > 0 && (
                            self.particles.entries_seq()[i]).0 == pre.entries_seq()[i].0 && (
                            self.particles.entries_seq()[i]).1.mass == pre.entries_seq()[i].1.mass
                                && (self.particles.entries_seq()[i]).1.radius
                                == pre.entries_seq()[i].1.radius by {
                                let k1 = pre.idx(s.particle1.id);
                                let k2 = pre.idx(s.particle2.id);
                                if i == k2 {
                                } else if i == k1 {
                                } else {
                                }
                            }
                        }
                    },
                    None => {
                    },
                }
            }
            j = j + 1;
        }
    }

    /// The inverse mass the resolver sees for a handle: the reciprocal
    /// of the particle's mass, or zero when the handle does not resolve.
    pub open spec fn inv_mass_spec(ps: ObjectSet<Particle>, id: u64) -> int {
        if ps.has(id) {
            fdiv(sc(), ps.obj(id).mass.raw as int)
        } else {
            0
        }
    }

    /// A collision record correctly describing vertex `k` of the
    /// collider at `ia` caught inside the polygon of the collider at
    /// `ib`, against that polygon's minimum-depth eligible segment.
    pub open spec fn vertex_hit(pre: Physics, ia: int, ib: int, k: int, c: PointInPolygon) -> bool {
        let a = pre.colliders.entries_seq()[ia].1.poly();
        let b = pre.colliders.entries_seq()[ib].1.poly();
        let nb = b.polygon.points_seq().len() as int;
        &&& 0 <= k < a.live_handles@.len()
        &&& c.particle_handle.id == a.live_handles@[k].id
        &&& c.particle_point == a.polygon.points_seq()[k]
        &&& crate::polygon::point_inside(b.polygon.points_seq(), c.particle_point)
        &&& exists|j: int|
            0 <= j < nb && c.segment_handle1.id == (#[trigger] b.live_handles@[j]).id
                && c.segment_handle2.id == b.live_handles@[(j + 1) % nb].id && c.segment_point1
                == b.polygon.points_seq()[j] && c.segment_point2 == b.polygon.points_seq()[(j + 1)
                % nb] && b.polygon.edge_eligible(a.polygon.bounding_box, c.particle_point, j)
                && c.depth.raw == b.polygon.edge_depth(c.particle_point, j) && (forall|e: int|
                0 <= e < nb && b.polygon.edge_eligible(a.polygon.bounding_box, c.particle_point, e)
                    ==> c.depth.raw <= #[trigger] b.polygon.edge_depth(c.particle_point, e))
    }

    /// Resolves the vertices of the collider at position `ia` against
    /// the polygon of the collider at position `ib`: each vertex found
    /// inside the foreign polygon moves out along the outward normal of
    /// its closest eligible segment by its inverse-mass share of the
    /// penetration depth, and a contact is recorded.
    #[verifier::rlimit(100)]
    #[verifier::spinoff_prover]
    fn resolve_direction(
        &mut self,
        ia: usize,
        ib: usize,
        resolver: &CollisionResolver,
        rng: &mut RandomSource,
    )
        requires
            old(self).wf(),
            ia < old(self).colliders.entries_seq().len(),
            ib < old(self).colliders.entries_seq().len(),
        ensures
            final(self).wf(),
            *final(self) == (Physics {
                particles: final(self).particles,
                contacts: final(self).contacts,
                ..*old(self)
            }),
            skeleton_same(old(self).particles, final(self).particles),
    {
        let na = self.colliders.nth(ia).as_polygon().live_handles.len();
        let mut k: usize = 0;
        while k < na
            invariant
                old(self).wf(),
                ia < old(self).colliders.entries_seq().len(),
                ib < old(self).colliders.entries_seq().len(),
                na == old(self).colliders.entries_seq()[ia as int].1.poly().live_handles@.len(),
                k <= na,
                Physics::particles_ok(self.particles),
                skeleton_same(old(self).particles, self.particles),
                *self == (Physics {
                    particles: self.particles,
                    contacts: self.contacts,
                    ..*old(self)
                }),
            decreases na - k,
        {
            let ghost at_entry = *self;
            self.resolve_vertex(ia, ib, k, resolver, rng);
            k = k + 1;
        }
    }

    /// Resolves one vertex of collider `ia` against collider `ib`.
    #[verifier::rlimit(100)]
    #[verifier::spinoff_prover]
    fn resolve_vertex(
        &mut self,
        ia: usize,
        ib: usize,
        k: usize,
        resolver: &CollisionResolver,
        rng: &mut RandomSource,
    )
        requires
            Physics::particles_ok(old(self).particles),
            old(self).colliders.wf(),
            ia < old(self).colliders.entries_seq().len(),
            ib < old(self).colliders.entries_seq().len(),
            forall|i: int|
                0 <= i < old(self).colliders.entries_seq().len() ==> (
                #[trigger] old(self).colliders.entries_seq()[i]).1.wf(),
            k < old(self).colliders.entries_seq()[ia as int].1.poly().live_handles@.len(),
        ensures
            Physics::particles_ok(final(self).particles),
            *final(self) == (Physics {
                particles: final(self).particles,
                contacts: final(self).contacts,
                ..*old(self)
            }),
            skeleton_same(old(self).particles, final(self).particles),
            final(self).contacts@.len() >= old(self).contacts@.len(),
            final(self).contacts@.len() <= old(self).contacts@.len() + 1,
            forall|i: int|
                0 <= i < old(self).contacts@.len() ==> #[trigger] final(self).contacts@[i] == old(
                    self,
                ).contacts@[i],
            // no contact appended means nothing moved
            final(self).contacts@.len() == old(self).contacts@.len() ==> final(self).particles
                == old(self).particles,
            // one contact appended: some correctly found collision was
            // resolved, the vertex moved to its resolved point, all
            // other particles untouched, the contact carries its normal
            final(self).contacts@.len() == old(self).contacts@.len() + 1 ==> (exists|
                c: PointInPolygon,
            |
                {
                    let i0 = Physics::inv_mass_spec(old(self).particles, c.particle_handle.id);
                    let i1 = Physics::inv_mass_spec(old(self).particles, c.segment_handle1.id);
                    let i2 = Physics::inv_mass_spec(old(self).particles, c.segment_handle2.id);
                    &&& #[trigger] Physics::vertex_hit(*old(self), ia as int, ib as int, k as int, c)
                    &&& final(self).contacts@.last() == (Contact {
                        particle: c.particle_handle,
                        segment_particle1: c.segment_handle1,
                        segment_particle2: c.segment_handle2,
                        normal: crate::resolver::resolved_normal(c, i0, i1, i2),
                    })
                    &&& old(self).particles.has(c.particle_handle.id) ==> final(self).particles.entries_seq() == old(self).particles.entries_seq().update(
                        old(self).particles.idx(c.particle_handle.id),
                        (
                            c.particle_handle.id,
                            Particle {
                                position: crate::resolver::resolved_point(c, i0, i1, i2),
                                ..old(self).particles.obj(c.particle_handle.id)
                            },
                        ),
                    )
                    &&& !old(self).particles.has(c.particle_handle.id) ==> final(self).particles == old(self).particles
                }),
    {
        proof {
            assert(old(self).colliders.entries_seq()[ia as int].1.wf());
            assert(old(self).colliders.entries_seq()[ib as int].1.wf());
        }
        let (h, point, abox) = {
            let a = self.colliders.nth(ia).as_polygon();
            (a.live_handles[k], a.polygon.point_at(k), *a.polygon.bounding_box())
        };
        let inside = {
            let b = self.colliders.nth(ib).as_polygon();
            b.polygon.has_point_inside(point)
        };
        if inside {
            let seg_opt = {
                let b = self.colliders.nth(ib).as_polygon();
                b.polygon.closest_segment_within_bounding_box(point, &abox, rng)
            };
            match seg_opt {
                Some(seg) => {
                    let (h1, h2) = {
                        let b = self.colliders.nth(ib).as_polygon();
                        (b.live_handles[seg.index1], b.live_handles[seg.index2])
                    };
                    let inv0 = self.inv_mass_of(h);
                    let inv1 = self.inv_mass_of(h1);
                    let inv2 = self.inv_mass_of(h2);
                    let c = PointInPolygon {
                        particle_handle: h,
                        particle_point: point,
                        segment_handle1: h1,
                        segment_handle2: h2,
                        segment_point1: seg.point1,
                        segment_point2: seg.point2,
                        ratio: seg.ratio,
                        depth: seg.depth,
                    };
                    let (newpos, normal) = resolver.resolve_point_in_polygon(
                        &c,
                        inv0,
                        inv1,
                        inv2,
                    );
                    let ghost pre = self.particles;
                    match self.particles.get_mut(h) {
                        Some(p) => {
                            p.position = newpos;
                        },
                        None => {
                        },
                    }
                    proof {
                        if pre.has(h.id) {
                            let kk = pre.idx(h.id);
                            assert forall|i: int|
                                0 <= i < self.particles.entries_seq().len() implies (
                            #[trigger] self.particles.entries_seq()[i]).1.mass.raw > 0 && (
                            self.particles.entries_seq()[i]).0 == pre.entries_seq()[i].0 && (
                            self.particles.entries_seq()[i]).1.mass
                                == pre.entries_seq()[i].1.mass && (
                            self.particles.entries_seq()[i]).1.radius
                                == pre.entries_seq()[i].1.radius by {
                                if i != kk {
                                    assert(self.particles.entries_seq()[i]
                                        == pre.entries_seq()[i]);
                                }
                            }
                        }
                    }
                    self.contacts.push(
                        Contact {
                            particle: h,
                            segment_particle1: h1,
                            segment_particle2: h2,
                            normal,
                        },
                    );
                    proof {
                        assert(inv0.raw as int == Physics::inv_mass_spec(
                            old(self).particles,
                            c.particle_handle.id,
                        ));
                        assert(inv1.raw as int == Physics::inv_mass_spec(
                            old(self).particles,
                            c.segment_handle1.id,
                        ));
                        assert(inv2.raw as int == Physics::inv_mass_spec(
                            old(self).particles,
                            c.segment_handle2.id,
                        ));
                        assert(Physics::vertex_hit(
                            *old(self),
                            ia as int,
                            ib as int,
                            k as int,
                            c,
                        )) by {
                            let bp = old(self).colliders.entries_seq()[ib as int].1.poly();
                            assert((seg.index1 as int) < bp.polygon.points_seq().len() as int);
                        }
                    }
                },
                None => {
                },
            }
        }
    }

    /// The inverse mass of the particle a handle names, or zero when
    /// the handle no longer resolves.
    fn inv_mass_of(&self, h: ParticleHandle) -> (r: Scalar)
        requires
            Physics::particles_ok(self.particles),
        ensures
            self.particles.has(h.id) ==> r.raw == fdiv(
                sc(),
                self.particles.obj(h.id).mass.raw as int,
            ),
            !self.particles.has(h.id) ==> r.raw == 0,
    {
        match self.particles.get(h) {
            Some(p) => {
                proof {
                    let i = self.particles.idx(h.id);
                    assert(self.particles.entries_seq()[i].1.mass.raw > 0);
                }
                p.inv_mass()
            },
            None => Scalar { raw: 0 },
        }
    }

    /// Detects and resolves all polygon collisions of one sub-step:
    /// every collider cache is rebuilt, then every collider pair whose
    /// boxes overlap is resolved in both directions.
    fn resolve_collisions(&mut self, rng: &mut RandomSource)
        requires
            old(self).wf(),
        ensures
            final(self).wf(),
            *final(self) == (Physics {
                particles: final(self).particles,
                colliders: final(self).colliders,
                contacts: final(self).contacts,
                ..*old(self)
            }),
            skeleton_same(old(self).particles, final(self).particles),
            final(self).colliders.entries_seq().len() == old(self).colliders.entries_seq().len(),
            final(self).colliders.next() == old(self).colliders.next(),
            forall|i: int|
                0 <= i < old(self).colliders.entries_seq().len() ==> (#[trigger] final(self).colliders.entries_seq()[i]).0 == old(self).colliders.entries_seq()[i].0,
            old(self).colliders.entries_seq().len() == 0 ==> final(self).particles == old(
                self,
            ).particles && final(self).contacts@.len() == 0,
    {
        self.contacts.clear();
        let resolver = CollisionResolver::new();
        let n = self.colliders.len();
        let mut i: usize = 0;
        while i < n
            invariant
                old(self).wf(),
                n == old(self).colliders.entries_seq().len(),
                i <= n,
                self.colliders.wf(),
                self.colliders.entries_seq().len() == n,
                self.colliders.next() == old(self).colliders.next(),
                *self == (Physics { colliders: self.colliders, contacts: self.contacts, ..*old(self) }),
                self.contacts@.len() == 0,
                forall|j: int|
                    0 <= j < n ==> (#[trigger] self.colliders.entries_seq()[j]).0 == old(self).colliders.entries_seq()[j].0 && self.colliders.entries_seq()[j].1.wf(),
            decreases n - i,
        {
            let ghost pre = self.colliders;
            proof {
                assert(self.colliders.entries_seq()[i as int].1.wf());
            }
            let c = self.colliders.nth_mut(i);
            c.update_cache(&self.particles);
            proof {
                assert forall|j: int|
                    0 <= j < n implies (#[trigger] self.colliders.entries_seq()[j]).0 == old(self).colliders.entries_seq()[j].0 && self.colliders.entries_seq()[j].1.wf() by {
                    if j != i as int {
                        assert(self.colliders.entries_seq()[j] == pre.entries_seq()[j]);
                    }
                }
            }
            i = i + 1;
        }
        let ghost mid = *self;
        proof {
            if n == 0 {
                assert(mid.particles == old(self).particles);
                assert(mid.contacts@.len() == 0);
            }
        }
        let mut i1: usize = 0;
        while i1 < n
            invariant
                mid.wf(),
                n == mid.colliders.entries_seq().len(),
                i1 <= n,
                Physics::particles_ok(self.particles),
                skeleton_same(mid.particles, self.particles),
                *self == (Physics { particles: self.particles, contacts: self.contacts, ..mid }),
                n == 0 ==> self.particles == old(self).particles && self.contacts@.len() == 0,
            decreases n - i1,
        {
            let mut i2: usize = i1 + 1;
            while i2 < n
                invariant
                    mid.wf(),
                    n == mid.colliders.entries_seq().len(),
                    i1 < n,
                    i1 < i2 <= n,
                    Physics::particles_ok(self.particles),
                    skeleton_same(mid.particles, self.particles),
                    *self == (Physics {
                        particles: self.particles,
                        contacts: self.contacts,
                        ..mid
                    }),
                decreases n - i2,
            {
                let hit = {
                    let a = self.colliders.nth(i1);
                    let b = self.colliders.nth(i2);
                    a.intersects(b)
                };
                if hit {
                    self.resolve_direction(i1, i2, &resolver, rng);
                    self.resolve_direction(i2, i1, &resolver, rng);
                }
                i2 = i2 + 1;
            }
            i1 = i1 + 1;
        }
    }

    /// Advances the world by one full step: the configured number of
    /// sub-steps, each integrating the particles, applying the world
    /// boundaries, relaxing the springs and resolving collisions, in
    /// that order; then the clock moves by the step time.
    pub fn update(&mut self, rng: &mut RandomSource)
        requires
            old(self).wf(),
        ensures
            final(self).wf(),
            final(self).time.raw == fadd(old(self).time.raw as int, old(self).step_time.raw as int),
            skeleton_same(old(self).particles, final(self).particles),
            final(self).springs == old(self).springs,
            final(self).world_size == old(self).world_size,
            final(self).step_time == old(self).step_time,
            final(self).num_iterations == old(self).num_iterations,
            final(self).gravity == old(self).gravity,
            final(self).drag == old(self).drag,
            final(self).restitution == old(self).restitution,
            final(self).friction == old(self).friction,
            final(self).colliders.entries_seq().len() == old(self).colliders.entries_seq().len(),
            final(self).colliders.next() == old(self).colliders.next(),
            forall|i: int|
                0 <= i < old(self).colliders.entries_seq().len() ==> (#[trigger] final(self).colliders.entries_seq()[i]).0 == old(self).colliders.entries_seq()[i].0,
            physics_update_rel(*old(self), *final(self)),
            // with nothing to couple the particles, the update is exactly
            // the composed integrate-and-bounce kernels, sub-step by sub-step
            (old(self).springs.entries_seq().len() == 0 && old(self).colliders.entries_seq().len()
                == 0) ==> forall|i: int|
                0 <= i < old(self).particles.entries_seq().len() ==> (#[trigger] final(self).particles.entries_seq()[i]) == (
                old(self).particles.entries_seq()[i].0,
                free_particle_steps(
                    old(self).particles.entries_seq()[i].1,
                    old(self).gravity,
                    fmul(HALF_RAW as int, old(self).drag.raw as int),
                    old(self).world_size,
                    old(self).restitution.raw as int,
                    old(self).friction.raw as int,
                    crate::scalar::fdiv_int(
                        old(self).step_time.raw as int,
                        old(self).num_iterations as int,
                    ),
                    old(self).num_iterations as nat,
                ),
                ),
    {
        let iterations = self.num_iterations;
        let dt = self.step_time.over_int(iterations as i64);
        let mut it: usize = 0;
        while it < iterations
            invariant
                self.wf(),
                it <= iterations,
                iterations == old(self).num_iterations,
                skeleton_same(old(self).particles, self.particles),
                self.time == old(self).time,
                self.springs == old(self).springs,
                self.world_size == old(self).world_size,
                self.step_time == old(self).step_time,
                self.num_iterations == old(self).num_iterations,
                self.gravity == old(self).gravity,
                self.drag == old(self).drag,
                self.restitution == old(self).restitution,
                self.friction == old(self).friction,
                self.colliders.entries_seq().len() == old(self).colliders.entries_seq().len(),
                self.colliders.next() == old(self).colliders.next(),
                forall|i: int|
                    0 <= i < old(self).colliders.entries_seq().len() ==> (#[trigger] self.colliders.entries_seq()[i]).0 == old(self).colliders.entries_seq()[i].0,
                dt.raw == crate::scalar::fdiv_int(
                    old(self).step_time.raw as int,
                    old(self).num_iterations as int,
                ),
                (old(self).springs.entries_seq().len() == 0
                    && old(self).colliders.entries_seq().len() == 0) ==> forall|i: int|
                    0 <= i < old(self).particles.entries_seq().len() ==> (
                    #[trigger] self.particles.entries_seq()[i]) == (
                    old(self).particles.entries_seq()[i].0,
                    free_particle_steps(
                        old(self).particles.entries_seq()[i].1,
                        old(self).gravity,
                        fmul(HALF_RAW as int, old(self).drag.raw as int),
                        old(self).world_size,
                        old(self).restitution.raw as int,
                        old(self).friction.raw as int,
                        dt.raw as int,
                        it as nat,
                    ),
                    ),
            decreases iterations - it,
        {
            let ghost at_entry = *self;
            self.update_particles(dt);
            proof {
                assert(skeleton_same(at_entry.particles, self.particles));
            }
            let ghost s1 = *self;
            self.apply_world_boundaries();
            proof {
                assert(skeleton_same(s1.particles, self.particles));
            }
            let ghost s2 = *self;
            self.apply_springs();
            let ghost s3 = *self;
            self.resolve_collisions(rng);
            proof {
                if old(self).springs.entries_seq().len() == 0 && old(
                    self,
                ).colliders.entries_seq().len() == 0 {
                    let g = old(self).gravity;
                    let hd = fmul(HALF_RAW as int, old(self).drag.raw as int);
                    let w = old(self).world_size;
                    let re = old(self).restitution.raw as int;
                    let fr = old(self).friction.raw as int;
                    let dti = dt.raw as int;
                    assert forall|i: int|
                        0 <= i < old(self).particles.entries_seq().len() implies (
                    #[trigger] self.particles.entries_seq()[i]) == (
                    old(self).particles.entries_seq()[i].0,
                    free_particle_steps(
                        old(self).particles.entries_seq()[i].1,
                        g,
                        hd,
                        w,
                        re,
                        fr,
                        dti,
                        (it + 1) as nat,
                    ),
                    ) by {
                        let before = free_particle_steps(
                            old(self).particles.entries_seq()[i].1,
                            g,
                            hd,
                            w,
                            re,
                            fr,
                            dti,
                            it as nat,
                        );
                        assert(at_entry.particles.entries_seq()[i] == (
                            old(self).particles.entries_seq()[i].0,
                            before,
                        ));
                        assert(s1.particles.entries_seq()[i] == (
                            old(self).particles.entries_seq()[i].0,
                            integrate_spec(before, g, hd, dti),
                        ));
                        assert(s2.particles.entries_seq()[i] == (
                            old(self).particles.entries_seq()[i].0,
                            boundary_spec(integrate_spec(before, g, hd, dti), w, re, fr),
                        ));
                        assert(s3.particles == s2.particles);
                        assert(self.particles == s3.particles);
                    }
                }
            }
            it = it + 1;
        }
        self.time = self.time.plus(self.step_time);
    }
}

} // verus!
