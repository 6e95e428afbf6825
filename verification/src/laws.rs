//! Conservation and fixed-point laws of the engine's kernels.
//!
//! Each proof here states a behavioural guarantee of the physics and
//! cell kernels over the spec functions their contracts use.

use vstd::prelude::*;

verus! {

use crate::cell::{Cell, ALIVE_THRESHOLD_RAW};
use crate::engine::{
    boundary_spec, free_particle_step, free_particle_steps, integrate_spec, spring_step, HALF_RAW,
};
use crate::particle::Particle;
use crate::scalar::{fadd, fdiv, fmul, fsub, sc, tdiv, Scalar};
use crate::vec2::{fmag, lemma_fmag_zero, V2};
use vstd::arithmetic::div_mod::{lemma_div_multiples_vanish, lemma_div_pos_is_pos};

/// Exactly doubling a raw value through the fixed-point product with
/// two is the plain double.
proof fn lemma_fmul_double(a: int)
    requires
        i64::MIN as int <= 2 * a <= i64::MAX as int,
    ensures
        fmul(2 * sc(), a) == 2 * a,
{
    if a >= 0 {
        assert(2 * sc() * a == sc() * (2 * a)) by (nonlinear_arith);
        lemma_div_multiples_vanish(2 * a, sc());
    } else {
        assert(2 * sc() * a == sc() * (2 * a)) by (nonlinear_arith);
        assert(-(2 * sc() * a) == sc() * (-(2 * a))) by (nonlinear_arith);
        lemma_div_multiples_vanish(-(2 * a), sc());
        assert(tdiv(2 * sc() * a, sc()) == -(sc() * (-(2 * a)) / sc()));
    }
}

/// The fixed-point product with zero is zero.
proof fn lemma_fmul_zero_left(b: int)
    ensures
        fmul(0, b) == 0,
        fmul(b, 0) == 0,
{
    assert(0 * b == 0) by (nonlinear_arith);
    assert(b * 0 == 0) by (nonlinear_arith);
    assert(tdiv(0, sc()) == 0);
}

/// The fixed-point quotient of zero is zero.
proof fn lemma_fdiv_zero(b: int)
    requires
        b != 0,
    ensures
        fdiv(0, b) == 0,
{
    assert(0 * sc() == 0) by (nonlinear_arith);
    assert(tdiv(0, b) == 0);
}

/// Particle energy conservation: with no gravity, no drag and no
/// pending acceleration, one integration step carries the velocity over
/// unchanged, so `position - previous` after the step equals
/// `position - previous` before it.  The positions must stay inside the
/// representable range, so that no saturation interferes.
pub proof fn lemma_integrate_conserves_velocity(p: Particle, dt: int)
    requires
        p.mass.raw > 0,
        p.acceleration.x.raw == 0,
        p.acceleration.y.raw == 0,
        i64::MIN as int <= p.position.x.raw - p.previous.x.raw <= i64::MAX as int,
        i64::MIN as int <= p.position.y.raw - p.previous.y.raw <= i64::MAX as int,
        i64::MIN as int <= p.position.x.raw + (p.position.x.raw - p.previous.x.raw)
            <= i64::MAX as int,
        i64::MIN as int <= p.position.y.raw + (p.position.y.raw - p.previous.y.raw)
            <= i64::MAX as int,
    ensures
        ({
            let q = integrate_spec(
                p,
                V2 { x: Scalar { raw: 0 }, y: Scalar { raw: 0 } },
                0,
                dt,
            );
            &&& fsub(q.position.x.raw as int, q.previous.x.raw as int) == fsub(
                p.position.x.raw as int,
                p.previous.x.raw as int,
            )
            &&& fsub(q.position.y.raw as int, q.previous.y.raw as int) == fsub(
                p.position.y.raw as int,
                p.previous.y.raw as int,
            )
        }),
{
    let vx = fsub(p.position.x.raw as int, p.previous.x.raw as int);
    let vy = fsub(p.position.y.raw as int, p.previous.y.raw as int);
    if !(vx == 0 && vy == 0) {
        let m = fmag(vx, vy);
        lemma_fmul_zero_left(m);
        assert(fmul(fmul(0, m), m) == 0) by {
            lemma_fmul_zero_left(m);
        }
        lemma_fmul_zero_left(fdiv(vx, m));
        lemma_fmul_zero_left(fdiv(vy, m));
        lemma_fdiv_zero(p.mass.raw as int);
    }
    assert(fmul(fmul(0, dt), dt) == 0) by {
        lemma_fmul_zero_left(dt);
        lemma_fmul_zero_left(dt);
    }
}

/// Spring relaxation fixed point: two particles joined by a spring
/// whose current distance equals its rest length are left exactly in
/// place by one relaxation.
pub proof fn lemma_spring_fixed_point(p1: Particle, p2: Particle, len: int, strength: int)
    requires
        p1.mass.raw > 0,
        p2.mass.raw > 0,
        fmag(
            fsub(p2.position.x.raw as int, p1.position.x.raw as int),
            fsub(p2.position.y.raw as int, p1.position.y.raw as int),
        ) == len,
    ensures
        spring_step(p1, p2, len, strength) == (p1, p2),
{
    let ax = fsub(p2.position.x.raw as int, p1.position.x.raw as int);
    let ay = fsub(p2.position.y.raw as int, p1.position.y.raw as int);
    let distance = fmag(ax, ay);
    let total = fadd(p1.mass.raw as int, p2.mass.raw as int);
    let denom = fmul(distance, total);
    if denom != 0 {
        let displacement = fsub(distance, len);
        assert(displacement == 0);
        lemma_fmul_zero_left(fmul(HALF_RAW as int, strength));
        assert(fdiv(0, denom) == 0) by {
            lemma_fdiv_zero(denom);
        }
        let factor = fdiv(fmul(fmul(HALF_RAW as int, strength), displacement), denom);
        assert(factor == 0);
        lemma_fmul_zero_left(fmul(ax, HALF_RAW as int));
        lemma_fmul_zero_left(fmul(ay, HALF_RAW as int));
        lemma_fmul_zero_left(p1.mass.raw as int);
        lemma_fmul_zero_left(p2.mass.raw as int);
        let r = spring_step(p1, p2, len, strength);
        assert(r.0.position.x.raw == fadd(p1.position.x.raw as int, 0));
        assert(r.0 == p1);
        assert(r.1 == p2);
    }
}

/// Boundary reflection: a particle beyond the far x wall, moving purely
/// along x, comes back with its x-velocity reversed and scaled by the
/// restitution, and keeps a zero y-velocity.  The wall mirror point and
/// the scaled velocity must stay inside the representable range, so
/// that no saturation interferes.
pub proof fn lemma_boundary_reflects_velocity(
    p: Particle,
    world: V2,
    restitution: int,
    friction: int,
)
    requires
        p.position.x.raw as int > fsub(world.x.raw as int, p.radius.raw as int),
        p.radius.raw <= p.position.y.raw,
        p.position.y.raw as int <= fsub(world.y.raw as int, p.radius.raw as int),
        p.previous.y.raw == p.position.y.raw,
        i64::MIN as int <= world.x.raw - p.radius.raw <= i64::MAX as int,
        i64::MIN as int <= 2 * (world.x.raw - p.radius.raw) <= i64::MAX as int,
        i64::MIN as int <= 2 * (world.x.raw - p.radius.raw) - p.position.x.raw
            <= i64::MAX as int,
        i64::MIN as int <= 2 * (world.x.raw - p.radius.raw) - p.position.x.raw + fmul(
            restitution,
            fsub(p.position.x.raw as int, p.previous.x.raw as int),
        ) <= i64::MAX as int,
        fmul(restitution, fsub(p.position.x.raw as int, p.previous.x.raw as int))
            > i64::MIN as int,
    ensures
        ({
            let q = boundary_spec(p, world, restitution, friction);
            let vx = fsub(p.position.x.raw as int, p.previous.x.raw as int);
            &&& fsub(q.position.x.raw as int, q.previous.x.raw as int) == -fmul(restitution, vx)
            &&& fsub(q.position.y.raw as int, q.previous.y.raw as int) == 0
        }),
{
    let vx = fsub(p.position.x.raw as int, p.previous.x.raw as int);
    let wall = fsub(world.x.raw as int, p.radius.raw as int);
    lemma_fmul_double(wall);
    let nx = fsub(fmul(2 * sc(), wall), p.position.x.raw as int);
    assert(nx == 2 * wall - p.position.x.raw);
    let rv = fmul(restitution, vx);
    assert(fadd(nx, rv) == nx + rv);
    // the tangential damping sees a zero y-velocity and leaves it zero
    lemma_fmul_zero_left(fsub(sc(), friction));
    let q = boundary_spec(p, world, restitution, friction);
    assert(fsub(q.position.x.raw as int, q.previous.x.raw as int) == -rv);
    assert(fsub(q.position.y.raw as int, q.previous.y.raw as int) == 0);
}

/// Cell death: a cell with no energy and no stored energy is dead.
pub proof fn lemma_empty_cell_is_dead(c: Cell)
    requires
        c.energy.raw == 0,
        c.stored_energy.raw == 0,
    ensures
        c.is_dead_spec(),
{
    assert(fadd(0, 0) == 0);
    assert(ALIVE_THRESHOLD_RAW > 0);
}


/// A particle at rest stays at rest: with zero gravity, no pending
/// acceleration, coinciding positions and room to every wall, any
/// number of free sub-steps leaves the particle exactly where it is.
/// Together with the free-particle clause of the update contract this
/// pins the whole update for such a particle.
pub proof fn lemma_free_particle_rest_state(
    p: Particle,
    world: V2,
    half_drag: int,
    restitution: int,
    friction: int,
    dt: int,
    n: nat,
)
    requires
        p.mass.raw > 0,
        p.previous == p.position,
        p.acceleration.x.raw == 0,
        p.acceleration.y.raw == 0,
        p.radius.raw <= p.position.x.raw,
        p.position.x.raw as int <= fsub(world.x.raw as int, p.radius.raw as int),
        p.radius.raw <= p.position.y.raw,
        p.position.y.raw as int <= fsub(world.y.raw as int, p.radius.raw as int),
    ensures
        free_particle_steps(
            p,
            V2 { x: Scalar { raw: 0 }, y: Scalar { raw: 0 } },
            half_drag,
            world,
            restitution,
            friction,
            dt,
            n,
        ) == p,
    decreases n,
{
    let g = V2 { x: Scalar { raw: 0 }, y: Scalar { raw: 0 } };
    if n > 0 {
        lemma_free_particle_rest_state(
            p,
            world,
            half_drag,
            restitution,
            friction,
            dt,
            (n - 1) as nat,
        );
        let q = integrate_spec(p, g, half_drag, dt);
        assert(fsub(p.position.x.raw as int, p.previous.x.raw as int) == 0);
        assert(fsub(p.position.y.raw as int, p.previous.y.raw as int) == 0);
        assert(fmul(fmul(fadd(0, fsub(0, 0)), dt), dt) == 0) by {
            lemma_fmul_zero_left(dt);
            lemma_fmul_zero_left(dt);
        }
        assert(q.position.x.raw == p.position.x.raw);
        assert(q.position.y.raw == p.position.y.raw);
        assert(q == (Particle { previous: p.position, ..p }));
        assert(q == p);
        assert(boundary_spec(q, world, restitution, friction) == q);
        assert(free_particle_step(p, g, half_drag, world, restitution, friction, dt) == p);
    }
}
} // verus!
