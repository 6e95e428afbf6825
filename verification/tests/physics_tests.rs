//! Behavioural tests of the fixed-point physics engine.

use vlife::engine::Physics;
use vlife::particle::Particle;
use vlife::random::RandomSource;
use vlife::scalar::{Scalar, SCALE};
use vlife::spring::Spring;
use vlife::vec2::V2;

fn units(u: i32) -> Scalar {
    Scalar::from_units(u)
}

fn quiet_world() -> Physics {
    let mut physics = Physics::new(V2::new(units(200), units(100)));
    physics.gravity = V2::zeros();
    physics.drag = Scalar { raw: 0 };
    physics
}

#[test]
fn resting_particle_stays_at_rest() {
    let mut physics = quiet_world();
    let mut rng = RandomSource::new(7);
    let p = Particle::new(V2::new(units(50), units(50)));
    let h = physics.add_particle(p);
    for _ in 0..1000 {
        physics.update(&mut rng);
    }
    let q = physics.get_particle(h).expect("particle");
    assert_eq!(q.position.x.raw, 50 * SCALE);
    assert_eq!(q.position.y.raw, 50 * SCALE);
    assert_eq!(q.velocity().x.raw, 0);
    assert_eq!(q.velocity().y.raw, 0);
}

#[test]
fn moving_particle_keeps_velocity_without_forces() {
    let mut physics = quiet_world();
    physics.num_iterations = 1;
    let mut rng = RandomSource::new(7);
    let v = V2::new(Scalar { raw: 1_000_000 }, Scalar { raw: 2_000_000 });
    let p = Particle::new(V2::new(units(50), units(50))).with_velocity(v);
    let h = physics.add_particle(p);
    for _ in 0..100 {
        physics.update(&mut rng);
    }
    let q = physics.get_particle(h).expect("particle");
    assert_eq!(q.velocity().x.raw, 1_000_000);
    assert_eq!(q.velocity().y.raw, 2_000_000);
}

#[test]
fn wall_bounce_scales_velocity_by_restitution() {
    let mut physics = quiet_world();
    physics.num_iterations = 1;
    let mut rng = RandomSource::new(7);
    // one unit of velocity per sub-step, aimed at the far x wall
    let v = V2::new(units(1), Scalar { raw: 0 });
    let start = V2::new(Scalar { raw: 199 * SCALE + SCALE / 2 }, units(50));
    let p = Particle::new(start).with_velocity(v);
    let h = physics.add_particle(p);
    physics.update(&mut rng);
    let q = physics.get_particle(h).expect("particle");
    // reflected about the wall at 200: 2*200 - 200.5 = 199.5
    assert_eq!(q.position.x.raw, 199 * SCALE + SCALE / 2);
    // the x velocity reverses, scaled by the default restitution 0.6
    assert_eq!(q.velocity().x.raw, -600_000_000);
    assert_eq!(q.velocity().y.raw, 0);
}

#[test]
fn spring_at_rest_length_is_a_fixed_point() {
    let mut physics = quiet_world();
    let mut rng = RandomSource::new(7);
    let p1 = Particle::new(V2::new(units(40), units(50)));
    let p2 = Particle::new(V2::new(units(60), units(50)));
    let h1 = physics.add_particle(p1);
    let h2 = physics.add_particle(p2);
    physics.add_spring(Spring::new(h1, h2, units(20), Scalar { raw: 900_000_000 }));
    for _ in 0..120 {
        physics.update(&mut rng);
    }
    let q1 = physics.get_particle(h1).expect("particle");
    let q2 = physics.get_particle(h2).expect("particle");
    assert_eq!(q1.position.x.raw, 40 * SCALE);
    assert_eq!(q2.position.x.raw, 60 * SCALE);
    assert_eq!(q1.position.y.raw, 50 * SCALE);
    assert_eq!(q2.position.y.raw, 50 * SCALE);
}

#[test]
fn stretched_spring_pulls_particles_together() {
    let mut physics = quiet_world();
    let mut rng = RandomSource::new(7);
    // five units apart, bound by a spring of rest length twenty
    let p1 = Particle::new(V2::new(Scalar { raw: 975 * SCALE / 10 }, units(50)));
    let p2 = Particle::new(V2::new(Scalar { raw: 1025 * SCALE / 10 }, units(50)));
    let h1 = physics.add_particle(p1);
    let h2 = physics.add_particle(p2);
    physics.add_spring(Spring::new(h1, h2, units(20), Scalar { raw: 900_000_000 }));
    for _ in 0..120 {
        physics.update(&mut rng);
    }
    let q1 = physics.get_particle(h1).expect("particle");
    let q2 = physics.get_particle(h2).expect("particle");
    let gap = q2.position.minus(q1.position).magnitude();
    // the gap approaches the rest length: within 20 +/- 1 units
    assert!(gap.raw > 19 * SCALE, "gap {}", gap.raw);
    assert!(gap.raw < 21 * SCALE, "gap {}", gap.raw);
}

#[test]
fn gravity_pulls_a_free_particle_down() {
    let mut physics = Physics::new(V2::new(units(700), units(300)));
    let mut rng = RandomSource::new(7);
    let p = Particle::new(V2::new(units(350), units(50)));
    let h = physics.add_particle(p);
    // one second of simulated time at the default step
    for _ in 0..60 {
        physics.update(&mut rng);
    }
    let q = physics.get_particle(h).expect("particle");
    let dropped = q.position.y.raw - 50 * SCALE;
    // free fall covers roughly g/2 in the first second; drag only trims it
    assert!(dropped >= 4 * SCALE, "dropped {}", dropped);
    assert!(dropped <= 6 * SCALE, "dropped {}", dropped);
}
