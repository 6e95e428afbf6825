//! The simulator: owns the physics world, the cell arena and the rank,
//! and orchestrates one step after another.
//!
//! Per update it advances the physics, credits the surfaced contacts,
//! ticks every cell, synchronises each cell's body, removes the dead
//! (pooling their genomes by fitness), spawns the divided, and refills
//! the population to the configured minimum — from crossed rank
//! genomes while the rank has any, from fresh random cells otherwise.

use vstd::prelude::*;

verus! {

use crate::cell::{Cell, CellContext, MAX_RADIUS_RAW};
use crate::cell_rank::CellRank;
use crate::collider::{Collider, ColliderHandle, PolygonCollider};
use crate::engine::Physics;
use crate::genome::{ApplyGenome, BuildGenome, GenomeBuilder};
use crate::neurons::lemma_active_rows_le;
use crate::object_set::{ObjectHandle, ObjectSet};
use crate::particle::Particle;
use crate::random::RandomSource;
use crate::scalar::{fadd, Scalar, SCALE, TWO_PI_RAW};
use crate::spring::{ParticleHandle, Spring, SpringHandle};
use crate::vec2::V2;

/// Number of membrane particles in a cell's ring.
pub const RING_PARTICLES: usize = 9;

/// Raw distance a spawn point keeps from every wall.
pub const SPAWN_MARGIN_RAW: i64 = 100 * SCALE + MAX_RADIUS_RAW;

/// Raw stiffness of the membrane springs between neighbouring ring
/// particles.
pub const SURFACE_STRENGTH_RAW: i64 = 900_000_000;

/// Raw stiffness of the spokes joining the center to the ring.
pub const INTERNAL_STRENGTH_RAW: i64 = 1_000_000;

/// Default capacity of the genome rank.
pub const RANK_CAPACITY: usize = 32;

/// Largest raw coordinate a world edge or spawn point may take; keeps
/// every membrane offset addition exact.
pub const MAX_WORLD_RAW: i64 = 0x4000_0000_0000_0000;

/// Largest raw distance a membrane particle sits from its cell center:
/// the radius bound times the sine bound.
pub const RING_REACH_RAW: i64 = 20 * SCALE;

/// A cell together with the physics objects that embody it.
pub struct CellBody {
    pub cell: Cell,
    pub center: ParticleHandle,
    pub particles: Vec<ParticleHandle>,
    pub springs: Vec<SpringHandle>,
    pub collider: ColliderHandle,
}

impl CellBody {
    /// The held cell is sound and cheap enough to tick.
    pub open spec fn wf(self) -> bool {
        &&& self.cell.wf()
        &&& self.cell.neurons.working_neurons <= 0xffff
    }
}

/// A handle naming a cell in the simulator.
pub type CellHandle = ObjectHandle<CellBody>;

/// A read-only snapshot of one cell for a view layer.
pub struct CellView {
    pub handle: CellHandle,
    pub position: V2,
    pub membrane: Vec<V2>,
    pub energy: Scalar,
    pub stored_energy: Scalar,
    pub age: Scalar,
}

impl CellView {
    /// The viewed cell's handle.
    pub fn handle(&self) -> (r: CellHandle)
        ensures
            r.id == self.handle.id,
    {
        self.handle
    }

    /// The cell center's position.
    pub fn position(&self) -> (r: V2)
        ensures
            r == self.position,
    {
        self.position
    }

    /// The membrane ring, as an ordered point sequence.
    pub fn membrane(&self) -> (r: &Vec<V2>)
        ensures
            *r == self.membrane,
    {
        &self.membrane
    }
}

/// The simulation: physics, cells, genetic pool and configuration.
pub struct Simulator {
    pub time: Scalar,
    pub world_size: V2,
    pub physics: Physics,
    pub cells: ObjectSet<CellBody>,
    pub rank: CellRank,
    pub min_cells: usize,
    pub rank_births: u64,
    pub rng: RandomSource,
}

impl Simulator {
    /// The whole simulation state is sound.
    pub open spec fn wf(self) -> bool {
        &&& self.physics.wf()
        &&& self.physics.step_time.raw > 0
        &&& self.physics.world_size == self.world_size
        &&& self.cells.wf()
        &&& forall|i: int|
            0 <= i < self.cells.entries_seq().len() ==> (
            #[trigger] self.cells.entries_seq()[i]).1.wf()
        &&& self.rank.wf()
    }

    /// Whether the id spaces leave room to embody one more cell.
    pub open spec fn can_spawn_spec(self) -> bool {
        &&& self.cells.next() < u64::MAX
        &&& self.physics.particles.next() < u64::MAX - 16
        &&& self.physics.springs.next() < u64::MAX - 32
        &&& self.physics.colliders.next() < u64::MAX
    }

    /// Whether the world leaves room for a spawn point inside the
    /// margins, and stays inside the coordinate box spawning relies on.
    pub open spec fn spawn_roomy_spec(self) -> bool {
        &&& self.world_size.x.raw > 2 * SPAWN_MARGIN_RAW
        &&& self.world_size.y.raw > 2 * SPAWN_MARGIN_RAW
        &&& self.world_size.x.raw <= MAX_WORLD_RAW
        &&& self.world_size.y.raw <= MAX_WORLD_RAW
    }

    /// A fresh world of the given size, stepped by the seeded stream:
    /// the default physics configuration, empty arenas with fresh id
    /// spaces, an empty rank, and no population floor.
    pub fn new_with_seed(world_size: V2, seed: u64) -> (r: Simulator)
        ensures
            r.wf(),
            r.time.raw == 0,
            r.world_size == world_size,
            r.cells.entries_seq().len() == 0,
            r.min_cells == 0,
            r.rank_births == 0,
            r.physics.step_time.raw == crate::engine::DEFAULT_STEP_TIME_RAW,
            r.physics.num_iterations == crate::engine::DEFAULT_NUM_ITERATIONS,
            r.physics.gravity.x.raw == 0 && r.physics.gravity.y.raw
                == crate::engine::DEFAULT_GRAVITY_RAW,
            r.physics.drag.raw == crate::engine::DEFAULT_DRAG_RAW,
            r.physics.restitution.raw == crate::engine::DEFAULT_WALL_RESTITUTION_RAW,
            r.physics.friction.raw == crate::engine::DEFAULT_FRICTION_RAW,
            r.physics.particles.entries_seq().len() == 0,
            r.rank.entries@.len() == 0,
            r.can_spawn_spec(),
    {
        Simulator {
            time: Scalar { raw: 0 },
            world_size,
            physics: Physics::new(world_size),
            cells: ObjectSet::new(),
            rank: CellRank::new(RANK_CAPACITY),
            min_cells: 0,
            rank_births: 0,
            rng: RandomSource::new(seed),
        }
    }

    /// A fresh world of the given size, with the default configuration.
    pub fn new(world_size: V2) -> (r: Simulator)
        ensures
            r.wf(),
            r.time.raw == 0,
            r.world_size == world_size,
            r.cells.entries_seq().len() == 0,
            r.min_cells == 0,
            r.physics.step_time.raw == crate::engine::DEFAULT_STEP_TIME_RAW,
            r.can_spawn_spec(),
    {
        Simulator::new_with_seed(world_size, 0)
    }

    /// The simulator with its population floor replaced.
    pub fn with_min_cells(self, n: usize) -> (r: Simulator)
        ensures
            r == (Simulator { min_cells: n, ..self }),
    {
        Simulator { min_cells: n, ..self }
    }

    /// Duration of one update.
    pub fn step_time(&self) -> (r: Scalar)
        ensures
            r == self.physics.step_time,
    {
        self.physics.step_time()
    }

    /// Elapsed simulated time.
    pub fn time(&self) -> (r: Scalar)
        ensures
            r == self.time,
    {
        self.time
    }

    /// Whether the id spaces leave room to embody one more cell.
    pub fn can_spawn(&self) -> (r: bool)
        ensures
            r == self.can_spawn_spec(),
    {
        self.cells.next_id < u64::MAX && self.physics.particles.next_id < u64::MAX - 16
            && self.physics.springs.next_id < u64::MAX - 32
            && self.physics.colliders.next_id < u64::MAX
    }

    /// Whether the world leaves room for a spawn point.
    pub fn spawn_roomy(&self) -> (r: bool)
        ensures
            r == self.spawn_roomy_spec(),
    {
        let m = Scalar { raw: SPAWN_MARGIN_RAW };
        let cap = Scalar { raw: MAX_WORLD_RAW };
        self.world_size.x.gt(m.plus(m)) && self.world_size.y.gt(m.plus(m))
            && self.world_size.x.le(cap) && self.world_size.y.le(cap)
    }

    /// Embodies a cell: a center particle and a ring of membrane
    /// particles joined by spokes and surface springs, wrapped in a
    /// polygon collider, registered as one cell body.
    #[verifier::rlimit(100)]
    #[verifier::spinoff_prover]
    fn spawn_cell_body(&mut self, cell: Cell, center: V2, velocity: V2) -> (h: CellHandle)
        requires
            old(self).wf(),
            cell.wf(),
            cell.neurons.working_neurons <= 0xffff,
            old(self).can_spawn_spec(),
            0 <= center.x.raw <= MAX_WORLD_RAW,
            0 <= center.y.raw <= MAX_WORLD_RAW,
        ensures
            final(self).wf(),
            h.id == old(self).cells.next(),
            final(self).cells.entries_seq().len() == old(self).cells.entries_seq().len() + 1,
            final(self).physics.particles.entries_seq().len() == old(self).physics.particles.entries_seq().len() + (RING_PARTICLES as int + 1),
            final(self).physics.springs.entries_seq().len() == old(self).physics.springs.entries_seq().len() + 2 * (RING_PARTICLES as int),
            final(self).physics.colliders.entries_seq().len() == old(self).physics.colliders.entries_seq().len() + 1,
            final(self).physics.particles.entries_seq()[old(self).physics.particles.entries_seq().len() as int].1.position == center,
            // nothing that existed before is touched
            forall|i: int|
                0 <= i < old(self).cells.entries_seq().len() ==> #[trigger] final(self).cells.entries_seq()[i] == old(self).cells.entries_seq()[i],
            forall|i: int|
                0 <= i < old(self).physics.particles.entries_seq().len() ==> #[trigger] final(self).physics.particles.entries_seq()[i] == old(self).physics.particles.entries_seq()[i],
            forall|i: int|
                0 <= i < old(self).physics.springs.entries_seq().len() ==> #[trigger] final(self).physics.springs.entries_seq()[i] == old(self).physics.springs.entries_seq()[i],
            forall|i: int|
                0 <= i < old(self).physics.colliders.entries_seq().len() ==> #[trigger] final(self).physics.colliders.entries_seq()[i] == old(self).physics.colliders.entries_seq()[i],
            // the registered body carries the returned handle, wraps the
            // fresh ring in the fresh collider, and holds the given cell
            ({
                let entry = final(self).cells.entries_seq()[old(self).cells.entries_seq().len() as int];
                &&& entry.0 == h.id
                &&& entry.1.cell == cell
                &&& entry.1.center.id == old(self).physics.particles.next()
                &&& entry.1.particles@.len() == RING_PARTICLES
                &&& forall|k: int|
                    0 <= k < RING_PARTICLES ==> (#[trigger] entry.1.particles@[k]).id == old(self).physics.particles.next() + 1 + k
                &&& entry.1.springs@.len() == 2 * (RING_PARTICLES as int)
                &&& entry.1.collider.id == old(self).physics.colliders.next()
            }),
            // every membrane particle sits within the ring's reach of the
            // center
            forall|k: int|
                0 <= k < RING_PARTICLES ==> ({
                    let p = (#[trigger] final(self).physics.particles.entries_seq()[old(self).physics.particles.entries_seq().len() + 1 + k]).1.position;
                    &&& center.x.raw - RING_REACH_RAW <= p.x.raw <= center.x.raw + RING_REACH_RAW
                    &&& center.y.raw - RING_REACH_RAW <= p.y.raw <= center.y.raw + RING_REACH_RAW
                }),
            final(self).time == old(self).time,
            final(self).world_size == old(self).world_size,
            final(self).min_cells == old(self).min_cells,
            final(self).rank_births == old(self).rank_births,
            final(self).rank == old(self).rank,
            final(self).physics.step_time == old(self).physics.step_time,
            final(self).physics.world_size == old(self).physics.world_size,
    {
        let radius = cell.size;
        let center_particle = Particle::new(center).with_velocity(velocity).with_radius(
            cell.radius(),
        );
        let center_h = self.physics.add_particle(center_particle);
        let step = Scalar { raw: TWO_PI_RAW }.over_int(RING_PARTICLES as i64);
        let mut ring: Vec<ParticleHandle> = Vec::new();
        let mut springs: Vec<SpringHandle> = Vec::new();
        let mut positions: Vec<V2> = Vec::new();
        let mut k: usize = 0;
        while k < RING_PARTICLES
            invariant
                self.wf(),
                cell.wf(),
                radius == cell.size,
                0 <= center.x.raw <= MAX_WORLD_RAW,
                0 <= center.y.raw <= MAX_WORLD_RAW,
                k <= RING_PARTICLES,
                ring@.len() == k,
                positions@.len() == k,
                self.physics.particles.entries_seq().len() == old(self).physics.particles.entries_seq().len() + 1 + k,
                self.physics.particles.next() == old(self).physics.particles.next() + 1 + k,
                old(self).physics.particles.next() < u64::MAX - 16,
                old(self).physics.springs.next() < u64::MAX - 32,
                self.physics.springs.next() <= old(self).physics.springs.next() + 2 * k,
                self.physics.springs.entries_seq().len() == old(self).physics.springs.entries_seq().len() + (if k > 0 {
                    2 * k - 1
                } else {
                    0int
                }),
                forall|i: int|
                    0 <= i < old(self).physics.particles.entries_seq().len()
                        ==> #[trigger] self.physics.particles.entries_seq()[i] == old(self).physics.particles.entries_seq()[i],
                forall|i: int|
                    0 <= i < old(self).physics.springs.entries_seq().len()
                        ==> #[trigger] self.physics.springs.entries_seq()[i] == old(self).physics.springs.entries_seq()[i],
                forall|q: int|
                    0 <= q < k ==> (#[trigger] ring@[q]).id == old(self).physics.particles.next() + 1 + q,
                forall|q: int|
                    0 <= q < k ==> ({
                        let p = (#[trigger] self.physics.particles.entries_seq()[old(self).physics.particles.entries_seq().len() + 1 + q]).1.position;
                        &&& center.x.raw - RING_REACH_RAW <= p.x.raw <= center.x.raw
                            + RING_REACH_RAW
                        &&& center.y.raw - RING_REACH_RAW <= p.y.raw <= center.y.raw
                            + RING_REACH_RAW
                    }),
                springs@.len() == (if k > 0 {
                    2 * k - 1
                } else {
                    0int
                }),
                self.physics.colliders == old(self).physics.colliders,
                self.physics.step_time == old(self).physics.step_time,
                self.physics.world_size == old(self).physics.world_size,
                self.cells == old(self).cells,
                self.time == old(self).time,
                self.world_size == old(self).world_size,
                self.min_cells == old(self).min_cells,
                self.rank_births == old(self).rank_births,
                self.rank == old(self).rank,
                self.physics.particles.entries_seq()[old(self).physics.particles.entries_seq().len() as int].1.position == center,
            decreases RING_PARTICLES - k,
        {
            let angle = step.times(Scalar { raw: (k as i64) * SCALE });
            let sin_val = angle.sin();
            let cos_val = angle.cos();
            proof {
                crate::transcend::lemma_fsin_bounded(angle.raw as int);
                crate::transcend::lemma_fcos_bounded(angle.raw as int);
                assert(crate::scalar::abs_i(
                    (cell.size.raw as int) * (cos_val.raw as int),
                ) <= RING_REACH_RAW * crate::scalar::sc()) by (nonlinear_arith)
                    requires
                        0 < cell.size.raw <= 10 * SCALE,
                        crate::scalar::abs_i(cos_val.raw as int) <= 2 * crate::scalar::sc(),
                        RING_REACH_RAW == 20 * SCALE,
                ;
                assert(crate::scalar::abs_i(
                    (cell.size.raw as int) * (sin_val.raw as int),
                ) <= RING_REACH_RAW * crate::scalar::sc()) by (nonlinear_arith)
                    requires
                        0 < cell.size.raw <= 10 * SCALE,
                        crate::scalar::abs_i(sin_val.raw as int) <= 2 * crate::scalar::sc(),
                        RING_REACH_RAW == 20 * SCALE,
                ;
                crate::transcend::lemma_fmul_abs_le(
                    cell.size.raw as int,
                    cos_val.raw as int,
                    RING_REACH_RAW as int,
                );
                crate::transcend::lemma_fmul_abs_le(
                    cell.size.raw as int,
                    sin_val.raw as int,
                    RING_REACH_RAW as int,
                );
            }
            let offset = V2::new(radius.times(cos_val), radius.times(sin_val));
            let position = center.plus(offset);
            proof {
                assert(crate::scalar::abs_i(offset.x.raw as int) <= RING_REACH_RAW);
                assert(crate::scalar::abs_i(offset.y.raw as int) <= RING_REACH_RAW);
                assert(center.x.raw - RING_REACH_RAW <= position.x.raw <= center.x.raw
                    + RING_REACH_RAW);
                assert(center.y.raw - RING_REACH_RAW <= position.y.raw <= center.y.raw
                    + RING_REACH_RAW);
            }
            let ph = self.physics.add_particle(Particle::new(position).with_velocity(velocity));
            if k > 0 {
                let prev = positions[k - 1];
                let rest = position.minus(prev).magnitude();
                let sh = self.physics.add_spring(
                    Spring::new(ring[k - 1], ph, rest, Scalar { raw: SURFACE_STRENGTH_RAW }),
                );
                springs.push(sh);
            }
            let spoke = self.physics.add_spring(
                Spring::new(center_h, ph, radius, Scalar { raw: INTERNAL_STRENGTH_RAW }),
            );
            springs.push(spoke);
            ring.push(ph);
            positions.push(position);
            k = k + 1;
        }
        let closing_rest = positions[0].minus(positions[RING_PARTICLES - 1]).magnitude();
        let closing = self.physics.add_spring(
            Spring::new(
                ring[RING_PARTICLES - 1],
                ring[0],
                closing_rest,
                Scalar { raw: SURFACE_STRENGTH_RAW },
            ),
        );
        springs.push(closing);
        let mut collider = PolygonCollider::new(Vec::new());
        let mut j: usize = 0;
        while j < RING_PARTICLES
            invariant
                j <= RING_PARTICLES,
                ring@.len() == RING_PARTICLES,
                collider.wf(),
            decreases RING_PARTICLES - j,
        {
            collider.add_particle_handle(ring[j]);
            j = j + 1;
        }
        let collider_h = self.physics.add_collider(Collider::Polygon(collider));
        let body = CellBody {
            cell,
            center: center_h,
            particles: ring,
            springs,
            collider: collider_h,
        };
        let ghost pre_cells = self.cells;
        let h = self.cells.insert(body);
        proof {
            assert forall|i: int|
                0 <= i < self.cells.entries_seq().len() implies (
            #[trigger] self.cells.entries_seq()[i]).1.wf() by {
                if i < self.cells.entries_seq().len() - 1 {
                    assert(self.cells.entries_seq()[i] == pre_cells.entries_seq()[i]);
                }
            }
            assert(self.cells.entries_seq()[old(self).cells.entries_seq().len() as int].0
                == h.id);
        }
        h
    }

    /// A spawn point inside the margins and a small starting velocity,
    /// both drawn from the stream.
    fn random_spawn_point(&mut self) -> (r: (V2, V2))
        requires
            old(self).wf(),
            old(self).spawn_roomy_spec(),
        ensures
            *final(self) == (Simulator { rng: final(self).rng, ..*old(self) }),
            SPAWN_MARGIN_RAW <= r.0.x.raw <= old(self).world_size.x.raw - SPAWN_MARGIN_RAW,
            SPAWN_MARGIN_RAW <= r.0.y.raw <= old(self).world_size.y.raw - SPAWN_MARGIN_RAW,
    {
        let margin = Scalar { raw: SPAWN_MARGIN_RAW };
        let cx = self.rng.in_range(margin, self.world_size.x.minus(margin));
        let cy = self.rng.in_range(margin, self.world_size.y.minus(margin));
        let iterations = self.physics.num_iterations();
        let vx = self.rng.in_range(Scalar { raw: -2 * SCALE }, Scalar { raw: 2 * SCALE }).times(
            self.physics.step_time(),
        ).over_int(iterations as i64);
        let vy = self.rng.in_range(Scalar { raw: -2 * SCALE }, Scalar { raw: 2 * SCALE }).times(
            self.physics.step_time(),
        ).over_int(iterations as i64);
        (V2::new(cx, cy), V2::new(vx, vy))
    }

    /// Builds a freshly drawn cell.  The working-neuron count of a
    /// random controller is bounded by its row counts.
    fn random_cell(&mut self) -> (r: Cell)
        requires
            old(self).wf(),
        ensures
            *final(self) == (Simulator { rng: final(self).rng, ..*old(self) }),
            r.wf(),
            r.neurons.working_neurons <= 0xffff,
    {
        let cell = Cell::random(&mut self.rng);
        proof {
            lemma_active_rows_le(
                cell.neurons.input_layer.weights@,
                cell.neurons.input_layer.weights@.len() as nat,
            );
            lemma_active_rows_le(
                cell.neurons.processing_layer.weights@,
                cell.neurons.processing_layer.weights@.len() as nat,
            );
            lemma_active_rows_le(
                cell.neurons.output_layer.weights@,
                cell.neurons.output_layer.weights@.len() as nat,
            );
        }
        cell
    }

    /// Adds one random cell somewhere inside the world margins.
    pub fn create_random_cell(&mut self) -> (h: CellHandle)
        requires
            old(self).wf(),
            old(self).spawn_roomy_spec(),
            old(self).can_spawn_spec(),
        ensures
            final(self).wf(),
            h.id == old(self).cells.next(),
            final(self).cells.entries_seq().len() == old(self).cells.entries_seq().len() + 1,
            final(self).physics.particles.entries_seq().len() == old(self).physics.particles.entries_seq().len() + (RING_PARTICLES as int + 1),
            final(self).physics.colliders.entries_seq().len() == old(self).physics.colliders.entries_seq().len() + 1,
            // the new center particle sits inside the spawn margins
            SPAWN_MARGIN_RAW <= final(self).physics.particles.entries_seq()[old(self).physics.particles.entries_seq().len() as int].1.position.x.raw <= old(self).world_size.x.raw - SPAWN_MARGIN_RAW,
            SPAWN_MARGIN_RAW <= final(self).physics.particles.entries_seq()[old(self).physics.particles.entries_seq().len() as int].1.position.y.raw <= old(self).world_size.y.raw - SPAWN_MARGIN_RAW,
            // one spoke and one surface spring per membrane particle
            final(self).physics.springs.entries_seq().len() == old(self).physics.springs.entries_seq().len() + 2 * (RING_PARTICLES as int),
            // nothing that existed before is touched
            forall|i: int|
                0 <= i < old(self).cells.entries_seq().len() ==> #[trigger] final(self).cells.entries_seq()[i] == old(self).cells.entries_seq()[i],
            forall|i: int|
                0 <= i < old(self).physics.particles.entries_seq().len() ==> #[trigger] final(self).physics.particles.entries_seq()[i] == old(self).physics.particles.entries_seq()[i],
            forall|i: int|
                0 <= i < old(self).physics.springs.entries_seq().len() ==> #[trigger] final(self).physics.springs.entries_seq()[i] == old(self).physics.springs.entries_seq()[i],
            forall|i: int|
                0 <= i < old(self).physics.colliders.entries_seq().len() ==> #[trigger] final(self).physics.colliders.entries_seq()[i] == old(self).physics.colliders.entries_seq()[i],
            // the registered body carries the returned handle and wraps
            // the fresh membrane ring in the fresh collider
            ({
                let entry = final(self).cells.entries_seq()[old(self).cells.entries_seq().len() as int];
                &&& entry.0 == h.id
                &&& entry.1.center.id == old(self).physics.particles.next()
                &&& entry.1.particles@.len() == RING_PARTICLES
                &&& forall|k: int|
                    0 <= k < RING_PARTICLES ==> (#[trigger] entry.1.particles@[k]).id == old(self).physics.particles.next() + 1 + k
                &&& entry.1.springs@.len() == 2 * (RING_PARTICLES as int)
                &&& entry.1.collider.id == old(self).physics.colliders.next()
            }),
            // every membrane particle lies strictly inside the world
            forall|k: int|
                0 <= k < RING_PARTICLES ==> ({
                    let p = (#[trigger] final(self).physics.particles.entries_seq()[old(self).physics.particles.entries_seq().len() + 1 + k]).1.position;
                    &&& 0 < p.x.raw < old(self).world_size.x.raw
                    &&& 0 < p.y.raw < old(self).world_size.y.raw
                }),
            final(self).time == old(self).time,
            final(self).min_cells == old(self).min_cells,
    {
        let cell = self.random_cell();
        let (center, velocity) = self.random_spawn_point();
        self.spawn_cell_body(cell, center, velocity)
    }

    /// Snapshots of all cells, in arena order.
    pub fn cells(&self) -> (r: Vec<CellView>)
        requires
            self.wf(),
        ensures
            r@.len() == self.cells.entries_seq().len(),
            forall|i: int|
                0 <= i < r@.len() ==> (#[trigger] r@[i]).handle.id
                    == self.cells.entries_seq()[i].0,
            // each view copies its cell's display scalars
            forall|i: int|
                0 <= i < r@.len() ==> (#[trigger] r@[i]).energy
                    == self.cells.entries_seq()[i].1.cell.energy && r@[i].stored_energy
                    == self.cells.entries_seq()[i].1.cell.stored_energy && r@[i].age
                    == self.cells.entries_seq()[i].1.cell.age,
            // the position is the live center particle's, or the origin
            // for a center whose handle no longer resolves
            forall|i: int|
                0 <= i < r@.len() ==> ({
                    let center = self.cells.entries_seq()[i].1.center;
                    if self.physics.particles.has(center.id) {
                        (#[trigger] r@[i]).position == self.physics.particles.obj(
                            center.id,
                        ).position
                    } else {
                        r@[i].position == (V2 { x: Scalar { raw: 0 }, y: Scalar { raw: 0 } })
                    }
                }),
            // the membrane holds the live ring positions, in ring order
            // when every ring handle resolves
            forall|i: int|
                0 <= i < r@.len() ==> (#[trigger] r@[i]).membrane@.len()
                    <= self.cells.entries_seq()[i].1.particles@.len(),
            forall|i: int|
                0 <= i < r@.len() && (forall|j: int|
                    0 <= j < self.cells.entries_seq()[i].1.particles@.len()
                        ==> self.physics.particles.has(
                        (#[trigger] self.cells.entries_seq()[i].1.particles@[j]).id,
                    )) ==> ({
                    let ring = self.cells.entries_seq()[i].1.particles@;
                    &&& (#[trigger] r@[i]).membrane@.len() == ring.len()
                    &&& forall|j: int|
                        0 <= j < ring.len() ==> (#[trigger] r@[i].membrane@[j])
                            == self.physics.particles.obj(ring[j].id).position
                }),
    {
        let n = self.cells.len();
        let mut out: Vec<CellView> = Vec::new();
        let mut i: usize = 0;
        while i < n
            invariant
                self.wf(),
                n == self.cells.entries_seq().len(),
                i <= n,
                out@.len() == i,
                forall|k: int|
                    0 <= k < i ==> (#[trigger] out@[k]).handle.id
                        == self.cells.entries_seq()[k].0,
                forall|k: int|
                    0 <= k < i ==> (#[trigger] out@[k]).energy
                        == self.cells.entries_seq()[k].1.cell.energy && out@[k].stored_energy
                        == self.cells.entries_seq()[k].1.cell.stored_energy && out@[k].age
                        == self.cells.entries_seq()[k].1.cell.age,
                forall|k: int|
                    0 <= k < i ==> ({
                        let center = self.cells.entries_seq()[k].1.center;
                        if self.physics.particles.has(center.id) {
                            (#[trigger] out@[k]).position == self.physics.particles.obj(
                                center.id,
                            ).position
                        } else {
                            out@[k].position == (V2 {
                                x: Scalar { raw: 0 },
                                y: Scalar { raw: 0 },
                            })
                        }
                    }),
                forall|k: int|
                    0 <= k < i ==> (#[trigger] out@[k]).membrane@.len()
                        <= self.cells.entries_seq()[k].1.particles@.len(),
                forall|k: int|
                    0 <= k < i && (forall|j: int|
                        0 <= j < self.cells.entries_seq()[k].1.particles@.len()
                            ==> self.physics.particles.has(
                            (#[trigger] self.cells.entries_seq()[k].1.particles@[j]).id,
                        )) ==> ({
                        let ring = self.cells.entries_seq()[k].1.particles@;
                        &&& (#[trigger] out@[k]).membrane@.len() == ring.len()
                        &&& forall|j: int|
                            0 <= j < ring.len() ==> (#[trigger] out@[k].membrane@[j])
                                == self.physics.particles.obj(ring[j].id).position
                    }),
            decreases n - i,
        {
            let body = self.cells.nth(i);
            let position = match self.physics.get_particle(body.center) {
                Some(p) => p.position,
                None => V2::zeros(),
            };
            let mut membrane: Vec<V2> = Vec::new();
            let m = body.particles.len();
            let mut j: usize = 0;
            while j < m
                invariant
                    self.wf(),
                    i < n,
                    n == self.cells.entries_seq().len(),
                    m == self.cells.entries_seq()[i as int].1.particles@.len(),
                    *body == self.cells.entries_seq()[i as int].1,
                    j <= m,
                    membrane@.len() <= j,
                    (forall|q: int|
                        0 <= q < j ==> self.physics.particles.has(
                            (#[trigger] body.particles@[q]).id,
                        )) ==> membrane@.len() == j && (forall|q: int|
                        0 <= q < j ==> (#[trigger] membrane@[q]) == self.physics.particles.obj(
                            body.particles@[q].id,
                        ).position),
                decreases m - j,
            {
                match self.physics.get_particle(body.particles[j]) {
                    Some(p) => membrane.push(p.position),
                    None => {
                    },
                }
                j = j + 1;
            }
            let handle = ObjectHandle::from_id(self.cells.nth_id(i));
            out.push(
                CellView {
                    handle,
                    position,
                    membrane,
                    energy: body.cell.energy,
                    stored_energy: body.cell.stored_energy,
                    age: body.cell.age,
                },
            );
            i = i + 1;
        }
        out
    }

    /// The cell whose center lies nearest the query point, preferring a
    /// cell whose contracted disk contains it; ties keep the first
    /// found.  Nothing while there are no cells.
    /// The distance from the query point to the cell's center, taken as
    /// the largest representable distance when the center's handle no
    /// longer resolves.
    pub open spec fn center_distance(self, i: int, q: V2) -> int {
        let c = self.cells.entries_seq()[i].1.center;
        if self.physics.particles.has(c.id) {
            let p = self.physics.particles.obj(c.id).position;
            crate::vec2::fmag(
                crate::scalar::fsub(p.x.raw as int, q.x.raw as int),
                crate::scalar::fsub(p.y.raw as int, q.y.raw as int),
            )
        } else {
            i64::MAX as int
        }
    }

    /// Whether the query point lies inside the cell's contracted disk.
    pub open spec fn center_contains(self, i: int, q: V2) -> bool {
        self.physics.particles.has(self.cells.entries_seq()[i].1.center.id)
            && self.center_distance(i, q) <= self.cells.entries_seq()[i].1.cell.contracted_size_spec()
    }

    /// Whether the cell at `i` is a strictly better answer than the one
    /// at `j`: a containing disk beats any non-containing one, and
    /// within a class a strictly smaller center distance wins.
    pub open spec fn closer_pref(self, i: int, j: int, q: V2) -> bool {
        if self.center_contains(i, q) != self.center_contains(j, q) {
            self.center_contains(i, q)
        } else {
            self.center_distance(i, q) < self.center_distance(j, q)
        }
    }

    /// The cell whose center lies nearest the query point, preferring a
    /// cell whose contracted disk contains it; ties keep the first
    /// found.  Nothing while there are no cells.
    pub fn get_cell_id_closer_to(&self, x: Scalar, y: Scalar) -> (r: Option<CellHandle>)
        requires
            self.wf(),
        ensures
            r is Some <==> self.cells.entries_seq().len() > 0,
            r matches Some(h) ==> exists|i: int|
                {
                    &&& 0 <= i < self.cells.entries_seq().len()
                    &&& (#[trigger] self.cells.entries_seq()[i]).0 == h.id
                    &&& forall|j: int|
                        0 <= j < self.cells.entries_seq().len() ==> !self.closer_pref(
                            j,
                            i,
                            V2 { x, y },
                        )
                },
    {
        let query = V2::new(x, y);
        let n = self.cells.len();
        let mut best: Option<CellHandle> = None;
        let mut best_distance = Scalar { raw: i64::MAX };
        let mut best_contains = false;
        let ghost mut best_index: int = 0;
        let mut i: usize = 0;
        while i < n
            invariant
                self.wf(),
                n == self.cells.entries_seq().len(),
                i <= n,
                best is Some <==> i > 0 && n > 0,
                best matches Some(h) ==> {
                    &&& 0 <= best_index < i
                    &&& self.cells.entries_seq()[best_index].0 == h.id
                    &&& best_distance.raw as int == self.center_distance(best_index, query)
                    &&& best_contains == self.center_contains(best_index, query)
                    &&& forall|j: int| 0 <= j < i ==> !self.closer_pref(j, best_index, query)
                },
            decreases n - i,
        {
            let body = self.cells.nth(i);
            let handle: CellHandle = ObjectHandle::from_id(self.cells.nth_id(i));
            proof {
                assert(self.cells.entries_seq()[i as int].0 == handle.id);
            }
            match self.physics.get_particle(body.center) {
                Some(p) => {
                    let distance = p.position.minus(query).magnitude();
                    let contains = distance.le(body.cell.radius());
                    proof {
                        assert(distance.raw as int == self.center_distance(i as int, query));
                        assert(contains == self.center_contains(i as int, query));
                    }
                    let better = match best {
                        None => true,
                        Some(_) => {
                            if contains && !best_contains {
                                true
                            } else if !contains && best_contains {
                                false
                            } else {
                                distance.lt(best_distance)
                            }
                        },
                    };
                    if better {
                        proof {
                            if i > 0 {
                                // a new strict best: anything the old best
                                // was not worse than is also not better
                                // than the new one
                                assert(self.closer_pref(i as int, best_index, query));
                                assert forall|j: int|
                                    0 <= j < i implies !self.closer_pref(j, i as int, query) by {
                                    assert(!self.closer_pref(j, best_index, query));
                                }
                            }
                            best_index = i as int;
                        }
                        best = Some(handle);
                        best_distance = distance;
                        best_contains = contains;
                    }
                },
                None => {
                    proof {
                        assert(self.center_distance(i as int, query) == i64::MAX as int);
                        assert(!self.center_contains(i as int, query));
                    }
                    if i == 0 {
                        best = Some(handle);
                        best_distance = Scalar { raw: i64::MAX };
                        best_contains = false;
                        proof {
                            best_index = 0;
                        }
                    }
                },
            }
            i = i + 1;
        }
        best
    }

    /// Reads the context a cell's tick needs from its center particle.
    fn cell_context(&self, body: &CellBody) -> (r: CellContext)
        requires
            self.wf(),
        ensures
            r.dt == self.physics.step_time,
            r.mass.raw > 0,
    {
        match self.physics.get_particle(body.center) {
            Some(p) => {
                proof {
                    let i = self.physics.particles.idx(body.center.id);
                    assert(self.physics.particles.entries_seq()[i].1.mass.raw > 0);
                }
                CellContext {
                    velocity_magnitude: p.velocity().magnitude(),
                    acceleration_magnitude: p.acceleration().magnitude(),
                    radius: p.radius(),
                    mass: p.mass(),
                    dt: self.physics.step_time(),
                }
            },
            None => CellContext {
                velocity_magnitude: Scalar { raw: 0 },
                acceleration_magnitude: Scalar { raw: 0 },
                radius: Scalar { raw: 0 },
                mass: Scalar { raw: SCALE },
                dt: self.physics.step_time(),
            },
        }
    }

    /// The arena position of the cell owning a particle: the one whose
    /// center or membrane ring carries the handle.
    fn owner_of(&self, h: ParticleHandle) -> (r: Option<usize>)
        requires
            self.wf(),
        ensures
            r matches Some(i) ==> i < self.cells.entries_seq().len(),
    {
        let n = self.cells.len();
        let mut i: usize = 0;
        while i < n
            invariant
                self.wf(),
                n == self.cells.entries_seq().len(),
                i <= n,
            decreases n - i,
        {
            let body = self.cells.nth(i);
            if body.center.same(&h) {
                return Some(i);
            }
            let m = body.particles.len();
            let mut j: usize = 0;
            while j < m
                invariant
                    self.wf(),
                    n == self.cells.entries_seq().len(),
                    i < n,
                    m == body.particles@.len(),
                    j <= m,
                decreases m - j,
            {
                if body.particles[j].same(&h) {
                    return Some(i);
                }
                j = j + 1;
            }
            i = i + 1;
        }
        None
    }

    /// Clears every cell's contact accumulators, then credits each
    /// contact the physics surfaced: both owning cells count it with
    /// its normal, and for a cell-to-cell contact energy flows per the
    /// absorption amounts and diffusion rates, symmetrically.
    fn process_contacts(&mut self)
        requires
            old(self).wf(),
        ensures
            final(self).wf(),
            *final(self) == (Simulator { cells: final(self).cells, ..*old(self) }),
            final(self).cells.entries_seq().len() == old(self).cells.entries_seq().len(),
    {
        let n = self.cells.len();
        let mut i: usize = 0;
        while i < n
            invariant
                old(self).wf(),
                self.wf(),
                n == old(self).cells.entries_seq().len(),
                i <= n,
                self.cells.entries_seq().len() == n,
                *self == (Simulator { cells: self.cells, ..*old(self) }),
            decreases n - i,
        {
            let ghost pre = self.cells;
            let body = self.cells.nth_mut(i);
            body.cell.reset_contacts();
            proof {
                assert forall|k: int|
                    0 <= k < self.cells.entries_seq().len() implies (
                #[trigger] self.cells.entries_seq()[k]).1.wf() by {
                    if k != i as int {
                        assert(self.cells.entries_seq()[k] == pre.entries_seq()[k]);
                    }
                }
            }
            i = i + 1;
        }
        let total = self.physics.contacts().len();
        let mut c: usize = 0;
        while c < total
            invariant
                old(self).wf(),
                self.wf(),
                total == old(self).physics.contacts@.len(),
                c <= total,
                self.cells.entries_seq().len() == old(self).cells.entries_seq().len(),
                *self == (Simulator { cells: self.cells, ..*old(self) }),
            decreases total - c,
        {
            let contact = self.physics.contacts[c];
            let oa = self.owner_of(contact.particle);
            let ob = self.owner_of(contact.segment_particle1);
            match (oa, ob) {
                (Some(ia), Some(ib)) => {
                    if ia != ib {
                        let dt = self.physics.step_time();
                        let zero = Scalar { raw: 0 };
                        let (gain_a, gain_b) = {
                            let ca = &self.cells.nth(ia).cell;
                            let cb = &self.cells.nth(ib).cell;
                            (
                                ca.contact_energy_absorption_amount.times(
                                    cb.energy_diffusion(),
                                ).times(dt).max(zero),
                                cb.contact_energy_absorption_amount.times(
                                    ca.energy_diffusion(),
                                ).times(dt).max(zero),
                            )
                        };
                        let ghost pre_a = self.cells;
                        {
                            let body = self.cells.nth_mut(ia);
                            body.cell.add_contact(contact.normal);
                            body.cell.absorb_energy(gain_a, gain_b);
                        }
                        proof {
                            assert forall|k: int|
                                0 <= k < self.cells.entries_seq().len() implies (
                            #[trigger] self.cells.entries_seq()[k]).1.wf() by {
                                if k != ia as int {
                                    assert(self.cells.entries_seq()[k]
                                        == pre_a.entries_seq()[k]);
                                }
                            }
                        }
                        let ghost pre_b = self.cells;
                        {
                            let body = self.cells.nth_mut(ib);
                            body.cell.add_contact(contact.normal.neg());
                            body.cell.absorb_energy(gain_b, gain_a);
                        }
                        proof {
                            assert forall|k: int|
                                0 <= k < self.cells.entries_seq().len() implies (
                            #[trigger] self.cells.entries_seq()[k]).1.wf() by {
                                if k != ib as int {
                                    assert(self.cells.entries_seq()[k]
                                        == pre_b.entries_seq()[k]);
                                }
                            }
                        }
                    }
                },
                _ => {
                },
            }
            c = c + 1;
        }
    }

    /// Ticks every cell in arena order, synchronises its center
    /// particle's radius and velocity, and collects the offspring of
    /// this tick's divisions with their spawn points.
    fn tick_cells(&mut self) -> (spawns: Vec<(Cell, V2)>)
        requires
            old(self).wf(),
        ensures
            final(self).wf(),
            *final(self) == (Simulator {
                physics: final(self).physics,
                cells: final(self).cells,
                ..*old(self)
            }),
            final(self).cells.entries_seq().len() == old(self).cells.entries_seq().len(),
            final(self).physics.step_time == old(self).physics.step_time,
            forall|k: int|
                0 <= k < spawns@.len() ==> (#[trigger] spawns@[k]).0.wf()
                    && spawns@[k].0.neurons.working_neurons <= 0xffff && 0
                    <= spawns@[k].1.x.raw <= MAX_WORLD_RAW && 0 <= spawns@[k].1.y.raw
                    <= MAX_WORLD_RAW,
    {
        let n = self.cells.len();
        let mut spawns: Vec<(Cell, V2)> = Vec::new();
        let mut i: usize = 0;
        while i < n
            invariant
                old(self).wf(),
                self.wf(),
                n == old(self).cells.entries_seq().len(),
                i <= n,
                self.cells.entries_seq().len() == n,
                *self == (Simulator {
                    physics: self.physics,
                    cells: self.cells,
                    ..*old(self)
                }),
                self.physics.step_time == old(self).physics.step_time,
                self.physics.world_size == old(self).physics.world_size,
                forall|k: int|
                    0 <= k < spawns@.len() ==> (#[trigger] spawns@[k]).0.wf()
                        && spawns@[k].0.neurons.working_neurons <= 0xffff && 0
                        <= spawns@[k].1.x.raw <= MAX_WORLD_RAW && 0 <= spawns@[k].1.y.raw
                        <= MAX_WORLD_RAW,
            decreases n - i,
        {
            let (ctx, center_h) = {
                let body = self.cells.nth(i);
                (self.cell_context(body), body.center)
            };
            let ghost pre = self.cells;
            {
                let body = self.cells.nth_mut(i);
                let _ = body.cell.update(&ctx);
            }
            proof {
                assert forall|k: int|
                    0 <= k < self.cells.entries_seq().len() implies (
                #[trigger] self.cells.entries_seq()[k]).1.wf() by {
                    if k != i as int {
                        assert(self.cells.entries_seq()[k] == pre.entries_seq()[k]);
                    }
                }
            }
            // synchronise the owning particle with the cell's intent
            let (radius, sync_velocity) = {
                let body = self.cells.nth(i);
                let vel = match self.physics.get_particle(center_h) {
                    Some(p) => p.velocity().plus(body.cell.movement_velocity).scale(
                        Scalar { raw: 500_000_000 },
                    ),
                    None => V2::zeros(),
                };
                (body.cell.radius(), vel)
            };
            match self.physics.get_particle_mut(center_h) {
                Some(p) => {
                    p.radius = radius;
                    let pos = p.position;
                    p.previous = pos.minus(sync_velocity);
                },
                None => {
                },
            }
            // a ready cell divides; the sibling spawns beside it
            let ready = {
                let body = self.cells.nth(i);
                body.cell.can_divide()
            };
            if ready {
                let spawn_center = match self.physics.get_particle(center_h) {
                    Some(p) => {
                        let shift = {
                            let body = self.cells.nth(i);
                            body.cell.size.plus(body.cell.size)
                        };
                        let raw = p.position().plus(V2::new(shift, Scalar { raw: 0 }));
                        // the sibling spawns beside the parent, kept
                        // inside the coordinate box spawning relies on
                        V2::new(
                            raw.x.clamp(Scalar { raw: 0 }, Scalar { raw: MAX_WORLD_RAW }),
                            raw.y.clamp(Scalar { raw: 0 }, Scalar { raw: MAX_WORLD_RAW }),
                        )
                    },
                    None => V2::zeros(),
                };
                let ghost pre2 = self.cells;
                let child = {
                    let body = self.cells.nth_mut(i);
                    body.cell.divide()
                };
                proof {
                    assert forall|k: int|
                        0 <= k < self.cells.entries_seq().len() implies (
                    #[trigger] self.cells.entries_seq()[k]).1.wf() by {
                        if k != i as int {
                            assert(self.cells.entries_seq()[k] == pre2.entries_seq()[k]);
                        }
                    }
                }
                spawns.push((child, spawn_center));
            }
            i = i + 1;
        }
        spawns
    }

    /// Removes every dead cell: its physics objects are released and
    /// its genome joins the rank under the fitness
    /// `(1 + produced + absorbed in) / (1 + consumed + absorbed out)`.
    /// The arena position of some dead cell, or nothing when every
    /// cell is alive.
    fn find_dead(&self) -> (r: Option<usize>)
        requires
            self.wf(),
        ensures
            match r {
                Some(d) => d < self.cells.entries_seq().len() && self.cells.entries_seq()[
                    d as int
                ].1.cell.is_dead_spec(),
                None => forall|i: int|
                    0 <= i < self.cells.entries_seq().len() ==> !(
                    #[trigger] self.cells.entries_seq()[i]).1.cell.is_dead_spec(),
            },
    {
        let n = self.cells.len();
        let mut i: usize = 0;
        while i < n
            invariant
                self.wf(),
                n == self.cells.entries_seq().len(),
                i <= n,
                forall|k: int|
                    0 <= k < i ==> !(#[trigger] self.cells.entries_seq()[k]).1.cell.is_dead_spec(),
            decreases n - i,
        {
            if self.cells.nth(i).cell.is_dead() {
                return Some(i);
            }
            i = i + 1;
        }
        None
    }

    fn reap_dead(&mut self)
        requires
            old(self).wf(),
        ensures
            final(self).wf(),
            *final(self) == (Simulator {
                physics: final(self).physics,
                cells: final(self).cells,
                rank: final(self).rank,
                ..*old(self)
            }),
            final(self).cells.entries_seq().len() <= old(self).cells.entries_seq().len(),
            final(self).physics.step_time == old(self).physics.step_time,
            // no dead cell survives the reaping
            forall|i: int|
                0 <= i < final(self).cells.entries_seq().len() ==> !(#[trigger] final(self).cells.entries_seq()[i]).1.cell.is_dead_spec(),
            // every removal left its genome in the rank
            final(self).cells.entries_seq().len() < old(self).cells.entries_seq().len() ==> final(self).rank.entries@.len() > 0,
    {
        loop
            invariant
                old(self).wf(),
                self.wf(),
                self.cells.entries_seq().len() <= old(self).cells.entries_seq().len(),
                self.physics.step_time == old(self).physics.step_time,
                self.cells.entries_seq().len() < old(self).cells.entries_seq().len()
                    ==> self.rank.entries@.len() > 0,
                *self == (Simulator {
                    physics: self.physics,
                    cells: self.cells,
                    rank: self.rank,
                    ..*old(self)
                }),
            decreases self.cells.entries_seq().len(),
        {
            let found = self.find_dead();
            match found {
                None => {
                    return ;
                },
                Some(d) => {
                    let handle: CellHandle = ObjectHandle::from_id(self.cells.nth_id(d));
                    proof {
                        self.cells.lemma_idx_is(handle.id, d as int);
                    }
                    match self.cells.remove(handle) {
                        Some(body) => {
                            let ghost cells_snap = self.cells;
                            let _ = self.physics.remove_particle(body.center);
                            let mp = body.particles.len();
                            let mut j: usize = 0;
                            while j < mp
                                invariant
                                    self.wf(),
                                    self.physics.step_time == old(self).physics.step_time,
                                    self.cells == cells_snap,
                                    mp == body.particles@.len(),
                                    j <= mp,
                                    *self == (Simulator {
                                        physics: self.physics,
                                        cells: self.cells,
                                        rank: self.rank,
                                        ..*old(self)
                                    }),
                                    self.cells.entries_seq().len() <= old(self).cells.entries_seq().len(),
                                decreases mp - j,
                            {
                                let _ = self.physics.remove_particle(body.particles[j]);
                                j = j + 1;
                            }
                            let ms = body.springs.len();
                            let mut k: usize = 0;
                            while k < ms
                                invariant
                                    self.wf(),
                                    self.physics.step_time == old(self).physics.step_time,
                                    self.cells == cells_snap,
                                    ms == body.springs@.len(),
                                    k <= ms,
                                    *self == (Simulator {
                                        physics: self.physics,
                                        cells: self.cells,
                                        rank: self.rank,
                                        ..*old(self)
                                    }),
                                    self.cells.entries_seq().len() <= old(self).cells.entries_seq().len(),
                                decreases ms - k,
                            {
                                let _ = self.physics.remove_spring(body.springs[k]);
                                k = k + 1;
                            }
                            let _ = self.physics.remove_collider(body.collider);
                            let mut builder = GenomeBuilder::new();
                            body.cell.write_genome(&mut builder);
                            let genome = builder.build();
                            let one = Scalar { raw: SCALE };
                            let positive = one.plus(body.cell.stats.energy_produced).plus(
                                body.cell.stats.energy_absorbed_in,
                            );
                            let mut negative = one.plus(body.cell.stats.energy_consumed).plus(
                                body.cell.stats.energy_absorbed_out,
                            );
                            if negative.raw <= 0 {
                                negative = one;
                            }
                            let fitness = positive.over(negative);
                            self.rank.insert(fitness, genome);
                            proof {
                                assert(self.rank.entries@.len() > 0);
                            }
                        },
                        None => {
                        },
                    }
                },
            }
        }
    }

    /// Refills the population to the configured minimum: while the rank
    /// holds genomes a new cell inherits from a crossover of two pooled
    /// samples, else a fresh random cell joins; stops early only when
    /// the id space or the world leaves no room.
    fn refill(&mut self)
        requires
            old(self).wf(),
        ensures
            final(self).wf(),
            *final(self) == (Simulator {
                physics: final(self).physics,
                cells: final(self).cells,
                rank_births: final(self).rank_births,
                rng: final(self).rng,
                ..*old(self)
            }),
            final(self).cells.entries_seq().len() >= old(self).min_cells || !final(self).can_spawn_spec() || !final(self).spawn_roomy_spec(),
            final(self).physics.step_time == old(self).physics.step_time,
            final(self).rank_births >= old(self).rank_births,
            final(self).cells.entries_seq().len() >= old(self).cells.entries_seq().len(),
            forall|i: int|
                0 <= i < old(self).cells.entries_seq().len() ==> #[trigger] final(self).cells.entries_seq()[i] == old(self).cells.entries_seq()[i],
            // while the rank holds genomes with at least two genes, every
            // refilled cell inherits a crossover, counted by rank_births
            (old(self).rank.entries@.len() > 0 && (forall|i: int|
                0 <= i < old(self).rank.entries@.len() ==> (
                #[trigger] old(self).rank.entries@[i]).1.genes@.len() >= 2)
                && old(self).rank_births + old(self).min_cells < u64::MAX) ==> final(self).rank_births - old(self).rank_births == final(self).cells.entries_seq().len() - old(self).cells.entries_seq().len(),
    {
        let ghost seeded = old(self).rank.entries@.len() > 0 && (forall|i: int|
            0 <= i < old(self).rank.entries@.len() ==> (
            #[trigger] old(self).rank.entries@[i]).1.genes@.len() >= 2) && old(self).rank_births
            + old(self).min_cells < u64::MAX;
        loop
            invariant
                old(self).wf(),
                self.wf(),
                self.physics.step_time == old(self).physics.step_time,
                self.rank_births >= old(self).rank_births,
                self.cells.entries_seq().len() >= old(self).cells.entries_seq().len(),
                forall|i: int|
                    0 <= i < old(self).cells.entries_seq().len()
                        ==> #[trigger] self.cells.entries_seq()[i] == old(self).cells.entries_seq()[i],
                seeded == (old(self).rank.entries@.len() > 0 && (forall|i: int|
                    0 <= i < old(self).rank.entries@.len() ==> (
                    #[trigger] old(self).rank.entries@[i]).1.genes@.len() >= 2) && old(self).rank_births + old(self).min_cells < u64::MAX),
                seeded ==> self.rank_births - old(self).rank_births
                    == self.cells.entries_seq().len() - old(self).cells.entries_seq().len(),
                seeded ==> self.cells.entries_seq().len() - old(self).cells.entries_seq().len()
                    <= old(self).min_cells,
                *self == (Simulator {
                    physics: self.physics,
                    cells: self.cells,
                    rank_births: self.rank_births,
                    rng: self.rng,
                    ..*old(self)
                }),
            decreases old(self).min_cells - self.cells.entries_seq().len(),
        {
            if self.cells.len() >= self.min_cells {
                return ;
            }
            if !(self.can_spawn() && self.spawn_roomy()) {
                return ;
            }
            let mut cell = self.random_cell();
            let mut from_rank = false;
            if self.rank.len() > 0 {
                let first = self.rank.choose_random_genome(&mut self.rng);
                let second = self.rank.choose_random_genome(&mut self.rng);
                match (first, second) {
                    (Some(g1), Some(g2)) => {
                        proof {
                            if seeded {
                                let w = choose|i: int|
                                    0 <= i < self.rank.entries@.len()
                                        && crate::genome::genome_matches(
                                        g1,
                                        (#[trigger] self.rank.entries@[i]).1,
                                    );
                                assert(self.rank.entries@[w].1.genes@.len() >= 2);
                            }
                        }
                        if g1.len() >= 2 {
                            proof {
                                crate::genome::lemma_merged_wf(g1.genes@, g2.genes@);
                            }
                            let crossed = g1.cross(&g2, &mut self.rng);
                            cell.inherit(&crossed);
                            from_rank = true;
                        }
                    },
                    _ => {
                    },
                }
            }
            proof {
                if seeded {
                    assert(from_rank);
                    assert(self.rank_births < u64::MAX);
                }
            }
            if from_rank && self.rank_births < u64::MAX {
                self.rank_births = self.rank_births + 1;
            }
            let ghost len0 = self.cells.entries_seq().len();
            let (center, velocity) = self.random_spawn_point();
            let _ = self.spawn_cell_body(cell, center, velocity);
            proof {
                assert(self.cells.entries_seq().len() == len0 + 1);
            }
        }
    }

    /// One full step: the physics advances, contacts are credited,
    /// every cell ticks and synchronises its body, the dead leave their
    /// genomes to the rank, this tick's offspring are embodied, the
    /// population is refilled to its floor, and the clock moves by the
    /// step time.  The returned ghost trace holds the state after the
    /// physics, after contact crediting, after the cell ticks, and
    /// after the reaping, so each phase's relation is visible.
    pub fn update(&mut self) -> (trace: Ghost<(Simulator, Simulator, Simulator, Simulator)>)
        requires
            old(self).wf(),
        ensures
            final(self).wf(),
            final(self).time.raw == fadd(
                old(self).time.raw as int,
                old(self).physics.step_time.raw as int,
            ),
            final(self).min_cells == old(self).min_cells,
            final(self).world_size == old(self).world_size,
            final(self).physics.step_time == old(self).physics.step_time,
            final(self).rank_births >= old(self).rank_births,
            // the population floor holds unless ids or room ran out
            final(self).cells.entries_seq().len() >= old(self).min_cells || !final(self).can_spawn_spec() || !final(self).spawn_roomy_spec(),
            // phase one: only the physics and the stream advance
            trace@.0 == (Simulator {
                physics: trace@.0.physics,
                rng: trace@.0.rng,
                ..*old(self)
            }),
            crate::engine::physics_update_rel(old(self).physics, trace@.0.physics),
            // phase two: contact crediting touches only the cells
            trace@.1 == (Simulator { cells: trace@.1.cells, ..trace@.0 }),
            trace@.1.cells.entries_seq().len() == trace@.0.cells.entries_seq().len(),
            // phase three: the ticks touch cells and their bodies
            trace@.2 == (Simulator {
                physics: trace@.2.physics,
                cells: trace@.2.cells,
                ..trace@.1
            }),
            trace@.2.cells.entries_seq().len() == trace@.1.cells.entries_seq().len(),
            // phase four: the reaping leaves no dead cell and pools every
            // removed genome
            trace@.3 == (Simulator {
                physics: trace@.3.physics,
                cells: trace@.3.cells,
                rank: trace@.3.rank,
                ..trace@.2
            }),
            trace@.3.cells.entries_seq().len() <= trace@.2.cells.entries_seq().len(),
            forall|i: int|
                0 <= i < trace@.3.cells.entries_seq().len() ==> !(#[trigger] trace@.3.cells.entries_seq()[i]).1.cell.is_dead_spec(),
            trace@.3.cells.entries_seq().len() < trace@.2.cells.entries_seq().len()
                ==> trace@.3.rank.entries@.len() > 0,
            // afterwards cells are only added: every reaped survivor
            // persists unchanged, so no dead cell of the reap boundary
            // reaches the final state
            final(self).cells.entries_seq().len() >= trace@.3.cells.entries_seq().len(),
            forall|i: int|
                0 <= i < trace@.3.cells.entries_seq().len() ==> #[trigger] final(self).cells.entries_seq()[i] == trace@.3.cells.entries_seq()[i],
    {
        self.physics.update(&mut self.rng);
        let ghost s1 = *self;
        self.process_contacts();
        let ghost s2 = *self;
        let mut spawns = self.tick_cells();
        let ghost s3 = *self;
        self.reap_dead();
        let ghost s4 = *self;
        loop
            invariant
                self.wf(),
                self.min_cells == old(self).min_cells,
                self.world_size == old(self).world_size,
                self.physics.step_time == old(self).physics.step_time,
                self.time == old(self).time,
                self.rank_births == s4.rank_births,
                self.cells.entries_seq().len() >= s4.cells.entries_seq().len(),
                forall|i: int|
                    0 <= i < s4.cells.entries_seq().len()
                        ==> #[trigger] self.cells.entries_seq()[i] == s4.cells.entries_seq()[i],
                forall|k: int|
                    0 <= k < spawns@.len() ==> (#[trigger] spawns@[k]).0.wf()
                        && spawns@[k].0.neurons.working_neurons <= 0xffff && 0
                        <= spawns@[k].1.x.raw <= MAX_WORLD_RAW && 0 <= spawns@[k].1.y.raw
                        <= MAX_WORLD_RAW,
            decreases spawns@.len(),
        {
            match spawns.pop() {
                Some((cell, center)) => {
                    if self.can_spawn() {
                        let _ = self.spawn_cell_body(cell, center, V2::zeros());
                    }
                },
                None => {
                    break ;
                },
            }
        }
        self.refill();
        let step = self.physics.step_time();
        self.time = self.time.plus(step);
        Ghost((s1, s2, s3, s4))
    }
}

} // verus!
