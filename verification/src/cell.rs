//! The cell: energy metabolism, contraction, locomotion and division.
//!
//! Each physics tick the cell snapshots its energy flow, feeds its
//! neural controller, and then spends energy in a strict order: basal
//! cost, contraction, movement, contact absorption, metabolism,
//! division accounting and the mortality timer.  Every step is pinned
//! by a relation between the cell before and after it; [`Cell::update`]
//! hands back a ghost trace of the intermediate states so that the
//! whole composition is visible to callers.

use vstd::prelude::*;

verus! {

use crate::neurons::{
    neurons_match, Neurons, IN_ACCELERATION_MAGNITUDE, IN_AGE, IN_CONTACT_COUNT,
    IN_CONTACT_ENERGY_ABSORPTION, IN_CONTACT_NORMAL, IN_CONTACT_NORMAL_MAGNITUDE,
    IN_DIVISION_ENERGY_RESERVE, IN_DIVISION_GROW_FACTOR, IN_ENERGY_AMOUNT, IN_ENERGY_DELTA,
    IN_ENERGY_STORED, IN_MOLECULES_PROPORTION, IN_MOLECULES_TOTAL, IN_MOVEMENT_DIRECTION,
    IN_MOVEMENT_SPEED, IN_MOVEMENT_VELOCITY, IN_MOVEMENT_VELOCITY_MAGNITUDE, IN_RADIUS,
    IN_VELOCITY_MAGNITUDE, IN_ZERO_ENERGY, NUM_MOLECULES, OUT_CONTACT_ENERGY_ABSORPTION,
    OUT_CONTRACTION_AMOUNT, OUT_DIVISION_ENERGY_RESERVE, OUT_ENERGY_METABOLISM,
    OUT_MOVEMENT_ANGULAR_SPEED, OUT_MOVEMENT_KINETIC_SPEED,
};
use crate::random::RandomSource;
use crate::scalar::{
    fadd, fdiv, fmul, fneg, fsub, lemma_fmul_mono, max_i, min_i, sc, Scalar, SCALE, TWO_PI_RAW,
};
use crate::transcend::{fcos, fexp, frelu, fsin};
use crate::vec2::{fmag, V2};

/// Raw value of the largest cell radius.
pub const MAX_RADIUS_RAW: i64 = 10 * SCALE;

/// Raw value of the largest movement speed.
pub const MAX_SPEED_RAW: i64 = 40 * SCALE;

/// Raw value of the largest energy a cell can hold.
pub const MAX_ENERGY_RAW: i64 = 1000 * SCALE;

/// Raw value of the energy level below which a cell counts as starving.
pub const ALIVE_THRESHOLD_RAW: i64 = 100_000_000;

/// Raw value of the time a cell survives on empty energy.
pub const MAX_ZERO_ENERGY_TIME_RAW: i64 = 60 * SCALE;

/// Raw value of the largest amount of one molecule.
pub const MAX_MOLECULE_AMOUNT_RAW: i64 = 100 * SCALE;

/// Raw value of the basal cost per working neuron per tick.
pub const NEURON_COST_RAW: i64 = 500;

/// Raw value of the movement cost coefficient.
pub const MOVEMENT_COST_RAW: i64 = 100_000;

/// Raw value of the contraction cost coefficient.
pub const CONTRACTION_COST_RAW: i64 = 100_000;

/// Raw value of the division cost coefficient.
pub const DIVISION_COST_RAW: i64 = 1_000_000;

/// Raw value of the angular step per unit of angular output: a
/// twentieth of pi.
pub const ANGULAR_STEP_RAW: i64 = 157_079_633;

/// Raw value of three halves.
pub const THREE_HALVES_RAW: i64 = 1_500_000_000;

/// Raw value of one half.
pub const HALF_RAW: i64 = 500_000_000;

/// Running energy-flow statistics of one cell.
#[derive(Clone, Copy, PartialEq, Eq, Structural, Debug)]
pub struct CellStats {
    pub energy_consumed: Scalar,
    pub energy_produced: Scalar,
    pub energy_absorbed_out: Scalar,
    pub energy_absorbed_in: Scalar,
}

impl CellStats {
    /// Fresh statistics, all zero.
    pub fn new() -> (r: CellStats)
        ensures
            r.energy_consumed.raw == 0,
            r.energy_produced.raw == 0,
            r.energy_absorbed_out.raw == 0,
            r.energy_absorbed_in.raw == 0,
    {
        CellStats {
            energy_consumed: Scalar { raw: 0 },
            energy_produced: Scalar { raw: 0 },
            energy_absorbed_out: Scalar { raw: 0 },
            energy_absorbed_in: Scalar { raw: 0 },
        }
    }
}

/// What the cell reads from its physics body each tick.
#[derive(Clone, Copy, PartialEq, Eq, Structural, Debug)]
pub struct CellContext {
    pub velocity_magnitude: Scalar,
    pub acceleration_magnitude: Scalar,
    pub radius: Scalar,
    pub mass: Scalar,
    pub dt: Scalar,
}

/// The cell's internal state.
#[derive(Debug)]
pub struct Cell {
    pub neurons: Neurons,
    pub age: Scalar,
    pub energy: Scalar,
    pub last_energy: Scalar,
    pub energy_delta: Scalar,
    pub stored_energy: Scalar,
    pub zero_energy_time: Scalar,
    pub zero_energy_limit: Scalar,
    pub molecules: Vec<Scalar>,
    pub molecules_energy_conversion: Vec<Scalar>,
    pub movement_direction: Scalar,
    pub movement_speed: Scalar,
    pub movement_speed_limit: Scalar,
    pub movement_velocity: V2,
    pub contraction_limit: Scalar,
    pub contraction_amount: Scalar,
    pub contact_energy_absorption_limit: Scalar,
    pub contact_energy_absorption_amount: Scalar,
    pub division_energy_reserve: Scalar,
    pub division_threshold: Scalar,
    pub division_grow_factor: Scalar,
    pub size: Scalar,
    pub contact_count: Scalar,
    pub contact_normal: V2,
    pub stats: CellStats,
}

/// The stored energy of a molecule vector under a conversion vector,
/// over the first `k` channels.
pub open spec fn stored_k(mols: Seq<Scalar>, conv: Seq<Scalar>, k: nat) -> int
    decreases k,
{
    if k == 0 {
        0
    } else {
        fadd(stored_k(mols, conv, (k - 1) as nat), fmul(mols[k - 1].raw as int, conv[k - 1].raw as int))
    }
}

/// Stored energy stays nonnegative for nonnegative molecule and
/// conversion vectors.
pub proof fn lemma_stored_k_nonneg(mols: Seq<Scalar>, conv: Seq<Scalar>, k: nat)
    requires
        k <= mols.len(),
        k <= conv.len(),
        forall|i: int| 0 <= i < mols.len() ==> (#[trigger] mols[i]).raw >= 0,
        forall|i: int| 0 <= i < conv.len() ==> (#[trigger] conv[i]).raw >= 0,
    ensures
        stored_k(mols, conv, k) >= 0,
    decreases k,
{
    if k > 0 {
        lemma_stored_k_nonneg(mols, conv, (k - 1) as nat);
        crate::transcend::lemma_fmul_nonneg(mols[k - 1].raw as int, conv[k - 1].raw as int);
    }
}

impl Cell {
    /// Structural soundness of the cell state.
    pub open spec fn wf(self) -> bool {
        &&& self.neurons.wf()
        &&& self.molecules@.len() == NUM_MOLECULES
        &&& self.molecules_energy_conversion@.len() == NUM_MOLECULES
        &&& forall|i: int| 0 <= i < NUM_MOLECULES ==> (#[trigger] self.molecules@[i]).raw >= 0
        &&& forall|i: int|
            0 <= i < NUM_MOLECULES ==> (#[trigger] self.molecules_energy_conversion@[i]).raw >= 0
        &&& self.energy.raw >= 0
        &&& self.stored_energy.raw >= 0
        &&& 0 <= self.contraction_amount.raw <= self.contraction_limit.raw
        &&& 0 <= self.contact_energy_absorption_amount.raw
            <= self.contact_energy_absorption_limit.raw
        &&& self.division_energy_reserve.raw >= 0
        &&& self.division_threshold.raw >= 0
        &&& 0 < self.division_grow_factor.raw <= SCALE
        &&& 0 < self.size.raw <= MAX_RADIUS_RAW
        &&& self.movement_speed_limit.raw >= 0
        &&& self.zero_energy_limit.raw > 0
        &&& self.zero_energy_time.raw >= 0
    }

    /// Whether the cell is dead: its energy and stores have fallen to
    /// the survival threshold, or it has starved for too long.
    pub open spec fn is_dead_spec(self) -> bool {
        fadd(self.energy.raw as int, self.stored_energy.raw as int)
            <= ALIVE_THRESHOLD_RAW as int || self.zero_energy_time.raw
            >= self.zero_energy_limit.raw
    }

    /// The energy a division costs: the cell's area times the division
    /// cost coefficient.
    pub open spec fn division_cost_spec(self) -> int {
        fmul(
            fmul(crate::scalar::PI_RAW as int, fmul(self.size.raw as int, self.size.raw as int)),
            DIVISION_COST_RAW as int,
        )
    }

    /// Whether the cell may divide this tick.
    pub open spec fn can_divide_spec(self) -> bool {
        &&& self.energy.raw >= self.division_cost_spec()
        &&& self.division_energy_reserve.raw >= self.division_threshold.raw
        &&& self.division_grow_factor.raw >= SCALE
    }

    /// The radius the membrane is currently contracted to.
    pub open spec fn contracted_size_spec(self) -> int {
        fmul(self.size.raw as int, fsub(sc(), self.contraction_amount.raw as int))
    }

    /// The rate the cell releases energy to contact partners: a sigmoid
    /// in its own absorption amount, scaled by its energy.
    pub open spec fn energy_diffusion_spec(self) -> int {
        fmul(
            self.energy.raw as int,
            fsub(
                fdiv(
                    THREE_HALVES_RAW as int,
                    fadd(
                        sc(),
                        fexp(fneg(fmul(5 * sc(), self.contact_energy_absorption_amount.raw as int))),
                    ),
                ),
                HALF_RAW as int,
            ),
        )
    }

    /// A freshly drawn cell: unit energy, a random membrane size, random
    /// molecule stores and conversion rates, random behavioural limits,
    /// and a random controller.
    pub fn random(rng: &mut RandomSource) -> (r: Cell)
        ensures
            r.wf(),
            r.age.raw == 0,
            r.energy.raw == SCALE,
            r.zero_energy_time.raw == 0,
            !r.is_dead_spec(),
    {
        let neurons = Neurons::random(rng);
        let mut molecules: Vec<Scalar> = Vec::new();
        let mut conversion: Vec<Scalar> = Vec::new();
        let mut i: usize = 0;
        while i < NUM_MOLECULES
            invariant
                i <= NUM_MOLECULES,
                molecules@.len() == i,
                conversion@.len() == i,
                forall|k: int| 0 <= k < i ==> (#[trigger] molecules@[k]).raw >= 0,
                forall|k: int| 0 <= k < i ==> (#[trigger] conversion@[k]).raw >= 0,
            decreases NUM_MOLECULES - i,
        {
            molecules.push(
                rng.in_range(Scalar { raw: 0 }, Scalar { raw: MAX_MOLECULE_AMOUNT_RAW }),
            );
            conversion.push(rng.in_range(Scalar { raw: 0 }, Scalar { raw: SCALE }));
            i = i + 1;
        }
        let size_factor = rng.in_range(Scalar { raw: 100_000_000 }, Scalar { raw: SCALE });
        let size = size_factor.times(Scalar { raw: MAX_RADIUS_RAW });
        proof {
            lemma_fmul_mono(100_000_000, size_factor.raw as int, MAX_RADIUS_RAW as int);
            lemma_fmul_mono(size_factor.raw as int, sc(), MAX_RADIUS_RAW as int);
        }
        let contraction_limit = rng.in_range(Scalar { raw: 0 }, Scalar { raw: SCALE });
        let speed_limit = rng.in_range(Scalar { raw: 0 }, Scalar { raw: MAX_SPEED_RAW });
        let absorption_limit = rng.in_range(Scalar { raw: 0 }, Scalar { raw: SCALE });
        let threshold = rng.in_range(Scalar { raw: SCALE }, Scalar { raw: 100 * SCALE });
        let mut c = Cell {
            neurons,
            age: Scalar { raw: 0 },
            energy: Scalar { raw: SCALE },
            last_energy: Scalar { raw: SCALE },
            energy_delta: Scalar { raw: 0 },
            stored_energy: Scalar { raw: 0 },
            zero_energy_time: Scalar { raw: 0 },
            zero_energy_limit: Scalar { raw: MAX_ZERO_ENERGY_TIME_RAW },
            molecules,
            molecules_energy_conversion: conversion,
            movement_direction: Scalar { raw: 0 },
            movement_speed: Scalar { raw: 0 },
            movement_speed_limit: speed_limit,
            movement_velocity: V2::zeros(),
            contraction_limit,
            contraction_amount: Scalar { raw: 0 },
            contact_energy_absorption_limit: absorption_limit,
            contact_energy_absorption_amount: Scalar { raw: 0 },
            division_energy_reserve: Scalar { raw: 0 },
            division_threshold: threshold,
            division_grow_factor: Scalar { raw: SCALE },
            size,
            contact_count: Scalar { raw: 0 },
            contact_normal: V2::zeros(),
            stats: CellStats::new(),
        };
        let stored = c.compute_stored_energy();
        c.stored_energy = stored;
        proof {
            lemma_stored_k_nonneg(
                c.molecules@,
                c.molecules_energy_conversion@,
                NUM_MOLECULES as nat,
            );
        }
        c
    }

    /// The membrane radius the cell currently presents.
    pub fn radius(&self) -> (r: Scalar)
        ensures
            r.raw == self.contracted_size_spec(),
    {
        self.size.times(Scalar::one().minus(self.contraction_amount))
    }

    /// Whether the cell is dead.
    pub fn is_dead(&self) -> (r: bool)
        ensures
            r == self.is_dead_spec(),
    {
        self.energy.plus(self.stored_energy).le(Scalar { raw: ALIVE_THRESHOLD_RAW })
            || self.zero_energy_time.ge(self.zero_energy_limit)
    }

    /// Whether the cell may divide this tick.
    pub fn can_divide(&self) -> (r: bool)
        ensures
            r == self.can_divide_spec(),
    {
        let cost = Scalar { raw: crate::scalar::PI_RAW }.times(self.size.times(self.size)).times(
            Scalar { raw: DIVISION_COST_RAW },
        );
        self.energy.ge(cost) && self.division_energy_reserve.ge(self.division_threshold)
            && self.division_grow_factor.ge(Scalar { raw: SCALE })
    }

    /// The stored energy of the current molecule vector.
    fn compute_stored_energy(&self) -> (r: Scalar)
        requires
            self.molecules@.len() == NUM_MOLECULES,
            self.molecules_energy_conversion@.len() == NUM_MOLECULES,
        ensures
            r.raw == stored_k(
                self.molecules@,
                self.molecules_energy_conversion@,
                NUM_MOLECULES as nat,
            ),
    {
        let mut acc = Scalar { raw: 0 };
        let mut i: usize = 0;
        while i < NUM_MOLECULES
            invariant
                self.molecules@.len() == NUM_MOLECULES,
                self.molecules_energy_conversion@.len() == NUM_MOLECULES,
                i <= NUM_MOLECULES,
                acc.raw as int == stored_k(
                    self.molecules@,
                    self.molecules_energy_conversion@,
                    i as nat,
                ),
            decreases NUM_MOLECULES - i,
        {
            acc = acc.plus(self.molecules[i].times(self.molecules_energy_conversion[i]));
            i = i + 1;
        }
        acc
    }

    /// Adds one contact's normal to the tick's accumulators.
    pub fn add_contact(&mut self, normal: V2)
        ensures
            final(self).contact_count.raw == fadd(old(self).contact_count.raw as int, sc()),
            final(self).contact_normal.x.raw == fadd(
                old(self).contact_normal.x.raw as int,
                normal.x.raw as int,
            ),
            final(self).contact_normal.y.raw == fadd(
                old(self).contact_normal.y.raw as int,
                normal.y.raw as int,
            ),
            *final(self) == (Cell {
                contact_count: final(self).contact_count,
                contact_normal: final(self).contact_normal,
                ..*old(self)
            }),
    {
        self.contact_count = self.contact_count.plus(Scalar { raw: SCALE });
        self.contact_normal = self.contact_normal.plus(normal);
    }

    /// Clears the contact accumulators for a new tick.
    pub fn reset_contacts(&mut self)
        ensures
            final(self).contact_count.raw == 0,
            final(self).contact_normal.x.raw == 0 && final(self).contact_normal.y.raw == 0,
            *final(self) == (Cell {
                contact_count: final(self).contact_count,
                contact_normal: final(self).contact_normal,
                ..*old(self)
            }),
    {
        self.contact_count = Scalar { raw: 0 };
        self.contact_normal = V2::zeros();
    }

    /// Credits and debits one tick's contact energy exchange: the cell
    /// gains what it absorbed from its partners and loses what they
    /// drew, with the result clamped into the representable energy
    /// range.
    pub fn absorb_energy(&mut self, gained: Scalar, lost: Scalar)
        requires
            old(self).wf(),
            gained.raw >= 0,
            lost.raw >= 0,
        ensures
            final(self).wf(),
            final(self).energy.raw == if fadd(
                old(self).energy.raw as int,
                fsub(gained.raw as int, lost.raw as int),
            ) < 0 {
                0int
            } else if fadd(old(self).energy.raw as int, fsub(gained.raw as int, lost.raw as int))
                > MAX_ENERGY_RAW as int {
                MAX_ENERGY_RAW as int
            } else {
                fadd(old(self).energy.raw as int, fsub(gained.raw as int, lost.raw as int))
            },
            final(self).stats.energy_absorbed_in.raw == fadd(
                old(self).stats.energy_absorbed_in.raw as int,
                gained.raw as int,
            ),
            final(self).stats.energy_absorbed_out.raw == fadd(
                old(self).stats.energy_absorbed_out.raw as int,
                lost.raw as int,
            ),
            *final(self) == (Cell {
                energy: final(self).energy,
                stats: final(self).stats,
                ..*old(self)
            }),
    {
        let net = gained.minus(lost);
        self.energy = self.energy.plus(net).clamp(
            Scalar { raw: 0 },
            Scalar { raw: MAX_ENERGY_RAW },
        );
        self.stats.energy_absorbed_in = self.stats.energy_absorbed_in.plus(gained);
        self.stats.energy_absorbed_out = self.stats.energy_absorbed_out.plus(lost);
    }

    /// The rate the cell releases energy to contact partners.
    pub fn energy_diffusion(&self) -> (r: Scalar)
        ensures
            r.raw == self.energy_diffusion_spec(),
    {
        let a = Scalar { raw: 5 * SCALE }.times(self.contact_energy_absorption_amount);
        let denom = Scalar { raw: SCALE }.plus(a.neg().exp());
        proof {
            crate::transcend::lemma_fexp_nonneg(fneg(fmul(
                5 * sc(),
                self.contact_energy_absorption_amount.raw as int,
            )));
        }
        let rate = Scalar { raw: THREE_HALVES_RAW }.over(denom).minus(Scalar { raw: HALF_RAW });
        self.energy.times(rate)
    }

    /// Empties the cell of energy and molecules, so that it is reported
    /// dead at the next reconciliation.
    pub fn deplete(&mut self)
        requires
            old(self).wf(),
        ensures
            final(self).wf(),
            final(self).energy.raw == 0,
            final(self).stored_energy.raw == 0,
            final(self).is_dead_spec(),
    {
        self.energy = Scalar { raw: 0 };
        let n = self.molecules.len();
        let mut i: usize = 0;
        while i < n
            invariant
                n == self.molecules@.len(),
                i <= n,
                forall|k: int| 0 <= k < i ==> (#[trigger] self.molecules@[k]).raw == 0,
                *self == (Cell { energy: self.energy, molecules: self.molecules, ..*old(self) }),
                self.energy.raw == 0,
            decreases n - i,
        {
            let slot = &mut self.molecules[i];
            *slot = Scalar { raw: 0 };
            i = i + 1;
        }
        self.stored_energy = Scalar { raw: 0 };
    }
}

/// Shorthand for one raw neural output of a processed cell.
pub open spec fn out(c: Cell, k: int) -> int {
    c.neurons.output_layer.outputs@[k].raw as int
}

/// Total molecule amount over the first `k` channels.
pub open spec fn mol_total_k(mols: Seq<Scalar>, k: nat) -> int
    decreases k,
{
    if k == 0 {
        0
    } else {
        fadd(mol_total_k(mols, (k - 1) as nat), mols[k - 1].raw as int)
    }
}

/// Step one: snapshot the energy delta, roll the last-energy marker,
/// advance the age.
pub open spec fn snapshot_rel(pre: Cell, post: Cell, dt: int) -> bool {
    &&& post == (Cell {
        energy_delta: post.energy_delta,
        last_energy: post.last_energy,
        age: post.age,
        ..pre
    })
    &&& post.energy_delta.raw == fsub(pre.energy.raw as int, pre.last_energy.raw as int)
    &&& post.last_energy == pre.energy
    &&& post.age.raw == fadd(pre.age.raw as int, dt)
}

/// The input buffer the controller sees, slot by slot.
pub open spec fn cell_inputs_spec(c: Cell, ctx: CellContext) -> Seq<Scalar> {
    c.neurons.inputs@.update(IN_VELOCITY_MAGNITUDE as int, ctx.velocity_magnitude).update(
        IN_ACCELERATION_MAGNITUDE as int,
        ctx.acceleration_magnitude,
    ).update(IN_RADIUS as int, ctx.radius).update(IN_AGE as int, c.age).update(
        IN_ENERGY_AMOUNT as int,
        c.energy,
    ).update(IN_ENERGY_STORED as int, c.stored_energy).update(
        IN_ENERGY_DELTA as int,
        c.energy_delta,
    ).update(IN_ZERO_ENERGY as int, c.zero_energy_time).update(
        IN_DIVISION_ENERGY_RESERVE as int,
        c.division_energy_reserve,
    ).update(IN_DIVISION_GROW_FACTOR as int, c.division_grow_factor).update(
        IN_MOLECULES_PROPORTION as int,
        Scalar { raw: fdiv(c.molecules@[0].raw as int, MAX_MOLECULE_AMOUNT_RAW as int) as i64 },
    ).update(
        IN_MOLECULES_PROPORTION as int + 1,
        Scalar { raw: fdiv(c.molecules@[1].raw as int, MAX_MOLECULE_AMOUNT_RAW as int) as i64 },
    ).update(
        IN_MOLECULES_PROPORTION as int + 2,
        Scalar { raw: fdiv(c.molecules@[2].raw as int, MAX_MOLECULE_AMOUNT_RAW as int) as i64 },
    ).update(
        IN_MOLECULES_PROPORTION as int + 3,
        Scalar { raw: fdiv(c.molecules@[3].raw as int, MAX_MOLECULE_AMOUNT_RAW as int) as i64 },
    ).update(
        IN_MOLECULES_PROPORTION as int + 4,
        Scalar { raw: fdiv(c.molecules@[4].raw as int, MAX_MOLECULE_AMOUNT_RAW as int) as i64 },
    ).update(
        IN_MOLECULES_PROPORTION as int + 5,
        Scalar { raw: fdiv(c.molecules@[5].raw as int, MAX_MOLECULE_AMOUNT_RAW as int) as i64 },
    ).update(
        IN_MOLECULES_PROPORTION as int + 6,
        Scalar { raw: fdiv(c.molecules@[6].raw as int, MAX_MOLECULE_AMOUNT_RAW as int) as i64 },
    ).update(
        IN_MOLECULES_PROPORTION as int + 7,
        Scalar { raw: fdiv(c.molecules@[7].raw as int, MAX_MOLECULE_AMOUNT_RAW as int) as i64 },
    ).update(
        IN_MOLECULES_TOTAL as int,
        Scalar { raw: mol_total_k(c.molecules@, NUM_MOLECULES as nat) as i64 },
    ).update(IN_MOVEMENT_DIRECTION as int, c.movement_direction).update(
        IN_MOVEMENT_SPEED as int,
        c.movement_speed,
    ).update(IN_MOVEMENT_VELOCITY as int, c.movement_velocity.x).update(
        IN_MOVEMENT_VELOCITY as int + 1,
        c.movement_velocity.y,
    ).update(
        IN_MOVEMENT_VELOCITY_MAGNITUDE as int,
        Scalar {
            raw: fmag(c.movement_velocity.x.raw as int, c.movement_velocity.y.raw as int) as i64,
        },
    ).update(
        IN_CONTACT_ENERGY_ABSORPTION as int,
        c.contact_energy_absorption_amount,
    ).update(IN_CONTACT_COUNT as int, c.contact_count).update(
        IN_CONTACT_NORMAL as int,
        c.contact_normal.x,
    ).update(IN_CONTACT_NORMAL as int + 1, c.contact_normal.y).update(
        IN_CONTACT_NORMAL_MAGNITUDE as int,
        Scalar { raw: fmag(c.contact_normal.x.raw as int, c.contact_normal.y.raw as int) as i64 },
    )
}

/// Step two: the sensor slots are filled from the context and the
/// cell's own state.
pub open spec fn inputs_rel(pre: Cell, post: Cell, ctx: CellContext) -> bool {
    &&& post == (Cell { neurons: post.neurons, ..pre })
    &&& post.neurons == (Neurons { inputs: post.neurons.inputs, ..pre.neurons })
    &&& post.neurons.inputs@ == cell_inputs_spec(pre, ctx)
}

/// Step three: the forward pass fills the output buffer.
pub open spec fn process_rel(pre: Cell, post: Cell) -> bool {
    &&& post == (Cell { neurons: post.neurons, ..pre })
    &&& post.neurons.inputs == pre.neurons.inputs
    &&& post.neurons.working_neurons == pre.neurons.working_neurons
    &&& post.neurons.output_layer.outputs@ == pre.neurons.forward(pre.neurons.inputs@)
    &&& post.neurons.wf()
}

/// Step four: the basal cost of the working neurons is paid, capped at
/// the available energy.
pub open spec fn basal_rel(pre: Cell, post: Cell) -> bool {
    let basal = pre.neurons.working_neurons as int * NEURON_COST_RAW as int;
    let cost = min_i(pre.energy.raw as int, basal);
    &&& post == (Cell { energy: post.energy, stats: post.stats, ..pre })
    &&& post.energy.raw == fsub(pre.energy.raw as int, cost)
    &&& post.stats == (CellStats {
        energy_consumed: post.stats.energy_consumed,
        ..pre.stats
    })
    &&& post.stats.energy_consumed.raw == fadd(pre.stats.energy_consumed.raw as int, cost)
}

/// Step five: if the upkeep of the current contraction is affordable it
/// is paid and the contraction follows the controller, clamped to the
/// cell's limit.
pub open spec fn contraction_rel(pre: Cell, post: Cell, dt: int) -> bool {
    let cost = fmul(fmul(pre.contraction_amount.raw as int, CONTRACTION_COST_RAW as int), dt);
    if cost <= pre.energy.raw as int {
        &&& post == (Cell {
            energy: post.energy,
            stats: post.stats,
            contraction_amount: post.contraction_amount,
            ..pre
        })
        &&& post.energy.raw == fsub(pre.energy.raw as int, cost)
        &&& post.stats == (CellStats {
            energy_consumed: post.stats.energy_consumed,
            ..pre.stats
        })
        &&& post.stats.energy_consumed.raw == fadd(pre.stats.energy_consumed.raw as int, cost)
        &&& post.contraction_amount.raw == if out(pre, OUT_CONTRACTION_AMOUNT as int) < 0 {
            0int
        } else if out(pre, OUT_CONTRACTION_AMOUNT as int) > pre.contraction_limit.raw as int {
            pre.contraction_limit.raw as int
        } else {
            out(pre, OUT_CONTRACTION_AMOUNT as int)
        }
    } else {
        post == pre
    }
}

/// Step six: the controller steers and accelerates; if the kinetic cost
/// is affordable the heading and speed are adopted and the intended
/// velocity is the speed rotated onto the heading, else the cell coasts.
pub open spec fn movement_rel(pre: Cell, post: Cell, ctx: CellContext) -> bool {
    let target = fadd(
        pre.movement_direction.raw as int,
        fmul(out(pre, OUT_MOVEMENT_ANGULAR_SPEED as int), ANGULAR_STEP_RAW as int),
    );
    let speed = fmul(
        frelu(out(pre, OUT_MOVEMENT_KINETIC_SPEED as int)),
        pre.movement_speed_limit.raw as int,
    );
    let cost = fmul(
        fmul(
            fmul(fmul(fmul(HALF_RAW as int, ctx.mass.raw as int), speed), speed),
            MOVEMENT_COST_RAW as int,
        ),
        ctx.dt.raw as int,
    );
    if cost <= pre.energy.raw as int {
        let wrapped = target % (TWO_PI_RAW as int);
        &&& post == (Cell {
            energy: post.energy,
            stats: post.stats,
            movement_direction: post.movement_direction,
            movement_speed: post.movement_speed,
            movement_velocity: post.movement_velocity,
            ..pre
        })
        &&& post.energy.raw == fsub(pre.energy.raw as int, cost)
        &&& post.stats == (CellStats {
            energy_consumed: post.stats.energy_consumed,
            ..pre.stats
        })
        &&& post.stats.energy_consumed.raw == fadd(pre.stats.energy_consumed.raw as int, cost)
        &&& post.movement_direction.raw == wrapped
        &&& post.movement_speed.raw == speed
        &&& post.movement_velocity.x.raw == fmul(speed, fcos(wrapped))
        &&& post.movement_velocity.y.raw == fneg(fmul(speed, fsin(wrapped)))
    } else {
        &&& post == (Cell {
            movement_speed: post.movement_speed,
            movement_velocity: post.movement_velocity,
            ..pre
        })
        &&& post.movement_speed.raw == 0
        &&& post.movement_velocity.x.raw == 0
        &&& post.movement_velocity.y.raw == 0
    }
}

/// Step seven: the contact absorption amount follows the controller at
/// a bounded rate, clamped to the cell's limit.
pub open spec fn absorption_rel(pre: Cell, post: Cell, dt: int) -> bool {
    let moved = fadd(
        pre.contact_energy_absorption_amount.raw as int,
        fmul(out(pre, OUT_CONTACT_ENERGY_ABSORPTION as int), dt),
    );
    &&& post == (Cell { contact_energy_absorption_amount: post.contact_energy_absorption_amount, ..pre })
    &&& post.contact_energy_absorption_amount.raw == if moved < 0 {
        0int
    } else if moved > pre.contact_energy_absorption_limit.raw as int {
        pre.contact_energy_absorption_limit.raw as int
    } else {
        moved
    }
}

/// The molecule amount channel `i` spends this tick toward energy.
pub open spec fn met_src(pre: Cell, dt: int, i: int) -> int {
    min_i(
        fmul(max_i(out(pre, OUT_ENERGY_METABOLISM as int + i), 0), dt),
        pre.molecules@[i].raw as int,
    )
}

/// The molecule amount channel `i` asks to synthesise this tick.
pub open spec fn met_prod(pre: Cell, dt: int, i: int) -> int {
    fmul(max_i(fneg(out(pre, OUT_ENERGY_METABOLISM as int + i)), 0), dt)
}

/// Energy produced over the first `k` channels.
pub open spec fn met_produced_k(pre: Cell, dt: int, k: nat) -> int
    decreases k,
{
    if k == 0 {
        0
    } else {
        fadd(
            met_produced_k(pre, dt, (k - 1) as nat),
            fmul(met_src(pre, dt, k - 1), pre.molecules_energy_conversion@[k - 1].raw as int),
        )
    }
}

/// Energy required by synthesis over the first `k` channels.
pub open spec fn met_required_k(pre: Cell, dt: int, k: nat) -> int
    decreases k,
{
    if k == 0 {
        0
    } else {
        fadd(
            met_required_k(pre, dt, (k - 1) as nat),
            fmul(met_prod(pre, dt, k - 1), pre.molecules_energy_conversion@[k - 1].raw as int),
        )
    }
}

/// The energy available after production, capped at the maximum.
pub open spec fn met_energy_mid(pre: Cell, dt: int) -> int {
    min_i(
        fadd(pre.energy.raw as int, met_produced_k(pre, dt, NUM_MOLECULES as nat)),
        MAX_ENERGY_RAW as int,
    )
}

/// The synthesis scale: unity, or the affordable fraction when the
/// demanded energy exceeds the available energy.
pub open spec fn met_scale(pre: Cell, dt: int) -> int {
    let required = met_required_k(pre, dt, NUM_MOLECULES as nat);
    if required > met_energy_mid(pre, dt) {
        fdiv(met_energy_mid(pre, dt), required)
    } else {
        sc()
    }
}

/// The molecule level of channel `i` after the tick's metabolism.
pub open spec fn met_mol(pre: Cell, dt: int, i: int) -> int {
    fadd(
        fsub(pre.molecules@[i].raw as int, met_src(pre, dt, i)),
        fmul(met_prod(pre, dt, i), met_scale(pre, dt)),
    )
}

/// Energy actually paid for synthesis over the first `k` channels.
pub open spec fn met_paid_k(pre: Cell, dt: int, k: nat) -> int
    decreases k,
{
    if k == 0 {
        0
    } else {
        fadd(
            met_paid_k(pre, dt, (k - 1) as nat),
            fmul(
                fmul(met_prod(pre, dt, k - 1), met_scale(pre, dt)),
                pre.molecules_energy_conversion@[k - 1].raw as int,
            ),
        )
    }
}

/// Step eight: each channel's positive output burns molecules into
/// energy and its negative output synthesises molecules from energy;
/// synthesis is scaled down to what the cell can afford, and the energy
/// paid is capped at what is there.
pub open spec fn metabolism_rel(pre: Cell, post: Cell, dt: int) -> bool {
    let produced = met_produced_k(pre, dt, NUM_MOLECULES as nat);
    let e_mid = met_energy_mid(pre, dt);
    let paid = min_i(met_paid_k(pre, dt, NUM_MOLECULES as nat), e_mid);
    &&& post == (Cell {
        energy: post.energy,
        molecules: post.molecules,
        stored_energy: post.stored_energy,
        stats: post.stats,
        ..pre
    })
    &&& post.molecules@.len() == NUM_MOLECULES
    &&& forall|i: int|
        0 <= i < NUM_MOLECULES ==> (#[trigger] post.molecules@[i]).raw == met_mol(pre, dt, i)
    &&& post.energy.raw == fsub(e_mid, paid)
    &&& post.stored_energy.raw == stored_k(
        post.molecules@,
        pre.molecules_energy_conversion@,
        NUM_MOLECULES as nat,
    )
    &&& post.stats == (CellStats { energy_produced: post.stats.energy_produced, ..pre.stats })
    &&& post.stats.energy_produced.raw == fadd(
        pre.stats.energy_produced.raw as int,
        produced,
    )
}

/// Step nine: energy shifts between the division reserve and the pool,
/// bounded by the reserve, the pool and the threshold; the grow factor
/// advances toward one.
pub open spec fn division_acct_rel(pre: Cell, post: Cell, dt: int) -> bool {
    let raw_delta = fmul(out(pre, OUT_DIVISION_ENERGY_RESERVE as int), dt);
    let lo = -(pre.division_energy_reserve.raw as int);
    let hi = min_i(
        pre.energy.raw as int,
        fsub(pre.division_threshold.raw as int, pre.division_energy_reserve.raw as int),
    );
    let delta = if raw_delta < lo {
        lo
    } else if raw_delta > hi {
        hi
    } else {
        raw_delta
    };
    &&& post == (Cell {
        energy: post.energy,
        division_energy_reserve: post.division_energy_reserve,
        division_grow_factor: post.division_grow_factor,
        ..pre
    })
    &&& post.energy.raw == fsub(pre.energy.raw as int, delta)
    &&& post.division_energy_reserve.raw == fadd(pre.division_energy_reserve.raw as int, delta)
    &&& post.division_grow_factor.raw == min_i(
        sc(),
        fadd(pre.division_grow_factor.raw as int, dt),
    )
}

/// Step ten: the starvation timer advances while energy sits at the
/// survival threshold and resets otherwise.
pub open spec fn mortality_rel(pre: Cell, post: Cell, dt: int) -> bool {
    &&& post == (Cell { zero_energy_time: post.zero_energy_time, ..pre })
    &&& post.zero_energy_time.raw == if pre.energy.raw <= ALIVE_THRESHOLD_RAW {
        fadd(pre.zero_energy_time.raw as int, dt)
    } else {
        0int
    }
}


/// Energy produced by metabolism is nonnegative.
pub proof fn lemma_met_produced_nonneg(pre: Cell, dt: int, k: nat)
    requires
        pre.wf(),
        dt > 0,
        k <= NUM_MOLECULES,
    ensures
        met_produced_k(pre, dt, k) >= 0,
    decreases k,
{
    if k > 0 {
        lemma_met_produced_nonneg(pre, dt, (k - 1) as nat);
        crate::transcend::lemma_fmul_nonneg(max_i(out(pre, OUT_ENERGY_METABOLISM as int + k - 1), 0), dt);
        crate::transcend::lemma_fmul_nonneg(
            met_src(pre, dt, k - 1),
            pre.molecules_energy_conversion@[k - 1].raw as int,
        );
    }
}

/// Energy required by synthesis is nonnegative.
pub proof fn lemma_met_required_nonneg(pre: Cell, dt: int, k: nat)
    requires
        pre.wf(),
        dt > 0,
        k <= NUM_MOLECULES,
    ensures
        met_required_k(pre, dt, k) >= 0,
    decreases k,
{
    if k > 0 {
        lemma_met_required_nonneg(pre, dt, (k - 1) as nat);
        crate::transcend::lemma_fmul_nonneg(
            max_i(fneg(out(pre, OUT_ENERGY_METABOLISM as int + k - 1)), 0),
            dt,
        );
        crate::transcend::lemma_fmul_nonneg(
            met_prod(pre, dt, k - 1),
            pre.molecules_energy_conversion@[k - 1].raw as int,
        );
    }
}

/// Energy paid for synthesis is nonnegative.
pub proof fn lemma_met_paid_nonneg(pre: Cell, dt: int, k: nat)
    requires
        pre.wf(),
        dt > 0,
        k <= NUM_MOLECULES,
        met_scale(pre, dt) >= 0,
    ensures
        met_paid_k(pre, dt, k) >= 0,
    decreases k,
{
    if k > 0 {
        lemma_met_paid_nonneg(pre, dt, (k - 1) as nat);
        crate::transcend::lemma_fmul_nonneg(
            max_i(fneg(out(pre, OUT_ENERGY_METABOLISM as int + k - 1)), 0),
            dt,
        );
        crate::transcend::lemma_fmul_nonneg(met_prod(pre, dt, k - 1), met_scale(pre, dt));
        crate::transcend::lemma_fmul_nonneg(
            fmul(met_prod(pre, dt, k - 1), met_scale(pre, dt)),
            pre.molecules_energy_conversion@[k - 1].raw as int,
        );
    }
}

impl Cell {
    /// Step one of the tick.
    fn step_snapshot(&mut self, dt: Scalar)
        requires
            old(self).wf(),
        ensures
            final(self).wf(),
            snapshot_rel(*old(self), *final(self), dt.raw as int),
    {
        self.energy_delta = self.energy.minus(self.last_energy);
        self.last_energy = self.energy;
        self.age = self.age.plus(dt);
    }

    /// Step two of the tick.
    fn step_fill_inputs(&mut self, ctx: &CellContext)
        requires
            old(self).wf(),
        ensures
            final(self).wf(),
            inputs_rel(*old(self), *final(self), *ctx),
    {
        let mol_total = {
            let mut acc = Scalar { raw: 0 };
            let mut i: usize = 0;
            while i < NUM_MOLECULES
                invariant
                    self.wf(),
                    i <= NUM_MOLECULES,
                    acc.raw as int == mol_total_k(self.molecules@, i as nat),
                decreases NUM_MOLECULES - i,
            {
                acc = acc.plus(self.molecules[i]);
                i = i + 1;
            }
            acc
        };
        let max_mol = Scalar { raw: MAX_MOLECULE_AMOUNT_RAW };
        self.neurons.set_input(IN_VELOCITY_MAGNITUDE, ctx.velocity_magnitude);
        self.neurons.set_input(IN_ACCELERATION_MAGNITUDE, ctx.acceleration_magnitude);
        self.neurons.set_input(IN_RADIUS, ctx.radius);
        self.neurons.set_input(IN_AGE, self.age);
        self.neurons.set_input(IN_ENERGY_AMOUNT, self.energy);
        self.neurons.set_input(IN_ENERGY_STORED, self.stored_energy);
        self.neurons.set_input(IN_ENERGY_DELTA, self.energy_delta);
        self.neurons.set_input(IN_ZERO_ENERGY, self.zero_energy_time);
        self.neurons.set_input(IN_DIVISION_ENERGY_RESERVE, self.division_energy_reserve);
        self.neurons.set_input(IN_DIVISION_GROW_FACTOR, self.division_grow_factor);
        self.neurons.set_input(IN_MOLECULES_PROPORTION, self.molecules[0].over(max_mol));
        self.neurons.set_input(IN_MOLECULES_PROPORTION + 1, self.molecules[1].over(max_mol));
        self.neurons.set_input(IN_MOLECULES_PROPORTION + 2, self.molecules[2].over(max_mol));
        self.neurons.set_input(IN_MOLECULES_PROPORTION + 3, self.molecules[3].over(max_mol));
        self.neurons.set_input(IN_MOLECULES_PROPORTION + 4, self.molecules[4].over(max_mol));
        self.neurons.set_input(IN_MOLECULES_PROPORTION + 5, self.molecules[5].over(max_mol));
        self.neurons.set_input(IN_MOLECULES_PROPORTION + 6, self.molecules[6].over(max_mol));
        self.neurons.set_input(IN_MOLECULES_PROPORTION + 7, self.molecules[7].over(max_mol));
        self.neurons.set_input(IN_MOLECULES_TOTAL, mol_total);
        self.neurons.set_input(IN_MOVEMENT_DIRECTION, self.movement_direction);
        self.neurons.set_input(IN_MOVEMENT_SPEED, self.movement_speed);
        self.neurons.set_input(IN_MOVEMENT_VELOCITY, self.movement_velocity.x);
        self.neurons.set_input(IN_MOVEMENT_VELOCITY + 1, self.movement_velocity.y);
        self.neurons.set_input(
            IN_MOVEMENT_VELOCITY_MAGNITUDE,
            self.movement_velocity.magnitude(),
        );
        self.neurons.set_input(
            IN_CONTACT_ENERGY_ABSORPTION,
            self.contact_energy_absorption_amount,
        );
        self.neurons.set_input(IN_CONTACT_COUNT, self.contact_count);
        self.neurons.set_input(IN_CONTACT_NORMAL, self.contact_normal.x);
        self.neurons.set_input(IN_CONTACT_NORMAL + 1, self.contact_normal.y);
        self.neurons.set_input(IN_CONTACT_NORMAL_MAGNITUDE, self.contact_normal.magnitude());
    }

    /// Step four of the tick.
    fn step_basal(&mut self)
        requires
            old(self).wf(),
            old(self).neurons.working_neurons <= 0xffff,
        ensures
            final(self).wf(),
            basal_rel(*old(self), *final(self)),
    {
        let w = self.neurons.num_working_neurons();
        let basal = Scalar { raw: (w as i64) * NEURON_COST_RAW };
        let cost = self.energy.min(basal);
        self.energy = self.energy.minus(cost);
        self.stats.energy_consumed = self.stats.energy_consumed.plus(cost);
    }

    /// Step five of the tick.
    fn step_contraction(&mut self, dt: Scalar)
        requires
            old(self).wf(),
            dt.raw > 0,
        ensures
            final(self).wf(),
            contraction_rel(*old(self), *final(self), dt.raw as int),
    {
        proof {
            crate::transcend::lemma_fmul_nonneg(
                self.contraction_amount.raw as int,
                CONTRACTION_COST_RAW as int,
            );
            crate::transcend::lemma_fmul_nonneg(
                fmul(self.contraction_amount.raw as int, CONTRACTION_COST_RAW as int),
                dt.raw as int,
            );
        }
        let cost = self.contraction_amount.times(Scalar { raw: CONTRACTION_COST_RAW }).times(dt);
        if cost.le(self.energy) {
            self.energy = self.energy.minus(cost);
            self.stats.energy_consumed = self.stats.energy_consumed.plus(cost);
            let wish = self.neurons.get_output(OUT_CONTRACTION_AMOUNT);
            self.contraction_amount = wish.clamp(Scalar { raw: 0 }, self.contraction_limit);
        }
    }

    /// Step six of the tick.
    fn step_movement(&mut self, ctx: &CellContext)
        requires
            old(self).wf(),
            ctx.dt.raw > 0,
            ctx.mass.raw >= 0,
        ensures
            final(self).wf(),
            movement_rel(*old(self), *final(self), *ctx),
    {
        let angular = self.neurons.get_output(OUT_MOVEMENT_ANGULAR_SPEED);
        let kinetic = self.neurons.get_output(OUT_MOVEMENT_KINETIC_SPEED);
        let target = self.movement_direction.plus(angular.times(Scalar { raw: ANGULAR_STEP_RAW }));
        let speed = kinetic.relu().times(self.movement_speed_limit);
        proof {
            crate::transcend::lemma_fmul_nonneg(
                frelu(kinetic.raw as int),
                self.movement_speed_limit.raw as int,
            );
            crate::transcend::lemma_fmul_nonneg(HALF_RAW as int, ctx.mass.raw as int);
            crate::transcend::lemma_fmul_nonneg(
                fmul(HALF_RAW as int, ctx.mass.raw as int),
                speed.raw as int,
            );
            crate::transcend::lemma_fmul_nonneg(
                fmul(fmul(HALF_RAW as int, ctx.mass.raw as int), speed.raw as int),
                speed.raw as int,
            );
            crate::transcend::lemma_fmul_nonneg(
                fmul(fmul(fmul(HALF_RAW as int, ctx.mass.raw as int), speed.raw as int), speed.raw as int),
                MOVEMENT_COST_RAW as int,
            );
            crate::transcend::lemma_fmul_nonneg(
                fmul(
                    fmul(
                        fmul(fmul(HALF_RAW as int, ctx.mass.raw as int), speed.raw as int),
                        speed.raw as int,
                    ),
                    MOVEMENT_COST_RAW as int,
                ),
                ctx.dt.raw as int,
            );
        }
        let cost = Scalar { raw: HALF_RAW }.times(ctx.mass).times(speed).times(speed).times(
            Scalar { raw: MOVEMENT_COST_RAW },
        ).times(ctx.dt);
        if cost.le(self.energy) {
            self.energy = self.energy.minus(cost);
            self.stats.energy_consumed = self.stats.energy_consumed.plus(cost);
            let wrapped = target.wrap_mod(Scalar { raw: TWO_PI_RAW });
            self.movement_direction = wrapped;
            self.movement_speed = speed;
            self.movement_velocity = V2::new(
                speed.times(wrapped.cos()),
                speed.times(wrapped.sin()).neg(),
            );
        } else {
            self.movement_speed = Scalar { raw: 0 };
            self.movement_velocity = V2::zeros();
        }
    }

    /// Step seven of the tick.
    fn step_absorption(&mut self, dt: Scalar)
        requires
            old(self).wf(),
            dt.raw > 0,
        ensures
            final(self).wf(),
            absorption_rel(*old(self), *final(self), dt.raw as int),
    {
        let wish = self.neurons.get_output(OUT_CONTACT_ENERGY_ABSORPTION);
        let moved = self.contact_energy_absorption_amount.plus(wish.times(dt));
        self.contact_energy_absorption_amount = moved.clamp(
            Scalar { raw: 0 },
            self.contact_energy_absorption_limit,
        );
    }

    /// Step eight of the tick.
    fn step_metabolism(&mut self, dt: Scalar)
        requires
            old(self).wf(),
            dt.raw > 0,
        ensures
            final(self).wf(),
            metabolism_rel(*old(self), *final(self), dt.raw as int),
    {
        let ghost pre = *self;
        let ghost dti = dt.raw as int;
        let zero = Scalar { raw: 0 };
        let mut srcs: Vec<Scalar> = Vec::new();
        let mut prods: Vec<Scalar> = Vec::new();
        let mut produced = zero;
        let mut required = zero;
        let mut i: usize = 0;
        while i < NUM_MOLECULES
            invariant
                self.wf(),
                *self == pre,
                dti == dt.raw as int,
                dt.raw > 0,
                zero.raw == 0,
                i <= NUM_MOLECULES,
                srcs@.len() == i,
                prods@.len() == i,
                forall|k: int| 0 <= k < i ==> (#[trigger] srcs@[k]).raw == met_src(pre, dti, k),
                forall|k: int| 0 <= k < i ==> (#[trigger] prods@[k]).raw == met_prod(pre, dti, k),
                produced.raw as int == met_produced_k(pre, dti, i as nat),
                required.raw as int == met_required_k(pre, dti, i as nat),
            decreases NUM_MOLECULES - i,
        {
            let o = self.neurons.get_output(OUT_ENERGY_METABOLISM + i);
            let conv = self.molecules_energy_conversion[i];
            let src = o.max(zero).times(dt).min(self.molecules[i]);
            let prod = o.neg().max(zero).times(dt);
            proof {
                assert(o == pre.neurons.output_layer.outputs@[OUT_ENERGY_METABOLISM as int
                    + i as int]);
                assert(src.raw as int == met_src(pre, dti, i as int));
                assert(prod.raw as int == met_prod(pre, dti, i as int));
            }
            produced = produced.plus(src.times(conv));
            required = required.plus(prod.times(conv));
            srcs.push(src);
            prods.push(prod);
            proof {
                assert(produced.raw as int == met_produced_k(pre, dti, (i + 1) as nat));
                assert(required.raw as int == met_required_k(pre, dti, (i + 1) as nat));
            }
            i = i + 1;
        }
        proof {
            lemma_met_produced_nonneg(pre, dti, NUM_MOLECULES as nat);
            lemma_met_required_nonneg(pre, dti, NUM_MOLECULES as nat);
        }
        let e_mid = self.energy.plus(produced).min(Scalar { raw: MAX_ENERGY_RAW });
        let scale = if required.gt(e_mid) {
            e_mid.over(required)
        } else {
            Scalar { raw: SCALE }
        };
        proof {
            if required.raw > e_mid.raw {
                vstd::arithmetic::div_mod::lemma_div_pos_is_pos(
                    e_mid.raw as int * sc(),
                    required.raw as int,
                );
                assert(e_mid.raw as int * sc() >= 0) by (nonlinear_arith)
                    requires
                        e_mid.raw >= 0,
                ;
            }
            assert(scale.raw as int == met_scale(pre, dti));
            assert(scale.raw >= 0);
            lemma_met_paid_nonneg(pre, dti, NUM_MOLECULES as nat);
        }
        let mut paid = zero;
        let mut j: usize = 0;
        while j < NUM_MOLECULES
            invariant
                dti == dt.raw as int,
                dt.raw > 0,
                pre.wf(),
                zero.raw == 0,
                j <= NUM_MOLECULES,
                srcs@.len() == NUM_MOLECULES,
                prods@.len() == NUM_MOLECULES,
                forall|k: int|
                    0 <= k < NUM_MOLECULES ==> (#[trigger] srcs@[k]).raw == met_src(pre, dti, k),
                forall|k: int|
                    0 <= k < NUM_MOLECULES ==> (#[trigger] prods@[k]).raw == met_prod(pre, dti, k),
                scale.raw as int == met_scale(pre, dti),
                scale.raw >= 0,
                paid.raw as int == met_paid_k(pre, dti, j as nat),
                self.molecules@.len() == NUM_MOLECULES,
                self.molecules_energy_conversion@ == pre.molecules_energy_conversion@,
                forall|k: int|
                    j <= k < NUM_MOLECULES ==> (#[trigger] self.molecules@[k])
                        == pre.molecules@[k],
                forall|k: int|
                    0 <= k < j ==> (#[trigger] self.molecules@[k]).raw == met_mol(pre, dti, k)
                        && self.molecules@[k].raw >= 0,
                *self == (Cell { molecules: self.molecules, ..pre }),
            decreases NUM_MOLECULES - j,
        {
            let conv = self.molecules_energy_conversion[j];
            let grown = prods[j].times(scale);
            proof {
                crate::transcend::lemma_fmul_nonneg(prods@[j as int].raw as int, scale.raw as int);
                crate::transcend::lemma_fmul_nonneg(grown.raw as int, conv.raw as int);
                crate::transcend::lemma_fmul_nonneg(
                    max_i(out(pre, OUT_ENERGY_METABOLISM as int + j), 0),
                    dti,
                );
            }
            let updated = self.molecules[j].minus(srcs[j]).plus(grown);
            paid = paid.plus(grown.times(conv));
            let slot = &mut self.molecules[j];
            *slot = updated;
            j = j + 1;
        }
        let paid_c = paid.min(e_mid);
        self.energy = e_mid.minus(paid_c);
        let stored = self.compute_stored_energy();
        self.stored_energy = stored;
        self.stats.energy_produced = self.stats.energy_produced.plus(produced);
        proof {
            lemma_stored_k_nonneg(
                self.molecules@,
                self.molecules_energy_conversion@,
                NUM_MOLECULES as nat,
            );
        }
    }

    /// Step nine of the tick.
    fn step_division_accounting(&mut self, dt: Scalar)
        requires
            old(self).wf(),
            dt.raw > 0,
        ensures
            final(self).wf(),
            division_acct_rel(*old(self), *final(self), dt.raw as int),
    {
        let wish = self.neurons.get_output(OUT_DIVISION_ENERGY_RESERVE);
        let raw_delta = wish.times(dt);
        let lo = self.division_energy_reserve.neg();
        let hi = self.energy.min(self.division_threshold.minus(self.division_energy_reserve));
        let delta = raw_delta.clamp(lo, hi);
        self.energy = self.energy.minus(delta);
        self.division_energy_reserve = self.division_energy_reserve.plus(delta);
        self.division_grow_factor = Scalar { raw: SCALE }.min(
            self.division_grow_factor.plus(dt),
        );
    }

    /// Step ten of the tick.
    fn step_mortality(&mut self, dt: Scalar)
        requires
            old(self).wf(),
            dt.raw > 0,
        ensures
            final(self).wf(),
            mortality_rel(*old(self), *final(self), dt.raw as int),
    {
        if self.energy.le(Scalar { raw: ALIVE_THRESHOLD_RAW }) {
            self.zero_energy_time = self.zero_energy_time.plus(dt);
        } else {
            self.zero_energy_time = Scalar { raw: 0 };
        }
    }

    /// One full tick of the cell, in the strict step order: snapshot,
    /// sensors, forward pass, basal cost, contraction, movement,
    /// contact absorption, metabolism, division accounting, mortality
    /// timer.  The returned ghost trace holds the state after each
    /// step, so the whole composition is pinned.
    pub fn update(&mut self, ctx: &CellContext) -> (trace: Ghost<
        (Cell, Cell, Cell, Cell, Cell, Cell, Cell, Cell, Cell),
    >)
        requires
            old(self).wf(),
            ctx.dt.raw > 0,
            ctx.mass.raw >= 0,
            old(self).neurons.working_neurons <= 0xffff,
        ensures
            final(self).wf(),
            snapshot_rel(*old(self), trace@.0, ctx.dt.raw as int),
            inputs_rel(trace@.0, trace@.1, *ctx),
            process_rel(trace@.1, trace@.2),
            basal_rel(trace@.2, trace@.3),
            contraction_rel(trace@.3, trace@.4, ctx.dt.raw as int),
            movement_rel(trace@.4, trace@.5, *ctx),
            absorption_rel(trace@.5, trace@.6, ctx.dt.raw as int),
            metabolism_rel(trace@.6, trace@.7, ctx.dt.raw as int),
            division_acct_rel(trace@.7, trace@.8, ctx.dt.raw as int),
            mortality_rel(trace@.8, *final(self), ctx.dt.raw as int),
            final(self).neurons.working_neurons == old(self).neurons.working_neurons,
    {
        self.step_snapshot(ctx.dt);
        let ghost c1 = *self;
        self.step_fill_inputs(ctx);
        let ghost c2 = *self;
        self.neurons.process();
        let ghost c3 = *self;
        self.step_basal();
        let ghost c4 = *self;
        self.step_contraction(ctx.dt);
        let ghost c5 = *self;
        self.step_movement(ctx);
        let ghost c6 = *self;
        self.step_absorption(ctx.dt);
        let ghost c7 = *self;
        self.step_metabolism(ctx.dt);
        let ghost c8 = *self;
        self.step_division_accounting(ctx.dt);
        let ghost c9 = *self;
        self.step_mortality(ctx.dt);
        Ghost((c1, c2, c3, c4, c5, c6, c7, c8, c9))
    }

    /// Divides the cell: the division cost is paid from the pool, the
    /// remaining energy and the molecule stores are split in half, the
    /// controller is deep-copied, both reserves reset, and the sibling
    /// starts small and regrows.
    pub fn divide(&mut self) -> (child: Cell)
        requires
            old(self).wf(),
            old(self).can_divide_spec(),
        ensures
            final(self).wf(),
            child.wf(),
            final(self).energy.raw + child.energy.raw == old(self).energy.raw - old(
                self,
            ).division_cost_spec(),
            child.molecules@.len() == NUM_MOLECULES,
            forall|i: int|
                0 <= i < NUM_MOLECULES ==> (#[trigger] child.molecules@[i]).raw == fmul(
                    old(self).molecules@[i].raw as int,
                    HALF_RAW as int,
                ),
            neurons_match(child.neurons, old(self).neurons),
            final(self).neurons == old(self).neurons,
            final(self).division_energy_reserve.raw == 0,
            child.division_energy_reserve.raw == 0,
            child.age.raw == 0,
            child.size == old(self).size,
            // the sibling starts at `min(1, 1/size)` and regrows over time
            child.division_grow_factor.raw == crate::scalar::min_i(
                sc(),
                fdiv(sc(), old(self).size.raw as int),
            ),
    {
        proof {
            crate::transcend::lemma_fmul_nonneg(
                fmul(crate::scalar::PI_RAW as int, fmul(self.size.raw as int, self.size.raw as int)),
                DIVISION_COST_RAW as int,
            );
        }
        let cost = Scalar { raw: crate::scalar::PI_RAW }.times(self.size.times(self.size)).times(
            Scalar { raw: DIVISION_COST_RAW },
        );
        let pool = self.energy.minus(cost);
        let child_energy = pool.over_int(2);
        let parent_energy = pool.minus(child_energy);
        proof {
            vstd::arithmetic::div_mod::lemma_div_pos_is_pos(pool.raw as int, 2);
            vstd::arithmetic::div_mod::lemma_div_nonincreasing(pool.raw as int, 2);
        }
        let half = Scalar { raw: HALF_RAW };
        let n = self.molecules.len();
        let mut child_mols: Vec<Scalar> = Vec::new();
        let mut i: usize = 0;
        while i < n
            invariant
                old(self).wf(),
                n == NUM_MOLECULES,
                *self == *old(self),
                half.raw == HALF_RAW,
                i <= n,
                child_mols@.len() == i,
                forall|k: int|
                    0 <= k < i ==> (#[trigger] child_mols@[k]).raw == fmul(
                        old(self).molecules@[k].raw as int,
                        HALF_RAW as int,
                    ) && child_mols@[k].raw >= 0,
            decreases n - i,
        {
            proof {
                crate::transcend::lemma_fmul_nonneg(
                    self.molecules@[i as int].raw as int,
                    HALF_RAW as int,
                );
            }
            let halved = self.molecules[i].times(half);
            proof {
                assert(halved.raw as int == fmul(old(self).molecules@[i as int].raw as int,
                    HALF_RAW as int));
            }
            child_mols.push(halved);
            i = i + 1;
        }
        let mut parent_mols: Vec<Scalar> = Vec::new();
        let mut j: usize = 0;
        while j < n
            invariant
                old(self).wf(),
                n == NUM_MOLECULES,
                *self == *old(self),
                j <= n,
                child_mols@.len() == n,
                forall|k: int|
                    0 <= k < n ==> (#[trigger] child_mols@[k]).raw == fmul(
                        old(self).molecules@[k].raw as int,
                        HALF_RAW as int,
                    ) && child_mols@[k].raw >= 0,
                parent_mols@.len() == j,
                forall|k: int|
                    0 <= k < j ==> (#[trigger] parent_mols@[k]).raw == fsub(
                        old(self).molecules@[k].raw as int,
                        child_mols@[k].raw as int,
                    ) && parent_mols@[k].raw >= 0,
            decreases n - j,
        {
            proof {
                lemma_fmul_mono(
                    self.molecules@[j as int].raw as int,
                    self.molecules@[j as int].raw as int,
                    HALF_RAW as int,
                );
                assert(fmul(self.molecules@[j as int].raw as int, HALF_RAW as int)
                    <= self.molecules@[j as int].raw as int) by {
                    let m = self.molecules@[j as int].raw as int;
                    assert(m * HALF_RAW <= m * SCALE) by (nonlinear_arith)
                        requires
                            m >= 0,
                    ;
                    vstd::arithmetic::div_mod::lemma_div_is_ordered(
                        m * HALF_RAW as int,
                        m * sc(),
                        sc(),
                    );
                    vstd::arithmetic::div_mod::lemma_div_multiples_vanish(m, sc());
                    assert(m * sc() == sc() * m) by (nonlinear_arith);
                }
            }
            parent_mols.push(self.molecules[j].minus(child_mols[j]));
            j = j + 1;
        }
        let child_conversion = crate::neurons::copy_scalars(&self.molecules_energy_conversion);
        let child_neurons = self.neurons.duplicate();
        let grow = Scalar { raw: SCALE }.over(self.size).min(Scalar { raw: SCALE });
        proof {
            vstd::arithmetic::div_mod::lemma_div_is_ordered_by_denominator(
                sc() * sc(),
                self.size.raw as int,
                MAX_RADIUS_RAW as int,
            );
            assert(sc() * sc() == 1_000_000_000_000_000_000) by (nonlinear_arith);
        }
        let mut child = Cell {
            neurons: child_neurons,
            age: Scalar { raw: 0 },
            energy: child_energy,
            last_energy: child_energy,
            energy_delta: Scalar { raw: 0 },
            stored_energy: Scalar { raw: 0 },
            zero_energy_time: Scalar { raw: 0 },
            zero_energy_limit: self.zero_energy_limit,
            molecules: child_mols,
            molecules_energy_conversion: child_conversion,
            movement_direction: self.movement_direction,
            movement_speed: Scalar { raw: 0 },
            movement_speed_limit: self.movement_speed_limit,
            movement_velocity: V2::zeros(),
            contraction_limit: self.contraction_limit,
            contraction_amount: Scalar { raw: 0 },
            contact_energy_absorption_limit: self.contact_energy_absorption_limit,
            contact_energy_absorption_amount: Scalar { raw: 0 },
            division_energy_reserve: Scalar { raw: 0 },
            division_threshold: self.division_threshold,
            division_grow_factor: grow,
            size: self.size,
            contact_count: Scalar { raw: 0 },
            contact_normal: V2::zeros(),
            stats: CellStats::new(),
        };
        let child_stored = child.compute_stored_energy();
        child.stored_energy = child_stored;
        proof {
            lemma_stored_k_nonneg(
                child.molecules@,
                child.molecules_energy_conversion@,
                NUM_MOLECULES as nat,
            );
        }
        self.energy = parent_energy;
        self.molecules = parent_mols;
        self.division_energy_reserve = Scalar { raw: 0 };
        let parent_stored = self.compute_stored_energy();
        self.stored_energy = parent_stored;
        proof {
            lemma_stored_k_nonneg(
                self.molecules@,
                self.molecules_energy_conversion@,
                NUM_MOLECULES as nat,
            );
        }
        child
    }
}


impl crate::genome::BuildGenome for Cell {
    /// Writes the cell's heritable scalars, the molecule conversion
    /// rates, and the whole controller under `neurons`.
    fn build_genome(&self, builder: &mut crate::genome::GenomeBuilder) {
        self.write_genome(builder);
    }
}

impl Cell {
    /// Writes the cell's heritable scalars, the molecule conversion
    /// rates under `molecules_energy_conversion/channel`, and the whole
    /// controller under `neurons` (each layer's `weights/row/col`,
    /// `bias/index` and `activation_function`).  The six scalar paths
    /// are guaranteed present afterwards.
    pub fn write_genome(&self, builder: &mut crate::genome::GenomeBuilder)
        requires
            old(builder).wf(),
        ensures
            final(builder).wf(),
            final(builder).path == old(builder).path,
            final(builder).genes@.len() >= old(builder).genes@.len(),
            crate::genome::genes_has(
                final(builder).genes@,
                crate::genome::joined_key(old(builder).path, "size"@),
            ),
            crate::genome::genes_has(
                final(builder).genes@,
                crate::genome::joined_key(old(builder).path, "contraction_limit"@),
            ),
            crate::genome::genes_has(
                final(builder).genes@,
                crate::genome::joined_key(old(builder).path, "movement_speed_limit"@),
            ),
            crate::genome::genes_has(
                final(builder).genes@,
                crate::genome::joined_key(old(builder).path, "contact_energy_absorption_limit"@),
            ),
            crate::genome::genes_has(
                final(builder).genes@,
                crate::genome::joined_key(old(builder).path, "division_threshold"@),
            ),
            crate::genome::genes_has(
                final(builder).genes@,
                crate::genome::joined_key(old(builder).path, "zero_energy_limit"@),
            ),
    {
        proof {
            reveal_strlit("size");
            reveal_strlit("contraction_limit");
            reveal_strlit("movement_speed_limit");
            reveal_strlit("contact_energy_absorption_limit");
            reveal_strlit("division_threshold");
            reveal_strlit("zero_energy_limit");
            reveal_strlit("molecules_energy_conversion");
            reveal_strlit("neurons");
        }
        builder.add("size", crate::genome::Gen { value: self.size });
        builder.add("contraction_limit", crate::genome::Gen { value: self.contraction_limit });
        builder.add(
            "movement_speed_limit",
            crate::genome::Gen { value: self.movement_speed_limit },
        );
        builder.add(
            "contact_energy_absorption_limit",
            crate::genome::Gen { value: self.contact_energy_absorption_limit },
        );
        builder.add("division_threshold", crate::genome::Gen { value: self.division_threshold });
        builder.add("zero_energy_limit", crate::genome::Gen { value: self.zero_energy_limit });
        let mut mb = builder.nested("molecules_energy_conversion");
        let n = self.molecules_energy_conversion.len();
        let mut i: usize = 0;
        while i < n
            invariant
                n == self.molecules_energy_conversion@.len(),
                i <= n,
                mb.wf(),
            decreases n - i,
        {
            let key = crate::genome::dec3((i % 1000) as u64);
            mb.add(key.as_str(), crate::genome::Gen { value: self.molecules_energy_conversion[i] });
            i = i + 1;
        }
        builder.absorb(mb);
        let mut nb = builder.nested("neurons");
        crate::genome::BuildGenome::build_genome(&self.neurons, &mut nb);
        builder.absorb(nb);
    }
}

impl Cell {
    /// Reads one heritable scalar out of a genome, falling back to the
    /// current value where the key is absent.
    fn gene_or(genome: &crate::genome::Genome, key: &str, fallback: Scalar) -> (r: Scalar)
        requires
            genome.wf(),
            vstd::string::is_ascii(key),
    {
        let key_string = key.to_owned();
        match genome.get(&key_string) {
            Some(g) => g.value,
            None => fallback,
        }
    }
}

impl crate::genome::ApplyGenome for Cell {
    open spec fn wf_for_genome(&self) -> bool {
        self.wf()
    }

    /// Takes the heritable scalars back out of a genome.
    fn apply_genome(&mut self, genome: &crate::genome::Genome) {
        self.inherit(genome);
    }
}

impl Cell {
    /// Takes the heritable scalars back out of a genome: the membrane
    /// size, the behavioural limits, the division threshold, the
    /// starvation limit and the molecule conversion rates, each clamped
    /// into its invariant range; missing keys leave the current value.
    /// The controller is untouched.
    pub fn inherit(&mut self, genome: &crate::genome::Genome)
        requires
            old(self).wf(),
            genome.wf(),
        ensures
            final(self).wf(),
            final(self).neurons == old(self).neurons,
            final(self).energy == old(self).energy,
            final(self).zero_energy_time == old(self).zero_energy_time,
    {
        proof {
            reveal_strlit("size");
            reveal_strlit("contraction_limit");
            reveal_strlit("movement_speed_limit");
            reveal_strlit("contact_energy_absorption_limit");
            reveal_strlit("division_threshold");
            reveal_strlit("zero_energy_limit");
        }
        let zero = Scalar { raw: 0 };
        self.size = Cell::gene_or(genome, "size", self.size).clamp(
            Scalar { raw: 1 },
            Scalar { raw: MAX_RADIUS_RAW },
        );
        self.contraction_limit = Cell::gene_or(genome, "contraction_limit",
            self.contraction_limit).clamp(zero, Scalar { raw: SCALE });
        self.contraction_amount = self.contraction_amount.min(self.contraction_limit).max(zero);
        self.movement_speed_limit = Cell::gene_or(genome, "movement_speed_limit",
            self.movement_speed_limit).clamp(zero, Scalar { raw: MAX_SPEED_RAW });
        self.contact_energy_absorption_limit = Cell::gene_or(genome,
            "contact_energy_absorption_limit", self.contact_energy_absorption_limit).max(zero);
        self.contact_energy_absorption_amount = self.contact_energy_absorption_amount.min(
            self.contact_energy_absorption_limit,
        ).max(zero);
        self.division_threshold = Cell::gene_or(genome, "division_threshold",
            self.division_threshold).max(zero);
        self.zero_energy_limit = Cell::gene_or(genome, "zero_energy_limit",
            self.zero_energy_limit).max(Scalar { raw: 1 });
        let n = self.molecules_energy_conversion.len();
        let mut i: usize = 0;
        while i < n
            invariant
                old(self).wf(),
                genome.wf(),
                n == NUM_MOLECULES,
                i <= n,
                self.molecules_energy_conversion@.len() == n,
                forall|k: int|
                    0 <= k < n ==> (#[trigger] self.molecules_energy_conversion@[k]).raw >= 0,
                *self == (Cell {
                    size: self.size,
                    contraction_limit: self.contraction_limit,
                    contraction_amount: self.contraction_amount,
                    movement_speed_limit: self.movement_speed_limit,
                    contact_energy_absorption_limit: self.contact_energy_absorption_limit,
                    contact_energy_absorption_amount: self.contact_energy_absorption_amount,
                    division_threshold: self.division_threshold,
                    zero_energy_limit: self.zero_energy_limit,
                    molecules_energy_conversion: self.molecules_energy_conversion,
                    ..*old(self)
                }),
                0 < self.size.raw <= MAX_RADIUS_RAW,
                0 <= self.contraction_amount.raw <= self.contraction_limit.raw,
                0 <= self.contact_energy_absorption_amount.raw
                    <= self.contact_energy_absorption_limit.raw,
                self.division_threshold.raw >= 0,
                self.zero_energy_limit.raw > 0,
                self.movement_speed_limit.raw >= 0,
            decreases n - i,
        {
            proof {
                reveal_strlit("molecules_energy_conversion/");
            }
            let prefix = "molecules_energy_conversion/".to_owned();
            let key = vstd::string::StringExecFns::concat(
                prefix,
                crate::genome::dec3((i % 1000) as u64).as_str(),
            );
            proof {
                assert(vstd::utf8::is_ascii_chars(key@));
            }
            let looked = match genome.get(&key) {
                Some(g) => g.value.max(Scalar { raw: 0 }),
                None => self.molecules_energy_conversion[i],
            };
            let slot = &mut self.molecules_energy_conversion[i];
            *slot = looked;
            i = i + 1;
        }
        let stored = self.compute_stored_energy();
        self.stored_energy = stored;
        proof {
            lemma_stored_k_nonneg(
                self.molecules@,
                self.molecules_energy_conversion@,
                NUM_MOLECULES as nat,
            );
        }
    }
}

} // verus!
