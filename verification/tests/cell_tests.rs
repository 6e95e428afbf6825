//! Behavioural tests of cells, genomes, the rank and the controller.

use vlife::cell::{Cell, CellContext, DIVISION_COST_RAW};
use vlife::cell_rank::CellRank;
use vlife::genome::{BuildGenome, Gen, GenomeBuilder};
use vlife::neurons::{Neurons, NUM_OUTPUTS};
use vlife::random::RandomSource;
use vlife::scalar::{Scalar, PI_RAW, SCALE};

fn ctx() -> CellContext {
    CellContext {
        velocity_magnitude: Scalar { raw: 0 },
        acceleration_magnitude: Scalar { raw: 0 },
        radius: Scalar { raw: SCALE },
        mass: Scalar { raw: SCALE },
        dt: Scalar { raw: 16_666_666 },
    }
}

#[test]
fn depleted_cell_is_dead() {
    let mut rng = RandomSource::new(11);
    let mut cell = Cell::random(&mut rng);
    assert!(!cell.is_dead());
    cell.deplete();
    assert!(cell.is_dead());
    let _ = cell.update(&ctx());
    assert!(cell.is_dead());
}

#[test]
fn fresh_cell_survives_many_ticks() {
    let mut rng = RandomSource::new(0xC0FFEE);
    let mut cell = Cell::random(&mut rng);
    for _ in 0..600 {
        let _ = cell.update(&ctx());
    }
    assert!(!cell.is_dead());
}

#[test]
fn division_conserves_energy_and_halves_molecules() {
    let mut rng = RandomSource::new(3);
    let mut cell = Cell::random(&mut rng);
    cell.energy = Scalar::from_units(100);
    cell.division_energy_reserve = cell.division_threshold;
    cell.division_grow_factor = Scalar { raw: SCALE };
    assert!(cell.can_divide());
    let pre_energy = cell.energy;
    let pre_molecules: Vec<Scalar> = cell.molecules.clone();
    let cost = Scalar { raw: PI_RAW }.times(cell.size.times(cell.size)).times(
        Scalar { raw: DIVISION_COST_RAW },
    );
    let child = cell.divide();
    assert_eq!(
        cell.energy.raw + child.energy.raw,
        pre_energy.minus(cost).raw,
    );
    let half = Scalar { raw: 500_000_000 };
    for i in 0..8 {
        assert_eq!(child.molecules[i].raw, pre_molecules[i].times(half).raw);
        assert_eq!(
            cell.molecules[i].raw + child.molecules[i].raw,
            pre_molecules[i].raw,
        );
    }
    assert_eq!(cell.division_energy_reserve.raw, 0);
    assert_eq!(child.division_energy_reserve.raw, 0);
    // the controller is deep-copied
    assert_eq!(child.neurons.working_neurons, cell.neurons.working_neurons);
    for r in 0..child.neurons.input_layer.weights.len() {
        assert_eq!(
            child.neurons.input_layer.weights[r],
            cell.neurons.input_layer.weights[r],
        );
    }
}

#[test]
fn genome_crossed_with_itself_keeps_its_keys() {
    let mut rng = RandomSource::new(5);
    let cell = Cell::random(&mut rng);
    let mut builder = GenomeBuilder::new();
    cell.build_genome(&mut builder);
    let genome = builder.build();
    assert!(genome.len() >= 2);
    let crossed = genome.cross(&genome, &mut rng);
    assert_eq!(crossed.len(), genome.len());
    for i in 0..genome.len() {
        assert_eq!(crossed.genes[i].0, genome.genes[i].0);
        assert_eq!(crossed.genes[i].1.value.raw, genome.genes[i].1.value.raw);
    }
}

#[test]
fn crossover_unites_both_key_universes() {
    let mut rng = RandomSource::new(5);
    let mut ba = GenomeBuilder::new();
    ba.add("alpha", Gen { value: Scalar::from_units(1) });
    ba.add("both", Gen { value: Scalar::from_units(2) });
    let ga = ba.build();
    let mut bb = GenomeBuilder::new();
    bb.add("beta", Gen { value: Scalar::from_units(3) });
    bb.add("both", Gen { value: Scalar::from_units(4) });
    let gb = bb.build();
    let crossed = ga.cross(&gb, &mut rng);
    assert_eq!(crossed.len(), 3);
    assert_eq!(crossed.genes[0].0.as_str(), "alpha");
    assert_eq!(crossed.genes[1].0.as_str(), "beta");
    assert_eq!(crossed.genes[2].0.as_str(), "both");
}

#[test]
fn rank_caps_at_capacity_and_keeps_top_scores() {
    let mut builder = GenomeBuilder::new();
    builder.add("gene", Gen { value: Scalar::from_units(1) });
    let genome = builder.build();
    let mut rank = CellRank::new(3);
    for score in [10, 30, 20, 50, 40] {
        rank.insert(Scalar::from_units(score), genome.duplicate());
    }
    assert_eq!(rank.len(), 3);
    assert_eq!(rank.entries[0].0.raw, 30 * SCALE);
    assert_eq!(rank.entries[1].0.raw, 40 * SCALE);
    assert_eq!(rank.entries[2].0.raw, 50 * SCALE);
}

#[test]
fn rank_replaces_equal_scores() {
    let mut builder = GenomeBuilder::new();
    builder.add("gene", Gen { value: Scalar::from_units(1) });
    let genome = builder.build();
    let mut rank = CellRank::new(4);
    rank.insert(Scalar::from_units(10), genome.duplicate());
    rank.insert(Scalar::from_units(10), genome.duplicate());
    assert_eq!(rank.len(), 1);
}

#[test]
fn seeded_controllers_are_bit_identical() {
    let mut rng1 = RandomSource::new(42);
    let mut rng2 = RandomSource::new(42);
    let mut n1 = Neurons::random(&mut rng1);
    let mut n2 = Neurons::random(&mut rng2);
    for slot in 0..8 {
        n1.set_input(slot, Scalar { raw: (slot as i64 + 1) * 250_000_000 });
        n2.set_input(slot, Scalar { raw: (slot as i64 + 1) * 250_000_000 });
    }
    n1.process();
    n2.process();
    for slot in 0..NUM_OUTPUTS {
        assert_eq!(n1.get_output(slot).raw, n2.get_output(slot).raw);
    }
}

#[test]
fn absorbing_energy_is_clamped_and_recorded() {
    let mut rng = RandomSource::new(9);
    let mut cell = Cell::random(&mut rng);
    cell.energy = Scalar::from_units(1);
    cell.absorb_energy(Scalar::from_units(2), Scalar::from_units(5));
    assert_eq!(cell.energy.raw, 0);
    assert_eq!(cell.stats.energy_absorbed_in.raw, 2 * SCALE);
    assert_eq!(cell.stats.energy_absorbed_out.raw, 5 * SCALE);
}
