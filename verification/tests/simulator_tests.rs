//! End-to-end tests of the simulator orchestration.

use vlife::scalar::{Scalar, SCALE};
use vlife::simulator::Simulator;
use vlife::vec2::V2;

fn units(u: i32) -> Scalar {
    Scalar::from_units(u)
}

#[test]
fn a_lone_cell_survives_ten_seconds() {
    let mut sim = Simulator::new_with_seed(V2::new(units(700), units(300)), 0xC0FFEE);
    let handle = sim.create_random_cell();
    for _ in 0..600 {
        sim.update();
    }
    let views = sim.cells();
    assert_eq!(views.len(), 1);
    assert_eq!(views[0].handle().id, handle.id);
    assert!(!sim.cells.nth(0).cell.is_dead());
}

#[test]
fn update_advances_the_clock_by_the_step() {
    let mut sim = Simulator::new_with_seed(V2::new(units(700), units(300)), 1);
    let step = sim.step_time();
    sim.update();
    sim.update();
    assert_eq!(sim.time().raw, 2 * step.raw);
}

#[test]
fn population_refills_to_the_minimum_and_reuses_genomes() {
    let mut sim = Simulator::new_with_seed(V2::new(units(700), units(300)), 42).with_min_cells(
        12,
    );
    assert_eq!(sim.cells.len(), 0);
    sim.update();
    assert_eq!(sim.cells.len(), 12);
    assert_eq!(sim.rank_births, 0);
    // starve every cell; the next update reaps them all and refills
    for i in 0..sim.cells.len() {
        let body = sim.cells.nth_mut(i);
        body.cell.deplete();
        body.cell.zero_energy_time = body.cell.zero_energy_limit;
    }
    sim.update();
    assert_eq!(sim.cells.len(), 12);
    // the reaped genomes seeded the rank, so the replacements inherit
    assert!(sim.rank.len() > 0);
    assert!(sim.rank_births >= 11, "rank births {}", sim.rank_births);
}

#[test]
fn nearest_cell_query_prefers_the_containing_disk() {
    let mut sim = Simulator::new_with_seed(V2::new(units(700), units(300)), 9);
    assert!(sim.get_cell_id_closer_to(units(10), units(10)).is_none());
    let a = sim.create_random_cell();
    let found = sim.get_cell_id_closer_to(units(10), units(10)).expect("one cell exists");
    assert_eq!(found.id, a.id);
    let center = {
        let body = sim.cells.nth(0);
        sim.physics.get_particle(body.center).expect("center").position
    };
    let at_center = sim.get_cell_id_closer_to(center.x, center.y).expect("cell");
    assert_eq!(at_center.id, a.id);
}

#[test]
fn spawned_cells_sit_inside_the_margins() {
    let mut sim = Simulator::new_with_seed(V2::new(units(700), units(300)), 5);
    for _ in 0..4 {
        let _ = sim.create_random_cell();
    }
    let views = sim.cells();
    for view in &views {
        let p = view.position();
        assert!(p.x.raw >= 100 * SCALE);
        assert!(p.x.raw <= 600 * SCALE);
        assert!(p.y.raw >= 100 * SCALE);
        assert!(p.y.raw <= 200 * SCALE);
    }
}
