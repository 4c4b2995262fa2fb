use cell_sim::{
    chlorophyll, glycolysis, nucleotide_de_novo, protein_de_novo, update_slot, Cell, CellWrapper,
    Chemicals, ComponentProps, Components, Inner, Membrane, Motion, Thrust, QUANTUM, SHARE_SCALE,
    STEP_SIZE,
};
use rand::rngs::StdRng;
use rand::SeedableRng;
use rapier2d::dynamics::RigidBodyHandle;
use rapier2d::geometry::ColliderHandle;

fn ledger(atp: u64, glucose: u64) -> Inner {
    Inner { chemicals: Chemicals { atp, glucose }, nucleotides: 0, proteins: 0 }
}

fn forward(left_share: u64) -> Thrust {
    Thrust { left_share, left_neg: false, right_neg: false }
}

fn wrap(cell: Cell) -> Option<CellWrapper> {
    Some(CellWrapper {
        inner: cell,
        collider_handle: ColliderHandle::from_raw_parts(0, 0),
        rigid_body_handle: RigidBodyHandle::from_raw_parts(0, 0),
        index: 0,
    })
}

#[test]
fn new_cell_sums_its_parts() {
    let mut components = Components::none();
    components.glycolysis = Some(ComponentProps::new(2 * QUANTUM, QUANTUM));
    components.flagellum = Some(ComponentProps::new(3, 1));
    let cell = Cell::new(ledger(4, 5), Membrane {}, components);
    assert_eq!(cell.size(), 4 + 50 + 2 * QUANTUM as u128 + 3);
    assert_eq!(cell.generate_size(), cell.size());
    assert!(!cell.size_changed && !cell.velocity_changed && !cell.dead);
    assert_eq!(cell.impulse, Motion { x: 0, y: 0 });
}

#[test]
fn glycolysis_turns_feedstock_into_energy() {
    let props = ComponentProps::new(2 * QUANTUM, QUANTUM);
    let mut cell = Cell::new(ledger(0, QUANTUM), Membrane {}, Components::none());
    glycolysis(&props, &mut cell, STEP_SIZE);
    assert_eq!(cell.inner.chemicals.glucose, QUANTUM - 10_000);
    assert_eq!(cell.inner.chemicals.atp, 6_666);
    assert_eq!(cell.size(), 10 * (QUANTUM as u128 - 10_000) + 6_666);
    assert_eq!(cell.size(), cell.generate_size());
    assert!(cell.size_changed);
}

#[test]
fn chlorophyll_makes_feedstock_from_nothing() {
    let props = ComponentProps::new(2 * QUANTUM, QUANTUM);
    let mut cell = Cell::new(ledger(0, 0), Membrane {}, Components::none());
    chlorophyll(&props, &mut cell, STEP_SIZE);
    assert_eq!(cell.inner.chemicals.glucose, 6_666);
    assert_eq!(cell.size(), 66_660);
    assert!(cell.size_changed);
}

#[test]
fn biomass_synthesis_spends_energy() {
    let props = ComponentProps::new(2 * QUANTUM, QUANTUM);
    let mut a = Cell::new(ledger(QUANTUM, 0), Membrane {}, Components::none());
    nucleotide_de_novo(&props, &mut a, STEP_SIZE);
    assert_eq!(a.inner.chemicals.atp, QUANTUM - 10_000);
    assert_eq!(a.inner.nucleotides, 6_666);
    assert_eq!(a.size(), QUANTUM as u128 - 10_000 + 6_666);
    let mut b = Cell::new(ledger(QUANTUM, 0), Membrane {}, Components::none());
    protein_de_novo(&props, &mut b, STEP_SIZE);
    assert_eq!(b.inner.chemicals.atp, QUANTUM - 10_000);
    assert_eq!(b.inner.proteins, 6_666);
    assert_eq!(b.size(), b.generate_size());
}

#[test]
fn credit_stops_at_the_largest_quantity() {
    let props = ComponentProps::new(2 * QUANTUM, QUANTUM);
    let inner = Inner {
        chemicals: Chemicals { atp: QUANTUM, glucose: 0 },
        nucleotides: u64::MAX - 100,
        proteins: 0,
    };
    let mut cell = Cell::new(inner, Membrane {}, Components::none());
    nucleotide_de_novo(&props, &mut cell, STEP_SIZE);
    assert_eq!(cell.inner.nucleotides, u64::MAX);
    assert_eq!(cell.inner.chemicals.atp, QUANTUM - 10_000);
    assert_eq!(cell.size(), cell.generate_size());
}

#[test]
fn energy_production_without_feedstock_changes_nothing() {
    let mut components = Components::none();
    components.glycolysis = Some(ComponentProps::new(2 * QUANTUM, QUANTUM));
    let start = Cell::new(ledger(0, 0), Membrane {}, components);
    let mut cell = start;
    let draws = vec![forward(0); 10];
    cell.run_substeps(&draws, 10, STEP_SIZE);
    assert_eq!(cell.inner, start.inner);
    assert_eq!(cell.size(), start.size());
    // every size report raises the flag, a zero one too
    assert!(cell.size_changed);
    let mut slot = wrap(start);
    let change = update_slot(&mut slot, &draws, 10, STEP_SIZE).unwrap();
    assert!(!change.dead);
    assert_eq!(change.velocity, None);
    assert_eq!(change.size, Some(start.size()));
    assert_eq!(slot.unwrap().inner.inner, start.inner);
    assert_eq!(slot.unwrap().inner.size(), start.size());
}

#[test]
fn locomotion_spends_energy_on_one_motion_delta() {
    let mut components = Components::none();
    components.flagellum = Some(ComponentProps::new(2 * QUANTUM, QUANTUM));
    let start = Cell::new(ledger(5 * QUANTUM, 0), Membrane {}, components);
    let draws = vec![forward(SHARE_SCALE / 4); 300];
    let mut slot = wrap(start);
    let change = update_slot(&mut slot, &draws, 300, STEP_SIZE).unwrap();
    let after = slot.unwrap().inner;
    // 300 sub-steps of 10_000 quanta each
    assert_eq!(after.inner.chemicals.atp, 5 * QUANTUM - 3_000_000);
    let motion = change.velocity.unwrap();
    assert_eq!(motion, Motion { x: 300 * 1_666, y: 300 * 5_000 });
    assert_eq!(motion.x.abs() + motion.y.abs(), 300 * 6_666);
    assert_eq!(change.size, Some(2 * QUANTUM as u128 + 2 * QUANTUM as u128));
    assert_eq!(after.impulse, Motion { x: 0, y: 0 });
    assert!(!after.velocity_changed && !after.size_changed);
}

#[test]
fn each_locomotion_step_splits_its_whole_output() {
    let mut components = Components::none();
    components.flagellum = Some(ComponentProps::new(2 * QUANTUM, QUANTUM));
    let mut cell = Cell::new(ledger(5 * QUANTUM, 0), Membrane {}, components);
    let mut rng = StdRng::seed_from_u64(3);
    for _ in 0..50 {
        let before = cell.impulse;
        cell.run_components(STEP_SIZE, Thrust::random(&mut rng));
        let dx = cell.impulse.x - before.x;
        let dy = cell.impulse.y - before.y;
        assert_eq!(dx.abs() + dy.abs(), 6_666);
    }
    assert_eq!(cell.inner.chemicals.atp, 5 * QUANTUM - 50 * 10_000);
}

#[test]
fn locomotion_without_energy_still_reports() {
    let mut components = Components::none();
    components.flagellum = Some(ComponentProps::new(2 * QUANTUM, QUANTUM));
    let mut cell = Cell::new(ledger(0, 0), Membrane {}, components);
    cell.run_components(STEP_SIZE, forward(SHARE_SCALE));
    assert!(cell.velocity_changed && cell.size_changed);
    assert_eq!(cell.impulse, Motion { x: 0, y: 0 });
    assert_eq!(cell.size(), 2 * QUANTUM as u128);
}

#[test]
fn dead_cell_runs_no_substep() {
    let mut components = Components::none();
    components.chlorophyll = Some(ComponentProps::new(2 * QUANTUM, QUANTUM));
    let mut start = Cell::new(ledger(0, 0), Membrane {}, components);
    start.mark_dead();
    let mut slot = wrap(start);
    let change = update_slot(&mut slot, &vec![forward(0); 5], 5, STEP_SIZE).unwrap();
    assert!(change.dead);
    assert_eq!(change.velocity, None);
    assert_eq!(change.size, None);
    assert_eq!(slot.unwrap().inner, start);
}

#[test]
fn empty_slot_reports_nothing() {
    let mut slot: Option<CellWrapper> = None;
    assert_eq!(update_slot(&mut slot, &vec![], 5, STEP_SIZE), None);
    assert_eq!(slot, None);
}

#[test]
fn injected_component_replaces_the_slot_and_its_size() {
    let mut cell = Cell::new(ledger(1, 0), Membrane {}, Components::none());
    cell.inject_component(2, ComponentProps::new(3 * QUANTUM, QUANTUM));
    assert_eq!(cell.components.glycolysis, Some(ComponentProps::new(3 * QUANTUM, QUANTUM)));
    assert_eq!(cell.size(), 1 + 3 * QUANTUM as u128);
    assert!(cell.size_changed);
    cell.inject_component(2, ComponentProps::new(QUANTUM, 0));
    assert_eq!(cell.size(), 1 + QUANTUM as u128);
    assert_eq!(cell.size(), cell.generate_size());
}

#[test]
fn velocity_and_impulse_accumulate() {
    let mut cell = Cell::new(ledger(0, 0), Membrane {}, Components::none());
    cell.modify_impulse(0, 0);
    assert!(cell.velocity_changed);
    assert_eq!(cell.impulse, Motion { x: 0, y: 0 });
    cell.modify_impulse(i128::MAX, -3);
    cell.modify_impulse(5, -4);
    assert_eq!(cell.impulse, Motion { x: i128::MAX, y: -7 });
    assert!(cell.velocity_changed);
    cell.set_velocity(Motion { x: 1, y: 2 });
    assert_eq!(cell.impulse, Motion { x: 1, y: 2 });
    cell.modify_size(10, 4);
    assert_eq!(cell.size(), 6);
}

#[test]
fn random_draws_stay_in_range_and_vary() {
    let mut rng = StdRng::seed_from_u64(11);
    let mut at_bound = 0;
    for _ in 0..20 {
        let p = ComponentProps::random(&mut rng);
        assert!(p.proteins < 10 * QUANTUM && p.speed < QUANTUM);
        if p.proteins == 10 * QUANTUM - 1 && p.speed == QUANTUM - 1 {
            at_bound += 1;
        }
        let t = Thrust::random(&mut rng);
        assert!(t.left_share < SHARE_SCALE);
    }
    assert!(at_bound < 20);
    let cell = Cell::new_random(&mut rng);
    assert!(cell.inner.chemicals.atp < 10 * QUANTUM);
    assert!(cell.inner.nucleotides < 10 * QUANTUM);
    assert!(cell.inner.proteins >= 10 * QUANTUM && cell.inner.proteins < 11 * QUANTUM);
    assert!(cell.components.flagellum.is_some() && cell.components.protein_de_novo.is_some());
    assert_eq!(cell.size(), cell.generate_size());
}

#[test]
fn every_operation_reports_size_even_when_idle() {
    let props = ComponentProps::new(2 * QUANTUM, QUANTUM);
    let empty = Cell::new(ledger(0, 0), Membrane {}, Components::none());
    let ops: [fn(&ComponentProps, &mut Cell, u64); 3] = [glycolysis, nucleotide_de_novo, protein_de_novo];
    for op in ops {
        let mut cell = empty;
        op(&props, &mut cell, STEP_SIZE);
        assert!(cell.size_changed);
        assert_eq!(cell.inner, empty.inner);
        assert_eq!(cell.size(), 0);
    }
    let mut idle = empty;
    chlorophyll(&ComponentProps::new(QUANTUM, 0), &mut idle, STEP_SIZE);
    assert!(idle.size_changed);
    assert_eq!(idle.inner, empty.inner);
}
