use cell_sim::{
    Cell, Chemicals, ComponentProps, Components, Config, Inner, Membrane, PhysicsCommand, World,
    QUANTUM, SHARE_SCALE,
};
use rand::rngs::StdRng;
use rand::SeedableRng;
use rapier2d::dynamics::RigidBodyHandle;
use rapier2d::geometry::ColliderHandle;

fn body(i: u32) -> RigidBodyHandle {
    RigidBodyHandle::from_raw_parts(i, 0)
}

fn collider(i: u32) -> ColliderHandle {
    ColliderHandle::from_raw_parts(i, 0)
}

fn quiet_cell() -> Cell {
    let inner = Inner { chemicals: Chemicals { atp: 7, glucose: 0 }, nucleotides: 0, proteins: 0 };
    Cell::new(inner, Membrane {}, Components::none())
}

fn small_config(parallel: bool) -> Config {
    Config { initial_population: 0, substeps_per_tick: 10, step_size: 10, parallel }
}

fn world(parallel: bool, seed: u64) -> World {
    World::new(small_config(parallel), StdRng::seed_from_u64(seed))
}

#[test]
fn default_config() {
    let c = Config::default();
    assert_eq!(c.initial_population, 250);
    assert_eq!(c.substeps_per_tick, 300);
    assert_eq!(c.step_size, 10);
    assert!(c.parallel);
}

#[test]
fn insertion_appends_while_nothing_is_free() {
    let mut w = world(false, 1);
    for i in 0..3u32 {
        assert_eq!(w.inject_cell(quiet_cell(), collider(i), body(i)), i as usize);
    }
    assert_eq!(w.cells.len(), 3);
    assert!(w.free_indexes.is_empty());
    assert_eq!(w.cells[2].unwrap().index, 2);
}

#[test]
fn freed_slot_is_reused_most_recent_first() {
    let mut w = world(false, 1);
    for i in 0..4u32 {
        w.inject_cell(quiet_cell(), collider(i), body(i));
    }
    let removed = w.remove_cell(1);
    assert_eq!(removed.rigid_body_handle, body(1));
    assert_eq!(w.cells[1], None);
    assert_eq!(w.inject_cell(quiet_cell(), collider(9), body(9)), 1);
    w.remove_cell(0);
    w.remove_cell(3);
    assert_eq!(w.free_indexes, vec![0, 3]);
    assert_eq!(w.inject_cell(quiet_cell(), collider(10), body(10)), 3);
    assert_eq!(w.inject_cell(quiet_cell(), collider(11), body(11)), 0);
    assert_eq!(w.inject_cell(quiet_cell(), collider(12), body(12)), 4);
    // the live cells kept their slots
    assert_eq!(w.cells[1].unwrap().rigid_body_handle, body(9));
    assert_eq!(w.cells[2].unwrap().rigid_body_handle, body(2));
}

#[test]
fn killed_cell_is_freed_at_commit() {
    let mut w = world(false, 2);
    w.inject_cell(quiet_cell(), collider(0), body(0));
    w.inject_cell(quiet_cell(), collider(1), body(1));
    w.inject_cell(quiet_cell(), collider(2), body(2));
    w.kill_cell(1);
    let draws = w.draw_thrusts();
    let changes = w.update_cells(&draws);
    assert!(changes[1].unwrap().dead);
    // nothing is freed before the commit
    assert!(w.cells[1].is_some());
    let commands = w.commit(&changes);
    assert_eq!(w.cells[1], None);
    assert_eq!(w.free_indexes.last(), Some(&1));
    assert_eq!(commands, vec![PhysicsCommand::Remove { body: body(1), collider: collider(1) }]);
    assert!(w.cells[0].is_some() && w.cells[2].is_some());
    assert_eq!(w.inject_cell(quiet_cell(), collider(5), body(5)), 1);
}

#[test]
fn cell_without_deltas_leaves_physics_alone() {
    let mut w = world(false, 3);
    w.inject_cell(quiet_cell(), collider(0), body(0));
    let mut components = Components::none();
    components.chlorophyll = Some(ComponentProps::new(2 * QUANTUM, QUANTUM));
    let grower = Cell::new(Inner::default(), Membrane {}, components);
    w.inject_cell(grower, collider(1), body(1));
    let commands = w.update();
    // only the growing cell's collider is resized; no body is touched
    assert_eq!(commands.len(), 1);
    match commands[0] {
        PhysicsCommand::Resize { collider: c, size } => {
            assert_eq!(c, collider(1));
            assert_eq!(size, 2 * QUANTUM as u128 + 10 * 10 * 6_666);
        }
        _ => panic!("expected a resize"),
    }
    assert_eq!(w.cells[0].unwrap().inner, quiet_cell());
}

#[test]
fn parallel_and_sequential_ticks_agree() {
    let mut a = world(true, 42);
    let mut b = world(false, 42);
    for i in 0..40u32 {
        let ca = a.random_cell();
        let cb = b.random_cell();
        assert_eq!(ca, cb);
        a.inject_cell(ca, collider(i), body(i));
        b.inject_cell(cb, collider(i), body(i));
    }
    a.kill_cell(7);
    b.kill_cell(7);
    for _ in 0..3 {
        let ra = a.update();
        let rb = b.update();
        assert_eq!(ra, rb);
        assert_eq!(a.cells, b.cells);
        assert_eq!(a.free_indexes, b.free_indexes);
    }
    assert_eq!(a.free_indexes, vec![7]);
}

#[test]
fn thrusts_are_drawn_for_live_slots_only() {
    let mut w = world(false, 5);
    w.inject_cell(quiet_cell(), collider(0), body(0));
    w.inject_cell(quiet_cell(), collider(1), body(1));
    w.remove_cell(0);
    let draws = w.draw_thrusts();
    assert_eq!(draws.len(), 2);
    assert!(draws[0].is_empty());
    assert_eq!(draws[1].len(), 10);
    assert!(draws[1].iter().all(|t| t.left_share < SHARE_SCALE));
}

#[test]
fn injecting_a_component_asks_for_a_resize() {
    let mut w = world(false, 6);
    w.inject_cell(quiet_cell(), collider(0), body(0));
    let command = w.inject_component(0, 4, ComponentProps::new(QUANTUM, 5));
    assert_eq!(command, PhysicsCommand::Resize { collider: collider(0), size: 7 + QUANTUM as u128 });
    let cell = w.cells[0].unwrap().inner;
    assert_eq!(cell.components.protein_de_novo, Some(ComponentProps::new(QUANTUM, 5)));
    assert_eq!(cell.size(), 7 + QUANTUM as u128);
}

#[test]
fn motion_is_committed_as_a_velocity_change() {
    let mut w = world(false, 8);
    let mut components = Components::none();
    components.flagellum = Some(ComponentProps::new(2 * QUANTUM, QUANTUM));
    let inner = Inner { chemicals: Chemicals { atp: 5 * QUANTUM, glucose: 0 }, nucleotides: 0, proteins: 0 };
    w.inject_cell(Cell::new(inner, Membrane {}, components), collider(0), body(0));
    let commands = w.update();
    assert_eq!(commands.len(), 2);
    match commands[0] {
        PhysicsCommand::AddVelocity { body: b, motion } => {
            assert_eq!(b, body(0));
            // opposite signs across sub-steps may cancel, never add up past the output
            assert!(motion.x.abs() + motion.y.abs() <= 10 * 6_666);
        }
        _ => panic!("expected a velocity change"),
    }
    assert_eq!(commands[1], PhysicsCommand::Resize { collider: collider(0), size: 5 * QUANTUM as u128 - 100_000 + 2 * QUANTUM as u128 });
    let after = w.cells[0].unwrap().inner;
    assert_eq!(after.inner.chemicals.atp, 5 * QUANTUM - 100_000);
    assert!(!after.velocity_changed);
}

#[test]
fn ticks_keep_every_cell_consistent() {
    let mut w = world(true, 9);
    for i in 0..20u32 {
        let c = w.random_cell();
        w.inject_cell(c, collider(i), body(i));
    }
    w.kill_cell(3);
    w.kill_cell(12);
    for _ in 0..5 {
        w.update();
        for (i, slot) in w.cells.iter().enumerate() {
            match slot {
                Some(wrapper) => {
                    assert_eq!(wrapper.index, i);
                    assert_eq!(wrapper.rigid_body_handle, body(i as u32));
                    assert_eq!(wrapper.inner.size(), wrapper.inner.generate_size());
                    assert!(!wrapper.inner.size_changed && !wrapper.inner.velocity_changed);
                }
                None => assert!(w.free_indexes.contains(&i)),
            }
        }
    }
    assert_eq!(w.free_indexes, vec![3, 12]);
}
