use cell_sim::{Config, World};
use rand::rngs::StdRng;
use rand::SeedableRng;
use rapier2d::dynamics::RigidBodyHandle;
use rapier2d::geometry::ColliderHandle;

fn populated(count: u32) -> World {
    let mut world = World::new(Config::default(), StdRng::seed_from_u64(250));
    for i in 0..count {
        let cell = world.random_cell();
        world.inject_cell(
            cell,
            ColliderHandle::from_raw_parts(i, 0),
            RigidBodyHandle::from_raw_parts(i, 0),
        );
    }
    world
}

#[test]
fn full_test() {
    let mut world = populated(250);
    for _ in 0..250 {
        world.update();
    }
    assert_eq!(world.cells.len(), 250);
    assert!(world.cells.iter().all(|slot| slot.is_some()));
    assert!(world.free_indexes.is_empty());
    for slot in world.cells.iter().flatten() {
        assert_eq!(slot.inner.size(), slot.inner.generate_size());
    }
}

#[test]
fn test_cells() {
    let mut world = populated(250);
    for _ in 0..250 {
        let draws = world.draw_thrusts();
        let changes = world.update_cells(&draws);
        assert_eq!(changes.len(), 250);
        assert!(changes.iter().all(|c| c.is_some() && !c.unwrap().dead));
    }
    for (i, slot) in world.cells.iter().enumerate() {
        let w = slot.unwrap();
        assert_eq!(w.index, i);
        assert_eq!(w.inner.size(), w.inner.generate_size());
    }
}
