use rand::rngs::StdRng;
use rapier2d::dynamics::RigidBodyHandle;
use rapier2d::geometry::ColliderHandle;
use vstd::prelude::*;

use crate::binding::{CellChanges, CellWrapper, PhysicsCommand};
use crate::cell::{is_random_cell, with_component, Cell};
use crate::component::{component_order, ComponentProps, COMPONENT_COUNT, STEP_SIZE};
use crate::pathways::Thrust;
use crate::updates::{
    compute_deltas, lemma_slot_tick_keeps_binding, slot_ready, slots_ready, tick_changes,
    ticked_cells,
};

verus! {

/// Configuration of a world.
#[derive(Clone, Copy, Debug, PartialEq, Eq)]
pub struct Config {
    /// Cells to create when the world is populated.
    pub initial_population: usize,
    /// Metabolic sub-steps per tick.
    pub substeps_per_tick: usize,
    /// Length of one sub-step, in thousandths of a time unit.
    pub step_size: u64,
    /// Whether cells compute their deltas on a pool of worker threads.
    pub parallel: bool,
}

impl Default for Config {
    /// Two hundred and fifty cells, three hundred sub-steps of a hundredth
    /// each, computed in parallel.
    fn default() -> (r: Self)
        ensures
            r.initial_population == 250,
            r.substeps_per_tick == 300,
            r.step_size == STEP_SIZE,
            r.parallel,
    {
        Config {
            initial_population: 250,
            substeps_per_tick: 300,
            step_size: STEP_SIZE,
            parallel: true,
        }
    }
}

/// The slot a new cell goes to: the most recently freed one, else a new slot
/// at the end.
pub open spec fn next_index(free: Seq<usize>, len: nat) -> int {
    if free.len() > 0 {
        free.last() as int
    } else {
        len as int
    }
}

/// Two slots hold the same binding: the same index and the same handles.
pub open spec fn same_binding(a: CellWrapper, b: CellWrapper) -> bool {
    &&& a.index == b.index
    &&& a.rigid_body_handle == b.rigid_body_handle
    &&& a.collider_handle == b.collider_handle
}

/// Every slot live in `before` is live in `after` under the same binding.
pub open spec fn keeps_live(
    before: Seq<Option<CellWrapper>>,
    after: Seq<Option<CellWrapper>>,
) -> bool {
    forall|i: int|
        0 <= i < before.len() && (#[trigger] before[i]).is_some() ==> i < after.len()
            && after[i].is_some() && same_binding(before[i].unwrap(), after[i].unwrap())
}

/// No two live slots share a body handle or a collider handle: each slot's
/// binding is its own.
pub open spec fn handles_distinct(cells: Seq<Option<CellWrapper>>) -> bool {
    forall|i: int, j: int|
        0 <= i < cells.len() && 0 <= j < cells.len() && i != j && (#[trigger] cells[i]).is_some()
            && (#[trigger] cells[j]).is_some() ==> cells[i].unwrap().rigid_body_handle
            != cells[j].unwrap().rigid_body_handle && cells[i].unwrap().collider_handle
            != cells[j].unwrap().collider_handle
}

/// No live slot is bound to either of the given handles.
pub open spec fn handles_fresh(
    cells: Seq<Option<CellWrapper>>,
    collider: ColliderHandle,
    body: RigidBodyHandle,
) -> bool {
    forall|i: int|
        0 <= i < cells.len() && (#[trigger] cells[i]).is_some() ==> cells[i].unwrap().collider_handle
            != collider && cells[i].unwrap().rigid_body_handle != body
}

/// The slot table's invariant: each live slot knows its own index, holds a
/// well-formed cell and owns its handles; the free list holds each empty
/// slot's index, once, and nothing else.
pub open spec fn table_wf(cells: Seq<Option<CellWrapper>>, free: Seq<usize>) -> bool {
    &&& handles_distinct(cells)
    &&& forall|i: int|
        0 <= i < cells.len() && (#[trigger] cells[i]).is_none() ==> free.contains(i as usize)
    &&& forall|i: int|
        0 <= i < cells.len() && (#[trigger] cells[i]).is_some() ==> cells[i].unwrap().index == i
            && cells[i].unwrap().inner.wf()
    &&& forall|k: int|
        0 <= k < free.len() ==> #[trigger] free[k] < cells.len() && cells[free[k] as int].is_none()
    &&& forall|k1: int, k2: int| 0 <= k1 < k2 < free.len() ==> free[k1] != free[k2]
}

/// Each outcome sits at the slot of the live cell it is about, with that
/// cell's handles.
pub open spec fn changes_match(
    cells: Seq<Option<CellWrapper>>,
    changes: Seq<Option<CellChanges>>,
) -> bool {
    &&& cells.len() == changes.len()
    &&& forall|i: int|
        0 <= i < changes.len() && (#[trigger] changes[i]).is_some() ==> {
            &&& cells[i].is_some()
            &&& changes[i].unwrap().index == i
            &&& changes[i].unwrap().rigid_body_handle == cells[i].unwrap().rigid_body_handle
            &&& changes[i].unwrap().collider_handle == cells[i].unwrap().collider_handle
        }
}

/// Whether an outcome reports a death.
pub open spec fn is_death(change: Option<CellChanges>) -> bool {
    change.is_some() && change.unwrap().dead
}

/// The physics writes that one outcome calls for: removal for a death, else a
/// velocity change where motion was produced and a resize where the size
/// changed.
pub open spec fn commands_for(ch: CellChanges) -> Seq<PhysicsCommand> {
    if ch.dead {
        seq![PhysicsCommand::Remove { body: ch.rigid_body_handle, collider: ch.collider_handle }]
    } else {
        (match ch.velocity {
            Some(m) => seq![PhysicsCommand::AddVelocity { body: ch.rigid_body_handle, motion: m }],
            None => Seq::empty(),
        }) + (match ch.size {
            Some(s) => seq![PhysicsCommand::Resize { collider: ch.collider_handle, size: s }],
            None => Seq::empty(),
        })
    }
}

/// The physics writes for the first `n` outcomes, in slot order.
pub open spec fn commands_upto(changes: Seq<Option<CellChanges>>, n: nat) -> Seq<PhysicsCommand>
    decreases n,
{
    if n == 0 {
        Seq::empty()
    } else {
        commands_upto(changes, (n - 1) as nat) + match changes[n - 1] {
            Some(ch) => commands_for(ch),
            None => Seq::empty(),
        }
    }
}

/// The indexes among the first `n` outcomes that report a death, ascending.
pub open spec fn dead_indices(changes: Seq<Option<CellChanges>>, n: nat) -> Seq<usize>
    decreases n,
{
    if n == 0 {
        Seq::empty()
    } else {
        dead_indices(changes, (n - 1) as nat) + if is_death(changes[n - 1]) {
            seq![(n - 1) as usize]
        } else {
            Seq::empty()
        }
    }
}

/// The table after committing: slots of dead cells are emptied, every other
/// slot is left as it is.
pub open spec fn committed_cells(
    cells: Seq<Option<CellWrapper>>,
    changes: Seq<Option<CellChanges>>,
) -> Seq<Option<CellWrapper>> {
    Seq::new(
        cells.len(),
        |i: int|
            if is_death(changes[i]) {
                None
            } else {
                cells[i]
            },
    )
}

/// Whether a physics write is called for by one of the first `n` outcomes:
/// a removal by a death, a velocity change by a living cell's motion, a resize
/// by a living cell's new size, each with that outcome's handle.
pub open spec fn justified(cmd: PhysicsCommand, changes: Seq<Option<CellChanges>>, n: nat) -> bool {
    exists|j: int|
        0 <= j < n && (#[trigger] changes[j]).is_some() && {
            let ch = changes[j].unwrap();
            match cmd {
                PhysicsCommand::AddVelocity { body, motion } => !ch.dead && ch.velocity == Some(
                    motion,
                ) && body == ch.rigid_body_handle,
                PhysicsCommand::Resize { collider, size } => !ch.dead && ch.size == Some(size)
                    && collider == ch.collider_handle,
                PhysicsCommand::Remove { body, collider } => ch.dead && body == ch.rigid_body_handle
                    && collider == ch.collider_handle,
            }
        }
}

/// Committing touches a body's velocity only for a cell that produced motion,
/// and a collider's shape only for a cell whose size changed: every write is
/// called for by an outcome that carries it.
pub proof fn lemma_commands_justified(changes: Seq<Option<CellChanges>>, n: nat)
    requires
        n <= changes.len(),
    ensures
        forall|k: int|
            0 <= k < commands_upto(changes, n).len() ==> justified(
                #[trigger] commands_upto(changes, n)[k],
                changes,
                n,
            ),
    decreases n,
{
    if n > 0 {
        let m = (n - 1) as nat;
        lemma_commands_justified(changes, m);
        let prefix = commands_upto(changes, m);
        let all = commands_upto(changes, n);
        assert forall|k: int| 0 <= k < all.len() implies justified(#[trigger] all[k], changes, n) by {
            if k < prefix.len() {
                assert(all[k] == prefix[k]);
                assert(justified(prefix[k], changes, m));
                let j = choose|j: int|
                    0 <= j < m && (#[trigger] changes[j]).is_some() && {
                        let ch = changes[j].unwrap();
                        match prefix[k] {
                            PhysicsCommand::AddVelocity { body, motion } => !ch.dead
                                && ch.velocity == Some(motion) && body == ch.rigid_body_handle,
                            PhysicsCommand::Resize { collider, size } => !ch.dead && ch.size
                                == Some(size) && collider == ch.collider_handle,
                            PhysicsCommand::Remove { body, collider } => ch.dead && body
                                == ch.rigid_body_handle && collider == ch.collider_handle,
                        }
                    };
                assert(0 <= j < n);
            } else {
                assert(changes[m as int].is_some());
                let ch = changes[m as int].unwrap();
                let own = commands_for(ch);
                assert(all[k] == own[k - prefix.len()]);
                assert(changes[m as int] == Some(ch));
            }
        }
    }
}

/// Whether a physics write changes the given body: a velocity change or a
/// removal of it.
pub open spec fn touches_body(cmd: PhysicsCommand, body: RigidBodyHandle) -> bool {
    match cmd {
        PhysicsCommand::AddVelocity { body: b, .. } => b == body,
        PhysicsCommand::Remove { body: b, .. } => b == body,
        PhysicsCommand::Resize { .. } => false,
    }
}

/// Whether a physics write changes the given collider: a resize or a removal
/// of it.
pub open spec fn touches_collider(cmd: PhysicsCommand, collider: ColliderHandle) -> bool {
    match cmd {
        PhysicsCommand::Resize { collider: c, .. } => c == collider,
        PhysicsCommand::Remove { collider: c, .. } => c == collider,
        PhysicsCommand::AddVelocity { .. } => false,
    }
}

/// A living cell that produced no motion delta has its body left alone by the
/// commit, and one that produced no size delta has its collider left alone:
/// no write of the commit names that body or that collider.
pub proof fn lemma_untouched_without_delta(
    cells: Seq<Option<CellWrapper>>,
    free: Seq<usize>,
    changes: Seq<Option<CellChanges>>,
    i: int,
)
    requires
        table_wf(cells, free),
        changes_match(cells, changes),
        0 <= i < changes.len(),
        changes[i].is_some(),
        !changes[i].unwrap().dead,
    ensures
        changes[i].unwrap().velocity.is_none() ==> forall|k: int|
            0 <= k < commands_upto(changes, changes.len()).len() ==> !touches_body(
                #[trigger] commands_upto(changes, changes.len())[k],
                cells[i].unwrap().rigid_body_handle,
            ),
        changes[i].unwrap().size.is_none() ==> forall|k: int|
            0 <= k < commands_upto(changes, changes.len()).len() ==> !touches_collider(
                #[trigger] commands_upto(changes, changes.len())[k],
                cells[i].unwrap().collider_handle,
            ),
{
    let n = changes.len();
    let all = commands_upto(changes, n);
    lemma_commands_justified(changes, n);
    assert(changes[i].is_some());
    assert forall|k: int| 0 <= k < all.len() implies {
        &&& (changes[i].unwrap().velocity.is_none() ==> !touches_body(
            #[trigger] all[k],
            cells[i].unwrap().rigid_body_handle,
        ))
        &&& (changes[i].unwrap().size.is_none() ==> !touches_collider(
            all[k],
            cells[i].unwrap().collider_handle,
        ))
    } by {
        assert(justified(all[k], changes, n));
        let j = choose|j: int|
            0 <= j < n && (#[trigger] changes[j]).is_some() && {
                let ch = changes[j].unwrap();
                match all[k] {
                    PhysicsCommand::AddVelocity { body, motion } => !ch.dead && ch.velocity == Some(
                        motion,
                    ) && body == ch.rigid_body_handle,
                    PhysicsCommand::Resize { collider, size } => !ch.dead && ch.size == Some(size)
                        && collider == ch.collider_handle,
                    PhysicsCommand::Remove { body, collider } => ch.dead && body
                        == ch.rigid_body_handle && collider == ch.collider_handle,
                }
            };
        assert(cells[j].is_some());
        assert(cells[i].is_some());
        if j != i {
            assert(cells[i].unwrap().rigid_body_handle != cells[j].unwrap().rigid_body_handle);
            assert(cells[i].unwrap().collider_handle != cells[j].unwrap().collider_handle);
        }
    }
}

/// Reuse goes most recently freed first: once slot `i` is freed, the next
/// insertion goes to `i`, before any slot freed earlier.
pub proof fn lemma_reuse_most_recently_freed(free: Seq<usize>, i: usize, len: nat)
    ensures
        next_index(free.push(i), len) == i,
{
}

/// A tick with the given draws takes the table and free list `cells`, `free`
/// to `cells2`, `free2` and calls for the physics writes `commands`: every
/// live cell runs its sub-steps, the slots of cells that died are freed, and
/// the writes are those the outcomes call for.
pub open spec fn ticked_to(
    cells: Seq<Option<CellWrapper>>,
    free: Seq<usize>,
    config: Config,
    draws: Seq<Vec<Thrust>>,
    cells2: Seq<Option<CellWrapper>>,
    free2: Seq<usize>,
    commands: Seq<PhysicsCommand>,
) -> bool {
    let n = config.substeps_per_tick as nat;
    let changes = tick_changes(cells, draws, n, config.step_size);
    &&& slots_ready(cells, draws, n)
    &&& cells2 == committed_cells(ticked_cells(cells, draws, n, config.step_size), changes)
    &&& free2 == free + dead_indices(changes, changes.len())
    &&& commands == commands_upto(changes, changes.len())
}

/// Across a tick a live cell keeps its slot: unless it died in this tick,
/// it is live afterwards at the same index with the same handles.
pub proof fn lemma_tick_keeps_indexes(
    cells: Seq<Option<CellWrapper>>,
    free: Seq<usize>,
    config: Config,
    draws: Seq<Vec<Thrust>>,
    cells2: Seq<Option<CellWrapper>>,
    free2: Seq<usize>,
    commands: Seq<PhysicsCommand>,
)
    requires
        table_wf(cells, free),
        ticked_to(cells, free, config, draws, cells2, free2, commands),
    ensures
        forall|i: int|
            0 <= i < cells.len() && (#[trigger] cells[i]).is_some() && !ticked_cells(
                cells,
                draws,
                config.substeps_per_tick as nat,
                config.step_size,
            )[i].unwrap().inner.dead ==> i < cells2.len() && cells2[i].is_some() && same_binding(
                cells[i].unwrap(),
                cells2[i].unwrap(),
            ) && cells2[i].unwrap().index == i,
{
    let n = config.substeps_per_tick as nat;
    assert forall|i: int|
        0 <= i < cells.len() && (#[trigger] cells[i]).is_some() && !ticked_cells(
            cells,
            draws,
            n,
            config.step_size,
        )[i].unwrap().inner.dead implies i < cells2.len() && cells2[i].is_some() && same_binding(
        cells[i].unwrap(),
        cells2[i].unwrap(),
    ) && cells2[i].unwrap().index == i by {
        lemma_slot_tick_keeps_binding(cells[i], draws[i]@, n, config.step_size);
    }
}

/// A world: the slot table of cells, the list of freed slots, its
/// configuration and its source of randomness. The physics world that the
/// slots' handles refer to is kept by the caller.
pub struct World {
    pub cells: Vec<Option<CellWrapper>>,
    pub free_indexes: Vec<usize>,
    pub config: Config,
    pub rng: StdRng,
}

impl World {
    /// The slot table's invariant holds.
    pub open spec fn wf(&self) -> bool {
        table_wf(self.cells@, self.free_indexes@)
    }

    /// An empty world with the given configuration and random source.
    pub fn new(config: Config, rng: StdRng) -> (r: Self)
        ensures
            r.wf(),
            r.cells@.len() == 0,
            r.free_indexes@.len() == 0,
            r.config == config,
    {
        World { cells: Vec::new(), free_indexes: Vec::new(), config, rng }
    }

    /// A random cell drawn from the world's random source.
    pub fn random_cell(&mut self) -> (r: Cell)
        ensures
            is_random_cell(r),
            final(self).cells == old(self).cells,
            final(self).free_indexes == old(self).free_indexes,
            final(self).config == old(self).config,
    {
        Cell::new_random(&mut self.rng)
    }

    /// Puts a cell bound to the given physics handles into the most recently
    /// freed slot, or a new one at the end, and returns its index.
    pub fn inject_cell(
        &mut self,
        cell: Cell,
        collider_handle: ColliderHandle,
        rigid_body_handle: RigidBodyHandle,
    ) -> (r: usize)
        requires
            old(self).wf(),
            cell.wf(),
            handles_fresh(old(self).cells@, collider_handle, rigid_body_handle),
        ensures
            final(self).wf(),
            r == next_index(old(self).free_indexes@, old(self).cells@.len()),
            ({
                let w = CellWrapper { inner: cell, collider_handle, rigid_body_handle, index: r };
                if old(self).free_indexes@.len() > 0 {
                    &&& final(self).cells@ == old(self).cells@.update(r as int, Some(w))
                    &&& final(self).free_indexes@ == old(self).free_indexes@.drop_last()
                    &&& old(self).cells@[r as int].is_none()
                } else {
                    &&& final(self).cells@ == old(self).cells@.push(Some(w))
                    &&& final(self).free_indexes@ == old(self).free_indexes@
                }
            }),
            keeps_live(old(self).cells@, final(self).cells@),
            final(self).config == old(self).config,
    {
        match self.free_indexes.pop() {
            Some(index) => {
                assert(old(self).free_indexes@[old(self).free_indexes@.len() - 1] == index);
                let w = CellWrapper { inner: cell, collider_handle, rigid_body_handle, index };
                self.cells.set(index, Some(w));
                proof {
                    let f = old(self).free_indexes@;
                    assert forall|k: int| 0 <= k < self.free_indexes@.len() implies #[trigger] self.free_indexes@[k]
                        != index by {
                        assert(f[k] != f[f.len() - 1]);
                    }
                    assert forall|i: int|
                        0 <= i < self.cells@.len() && (#[trigger] self.cells@[i]).is_none()
                            implies self.free_indexes@.contains(i as usize) by {
                        assert(old(self).cells@[i].is_none());
                        assert(f.contains(i as usize));
                        let k = choose|k: int| 0 <= k < f.len() && f[k] == i as usize;
                        assert(k != f.len() - 1);
                        assert(self.free_indexes@[k] == i as usize);
                    }
                }
                index
            },
            None => {
                let index = self.cells.len();
                let w = CellWrapper { inner: cell, collider_handle, rigid_body_handle, index };
                self.cells.push(Some(w));
                index
            },
        }
    }

    /// Empties the live slot at `index`, puts the index at the head of the free
    /// list, and returns what the slot held.
    pub fn remove_cell(&mut self, index: usize) -> (r: CellWrapper)
        requires
            old(self).wf(),
            index < old(self).cells@.len(),
            old(self).cells@[index as int].is_some(),
        ensures
            final(self).wf(),
            old(self).cells@[index as int] == Some(r),
            final(self).cells@ == old(self).cells@.update(index as int, None),
            final(self).free_indexes@ == old(self).free_indexes@.push(index),
            final(self).config == old(self).config,
    {
        let w = self.cells[index].unwrap();
        self.cells.set(index, None);
        self.free_indexes.push(index);
        proof {
            let f = old(self).free_indexes@;
            assert forall|k: int| 0 <= k < f.len() implies #[trigger] f[k] != index by {
                assert(old(self).cells@[f[k] as int].is_none());
            }
            assert forall|i: int|
                0 <= i < self.cells@.len() && (#[trigger] self.cells@[i]).is_none()
                    implies self.free_indexes@.contains(i as usize) by {
                if i == index {
                    assert(self.free_indexes@[f.len() as int] == index);
                } else {
                    assert(old(self).cells@[i].is_none());
                    assert(f.contains(i as usize));
                    let k = choose|k: int| 0 <= k < f.len() && f[k] == i as usize;
                    assert(self.free_indexes@[k] == i as usize);
                }
            }
        }
        w
    }

    /// Marks the cell in the live slot at `index` dead; the next tick reports
    /// its death and committing that tick frees the slot.
    pub fn kill_cell(&mut self, index: usize)
        requires
            old(self).wf(),
            index < old(self).cells@.len(),
            old(self).cells@[index as int].is_some(),
        ensures
            final(self).wf(),
            ({
                let w = old(self).cells@[index as int].unwrap();
                final(self).cells@ == old(self).cells@.update(
                    index as int,
                    Some(CellWrapper { inner: Cell { dead: true, ..w.inner }, ..w }),
                )
            }),
            keeps_live(old(self).cells@, final(self).cells@),
            final(self).free_indexes == old(self).free_indexes,
            final(self).config == old(self).config,
    {
        let mut w = self.cells[index].unwrap();
        w.inner.mark_dead();
        self.cells.set(index, Some(w));
    }

    /// Puts `component` in slot `component_index` of the cell at `cell_index`
    /// and returns the resize that its collider needs.
    pub fn inject_component(
        &mut self,
        cell_index: usize,
        component_index: usize,
        component: ComponentProps,
    ) -> (r: PhysicsCommand)
        requires
            old(self).wf(),
            cell_index < old(self).cells@.len(),
            old(self).cells@[cell_index as int].is_some(),
            component_index < COMPONENT_COUNT,
        ensures
            final(self).wf(),
            ({
                let w = old(self).cells@[cell_index as int].unwrap();
                let kind = component_order()[component_index as int];
                let c = with_component(w.inner, kind, component);
                &&& final(self).cells@ == old(self).cells@.update(
                    cell_index as int,
                    Some(CellWrapper { inner: c, ..w }),
                )
                &&& r == PhysicsCommand::Resize { collider: w.collider_handle, size: c.size }
            }),
            keeps_live(old(self).cells@, final(self).cells@),
            final(self).free_indexes == old(self).free_indexes,
            final(self).config == old(self).config,
    {
        let mut w = self.cells[cell_index].unwrap();
        w.inner.inject_component(component_index, component);
        self.cells.set(cell_index, Some(w));
        PhysicsCommand::Resize { collider: w.collider_handle, size: w.inner.size() }
    }

    /// Draws this tick's thrusts: one per sub-step for every live slot, none
    /// for an empty one.
    pub fn draw_thrusts(&mut self) -> (r: Vec<Vec<Thrust>>)
        requires
            old(self).wf(),
        ensures
            slots_ready(old(self).cells@, r@, old(self).config.substeps_per_tick as nat),
            final(self).cells == old(self).cells,
            final(self).free_indexes == old(self).free_indexes,
            final(self).config == old(self).config,
    {
        let substeps = self.config.substeps_per_tick;
        let mut draws: Vec<Vec<Thrust>> = Vec::new();
        let mut i: usize = 0;
        while i < self.cells.len()
            invariant
                self.wf(),
                self.cells == old(self).cells,
                self.free_indexes == old(self).free_indexes,
                self.config == old(self).config,
                substeps == self.config.substeps_per_tick,
                i <= self.cells@.len(),
                draws@.len() == i,
                forall|j: int|
                    0 <= j < i ==> #[trigger] slot_ready(
                        self.cells@[j],
                        draws@[j]@,
                        substeps as nat,
                    ),
            decreases self.cells@.len() - i,
        {
            let mut slot_draws: Vec<Thrust> = Vec::new();
            if self.cells[i].is_some() {
                let mut k: usize = 0;
                while k < substeps
                    invariant
                        self.cells == old(self).cells,
                        self.free_indexes == old(self).free_indexes,
                        self.config == old(self).config,
                        k <= substeps,
                        slot_draws@.len() == k,
                        forall|m: int| 0 <= m < k ==> #[trigger] slot_draws@[m].wf(),
                    decreases substeps - k,
                {
                    slot_draws.push(Thrust::random(&mut self.rng));
                    k = k + 1;
                }
            }
            draws.push(slot_draws);
            i = i + 1;
        }
        draws
    }

    /// Computes every live cell's outcome for this tick from the given
    /// thrusts; on a pool of worker threads when the configuration says so,
    /// with the same outcome either way. Nothing is freed yet.
    pub fn update_cells(&mut self, draws: &Vec<Vec<Thrust>>) -> (r: Vec<Option<CellChanges>>)
        requires
            old(self).wf(),
            slots_ready(old(self).cells@, draws@, old(self).config.substeps_per_tick as nat),
        ensures
            final(self).wf(),
            final(self).cells@ == ticked_cells(
                old(self).cells@,
                draws@,
                old(self).config.substeps_per_tick as nat,
                old(self).config.step_size,
            ),
            r@ == tick_changes(
                old(self).cells@,
                draws@,
                old(self).config.substeps_per_tick as nat,
                old(self).config.step_size,
            ),
            changes_match(final(self).cells@, r@),
            keeps_live(old(self).cells@, final(self).cells@),
            final(self).free_indexes == old(self).free_indexes,
            final(self).config == old(self).config,
    {
        let substeps = self.config.substeps_per_tick;
        let step_size = self.config.step_size;
        let parallel = self.config.parallel;
        let r = compute_deltas(&mut self.cells, draws, substeps, step_size, parallel);
        proof {
            let before = old(self).cells@;
            assert forall|k: int| 0 <= k < self.free_indexes@.len() implies #[trigger] self.free_indexes@[k]
                < self.cells@.len() && self.cells@[self.free_indexes@[k] as int].is_none() by {
                let f = self.free_indexes@[k] as int;
                lemma_slot_tick_keeps_binding(before[f], draws@[f]@, substeps as nat, step_size);
            }
            assert forall|i: int| 0 <= i < self.cells@.len() && (#[trigger] self.cells@[i]).is_some()
                implies self.cells@[i].unwrap().index == i && self.cells@[i].unwrap().inner.wf() by {
                lemma_slot_tick_keeps_binding(before[i], draws@[i]@, substeps as nat, step_size);
            }
            assert forall|i: int| 0 <= i < r@.len() && (#[trigger] r@[i]).is_some() implies {
                &&& self.cells@[i].is_some()
                &&& r@[i].unwrap().index == i
                &&& r@[i].unwrap().rigid_body_handle == self.cells@[i].unwrap().rigid_body_handle
                &&& r@[i].unwrap().collider_handle == self.cells@[i].unwrap().collider_handle
            } by {
                lemma_slot_tick_keeps_binding(before[i], draws@[i]@, substeps as nat, step_size);
            }
            assert forall|i: int| 0 <= i < before.len() && (#[trigger] before[i]).is_some() implies i
                < self.cells@.len() && self.cells@[i].is_some() && same_binding(
                before[i].unwrap(),
                self.cells@[i].unwrap(),
            ) by {
                lemma_slot_tick_keeps_binding(before[i], draws@[i]@, substeps as nat, step_size);
            }
        }
        r
    }

    /// Commits the outcomes of a tick: frees the slot of every cell that died
    /// (its index goes to the head of the free list) and returns, in slot
    /// order, the physics writes that the outcomes call for.
    pub fn commit(&mut self, changes: &Vec<Option<CellChanges>>) -> (r: Vec<PhysicsCommand>)
        requires
            old(self).wf(),
            changes_match(old(self).cells@, changes@),
        ensures
            final(self).wf(),
            final(self).cells@ == committed_cells(old(self).cells@, changes@),
            final(self).free_indexes@ == old(self).free_indexes@ + dead_indices(
                changes@,
                changes@.len(),
            ),
            r@ == commands_upto(changes@, changes@.len()),
            final(self).config == old(self).config,
    {
        let ghost before = self.cells@;
        let mut commands: Vec<PhysicsCommand> = Vec::new();
        let mut i: usize = 0;
        while i < changes.len()
            invariant
                self.wf(),
                self.config == old(self).config,
                changes_match(before, changes@),
                before == old(self).cells@,
                i <= changes@.len(),
                self.cells@.len() == before.len(),
                forall|j: int|
                    0 <= j < i ==> #[trigger] self.cells@[j] == if is_death(changes@[j]) {
                        None
                    } else {
                        before[j]
                    },
                forall|j: int| i <= j < before.len() ==> #[trigger] self.cells@[j] == before[j],
                self.free_indexes@ == old(self).free_indexes@ + dead_indices(changes@, i as nat),
                commands@ == commands_upto(changes@, i as nat),
            decreases changes@.len() - i,
        {
            let ghost prior_commands = commands@;
            let ghost prior_free = self.free_indexes@;
            match changes[i] {
                Some(ch) => {
                    if ch.dead {
                        let _ = self.remove_cell(i);
                        commands.push(
                            PhysicsCommand::Remove {
                                body: ch.rigid_body_handle,
                                collider: ch.collider_handle,
                            },
                        );
                        assert(self.free_indexes@ =~= old(self).free_indexes@ + dead_indices(
                            changes@,
                            (i + 1) as nat,
                        ));
                    } else {
                        match ch.velocity {
                            Some(m) => commands.push(
                                PhysicsCommand::AddVelocity { body: ch.rigid_body_handle, motion: m },
                            ),
                            None => {},
                        }
                        match ch.size {
                            Some(sz) => commands.push(
                                PhysicsCommand::Resize { collider: ch.collider_handle, size: sz },
                            ),
                            None => {},
                        }
                        assert(dead_indices(changes@, (i + 1) as nat) =~= dead_indices(
                            changes@,
                            i as nat,
                        ));
                    }
                    assert(commands@ =~= prior_commands + commands_for(ch));
                },
                None => {
                    assert(dead_indices(changes@, (i + 1) as nat) =~= dead_indices(
                        changes@,
                        i as nat,
                    ));
                    assert(commands@ =~= prior_commands + Seq::empty());
                },
            }
            i = i + 1;
        }
        assert(self.cells@ =~= committed_cells(before, changes@));
        commands
    }

    /// One tick: draws the thrusts, computes every live cell's outcome, and
    /// commits them. Returns the physics writes to apply before the physics
    /// world is stepped. Whatever the draws, each cell's outcome is its own
    /// tick's, and only the slots of cells that died are freed.
    pub fn update(&mut self) -> (r: Vec<PhysicsCommand>)
        requires
            old(self).wf(),
        ensures
            final(self).wf(),
            final(self).config == old(self).config,
            exists|draws: Seq<Vec<Thrust>>|
                #[trigger] ticked_to(
                    old(self).cells@,
                    old(self).free_indexes@,
                    old(self).config,
                    draws,
                    final(self).cells@,
                    final(self).free_indexes@,
                    r@,
                ),
    {
        let draws = self.draw_thrusts();
        let changes = self.update_cells(&draws);
        let r = self.commit(&changes);
        assert(ticked_to(
            old(self).cells@,
            old(self).free_indexes@,
            old(self).config,
            draws@,
            self.cells@,
            self.free_indexes@,
            r@,
        ));
        r
    }
}

} // verus!
