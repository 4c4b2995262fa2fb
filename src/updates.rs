use rayon::iter::{
    IndexedParallelIterator, IntoParallelRefIterator, IntoParallelRefMutIterator, ParallelIterator,
};
use vstd::prelude::*;

use crate::binding::{CellChanges, CellWrapper};
use crate::cell::{
    lemma_locomotion_tick, lemma_substeps_keep_well_formed, locomotion_only, locomotion_run,
    run_substeps, Cell,
};
use crate::component::ComponentProps;
use crate::pathways::{Motion, Thrust};

verus! {

/// What a slot needs before its tick: a live cell is well formed and has a
/// thrust for each sub-step.
pub open spec fn slot_ready(slot: Option<CellWrapper>, draws: Seq<Thrust>, substeps: nat) -> bool {
    match slot {
        Some(w) => w.inner.wf() && substeps <= draws.len() && forall|k: int|
            0 <= k < draws.len() ==> #[trigger] draws[k].wf(),
        None => true,
    }
}

/// Every slot of a table is ready, with the draws at the same position.
pub open spec fn slots_ready(
    cells: Seq<Option<CellWrapper>>,
    draws: Seq<Vec<Thrust>>,
    substeps: nat,
) -> bool {
    &&& cells.len() == draws.len()
    &&& forall|i: int| 0 <= i < cells.len() ==> #[trigger] slot_ready(cells[i], draws[i]@, substeps)
}

/// One slot's tick: a live cell runs its sub-steps; a dead one reports its
/// death, a living one the motion and size it produced (each only where its
/// flag is raised), and has its motion and flags cleared. An empty slot
/// stays empty and reports nothing.
pub open spec fn slot_tick(
    slot: Option<CellWrapper>,
    draws: Seq<Thrust>,
    substeps: nat,
    step_size: u64,
) -> (Option<CellWrapper>, Option<CellChanges>) {
    match slot {
        None => (None, None),
        Some(w) => {
            let c = run_substeps(w.inner, draws, substeps, step_size);
            if c.dead {
                (
                    Some(CellWrapper { inner: c, ..w }),
                    Some(
                        CellChanges {
                            index: w.index,
                            rigid_body_handle: w.rigid_body_handle,
                            collider_handle: w.collider_handle,
                            dead: true,
                            velocity: None,
                            size: None,
                        },
                    ),
                )
            } else {
                let velocity = if c.velocity_changed {
                    Some(c.impulse)
                } else {
                    None
                };
                let size = if c.size_changed {
                    Some(c.size)
                } else {
                    None
                };
                let cleared = Cell {
                    impulse: Motion::spec_zero(),
                    velocity_changed: false,
                    size_changed: false,
                    ..c
                };
                (
                    Some(CellWrapper { inner: cleared, ..w }),
                    Some(
                        CellChanges {
                            index: w.index,
                            rigid_body_handle: w.rigid_body_handle,
                            collider_handle: w.collider_handle,
                            dead: false,
                            velocity,
                            size,
                        },
                    ),
                )
            }
        },
    }
}

/// A slot's tick keeps its binding: a live slot stays live under the same
/// index and handles, with a well-formed cell, and its outcome names that same
/// index and those handles; an empty slot stays empty.
pub proof fn lemma_slot_tick_keeps_binding(
    slot: Option<CellWrapper>,
    draws: Seq<Thrust>,
    substeps: nat,
    step_size: u64,
)
    requires
        match slot {
            Some(w) => w.inner.wf(),
            None => true,
        },
    ensures
        ({
            let (next, change) = slot_tick(slot, draws, substeps, step_size);
            match slot {
                Some(w) => {
                    &&& next.is_some()
                    &&& next.unwrap().index == w.index
                    &&& next.unwrap().rigid_body_handle == w.rigid_body_handle
                    &&& next.unwrap().collider_handle == w.collider_handle
                    &&& next.unwrap().inner.wf()
                    &&& change.is_some()
                    &&& change.unwrap().index == w.index
                    &&& change.unwrap().rigid_body_handle == w.rigid_body_handle
                    &&& change.unwrap().collider_handle == w.collider_handle
                    &&& change.unwrap().dead == next.unwrap().inner.dead
                },
                None => next.is_none() && change.is_none(),
            }
        }),
{
    match slot {
        Some(w) => lemma_substeps_keep_well_formed(w.inner, draws, substeps, step_size),
        None => {},
    }
}

/// A tick of a slot whose cell is at rest with locomotion as its only
/// component emits that tick's summed motion once, as its motion delta,
/// and leaves the cell with the energy spent, its motion cleared and its
/// motion flag down.
pub proof fn lemma_locomotion_emitted_once(
    p: ComponentProps,
    w: CellWrapper,
    draws: Seq<Thrust>,
    n: nat,
    step_size: u64,
)
    requires
        w.inner.wf(),
        locomotion_only(w.inner, p),
        !w.inner.dead,
        w.inner.impulse == Motion::spec_zero(),
        0 < n <= draws.len(),
        forall|k: int| 0 <= k < draws.len() ==> #[trigger] draws[k].wf(),
    ensures
        ({
            let (next, change) = slot_tick(Some(w), draws, n, step_size);
            let (a, x, y) = locomotion_run(p, w.inner.inner.chemicals.atp, draws, n, step_size);
            &&& change.unwrap().velocity == Some(Motion { x: x as i128, y: y as i128 })
            &&& !change.unwrap().dead
            &&& next.unwrap().inner.inner.chemicals.atp == a
            &&& next.unwrap().inner.impulse == Motion::spec_zero()
            &&& !next.unwrap().inner.velocity_changed
        }),
{
    lemma_locomotion_tick(p, w.inner, draws, n, step_size);
}

/// The table after every slot's tick.
pub open spec fn ticked_cells(
    cells: Seq<Option<CellWrapper>>,
    draws: Seq<Vec<Thrust>>,
    substeps: nat,
    step_size: u64,
) -> Seq<Option<CellWrapper>> {
    Seq::new(cells.len(), |i: int| slot_tick(cells[i], draws[i]@, substeps, step_size).0)
}

/// The outcome of every slot's tick, by slot.
pub open spec fn tick_changes(
    cells: Seq<Option<CellWrapper>>,
    draws: Seq<Vec<Thrust>>,
    substeps: nat,
    step_size: u64,
) -> Seq<Option<CellChanges>> {
    Seq::new(cells.len(), |i: int| slot_tick(cells[i], draws[i]@, substeps, step_size).1)
}

/// Cells share no state within a tick: a slot's outcome and its next state
/// depend only on that slot and its own draws, whatever the other slots hold.
pub proof fn lemma_slots_independent(
    cells1: Seq<Option<CellWrapper>>,
    draws1: Seq<Vec<Thrust>>,
    cells2: Seq<Option<CellWrapper>>,
    draws2: Seq<Vec<Thrust>>,
    i: int,
    substeps: nat,
    step_size: u64,
)
    requires
        0 <= i < cells1.len(),
        0 <= i < cells2.len(),
        cells1[i] == cells2[i],
        draws1[i]@ == draws2[i]@,
    ensures
        ticked_cells(cells1, draws1, substeps, step_size)[i] == ticked_cells(
            cells2,
            draws2,
            substeps,
            step_size,
        )[i],
        tick_changes(cells1, draws1, substeps, step_size)[i] == tick_changes(
            cells2,
            draws2,
            substeps,
            step_size,
        )[i],
{
}

/// Runs one slot's tick.
pub fn update_slot(
    slot: &mut Option<CellWrapper>,
    draws: &Vec<Thrust>,
    substeps: usize,
    step_size: u64,
) -> (r: Option<CellChanges>)
    requires
        slot_ready(*old(slot), draws@, substeps as nat),
    ensures
        (*final(slot), r) == slot_tick(*old(slot), draws@, substeps as nat, step_size),
{
    match *slot {
        None => None,
        Some(w) => {
            let mut cell = w.inner;
            cell.run_substeps(draws, substeps, step_size);
            if cell.dead {
                *slot = Some(CellWrapper { inner: cell, ..w });
                Some(
                    CellChanges {
                        index: w.index,
                        rigid_body_handle: w.rigid_body_handle,
                        collider_handle: w.collider_handle,
                        dead: true,
                        velocity: None,
                        size: None,
                    },
                )
            } else {
                let velocity = if cell.velocity_changed {
                    Some(cell.impulse)
                } else {
                    None
                };
                let size = if cell.size_changed {
                    Some(cell.size)
                } else {
                    None
                };
                cell.impulse = Motion::zero();
                cell.velocity_changed = false;
                cell.size_changed = false;
                *slot = Some(CellWrapper { inner: cell, ..w });
                Some(
                    CellChanges {
                        index: w.index,
                        rigid_body_handle: w.rigid_body_handle,
                        collider_handle: w.collider_handle,
                        dead: false,
                        velocity,
                        size,
                    },
                )
            }
        },
    }
}

/// Runs every slot's tick, one slot after the other.
pub fn update_cells(
    cells: &mut Vec<Option<CellWrapper>>,
    draws: &Vec<Vec<Thrust>>,
    substeps: usize,
    step_size: u64,
) -> (r: Vec<Option<CellChanges>>)
    requires
        slots_ready(old(cells)@, draws@, substeps as nat),
    ensures
        final(cells)@ == ticked_cells(old(cells)@, draws@, substeps as nat, step_size),
        r@ == tick_changes(old(cells)@, draws@, substeps as nat, step_size),
{
    let ghost start = cells@;
    let mut changes: Vec<Option<CellChanges>> = Vec::new();
    let mut i: usize = 0;
    while i < cells.len()
        invariant
            cells.len() == start.len(),
            slots_ready(start, draws@, substeps as nat),
            i <= cells.len(),
            changes.len() == i,
            forall|j: int|
                0 <= j < i ==> #[trigger] cells@[j] == slot_tick(
                    start[j],
                    draws@[j]@,
                    substeps as nat,
                    step_size,
                ).0,
            forall|j: int|
                0 <= j < i ==> #[trigger] changes@[j] == slot_tick(
                    start[j],
                    draws@[j]@,
                    substeps as nat,
                    step_size,
                ).1,
            forall|j: int| i <= j < cells.len() ==> #[trigger] cells@[j] == start[j],
        decreases cells.len() - i,
    {
        let mut slot = cells[i];
        assert(slot_ready(start[i as int], draws@[i as int]@, substeps as nat));
        let change = update_slot(&mut slot, &draws[i], substeps, step_size);
        cells.set(i, slot);
        changes.push(change);
        i = i + 1;
    }
    assert(cells@ =~= ticked_cells(start, draws@, substeps as nat, step_size));
    assert(changes@ =~= tick_changes(start, draws@, substeps as nat, step_size));
    changes
}

/// Relies on rayon's indexed parallel iterators: `par_iter_mut` and `par_iter`
/// visit each element once, `zip` pairs the elements at the same position,
/// and `collect` into a `Vec` keeps the order of the positions. Each slot is
/// handed to `update_slot` alone, so the slots' ticks do not share state.
#[verifier::external_body]
fn par_update_cells(
    cells: &mut Vec<Option<CellWrapper>>,
    draws: &Vec<Vec<Thrust>>,
    substeps: usize,
    step_size: u64,
) -> (r: Vec<Option<CellChanges>>)
    requires
        slots_ready(old(cells)@, draws@, substeps as nat),
    ensures
        final(cells)@ == ticked_cells(old(cells)@, draws@, substeps as nat, step_size),
        r@ == tick_changes(old(cells)@, draws@, substeps as nat, step_size),
{
    cells.par_iter_mut().zip(draws.par_iter()).map(
        |(slot, slot_draws)| update_slot(slot, slot_draws, substeps, step_size),
    ).collect()
}

/// Runs every slot's tick, on a pool of worker threads when `parallel`; the
/// outcome is the same either way.
pub fn compute_deltas(
    cells: &mut Vec<Option<CellWrapper>>,
    draws: &Vec<Vec<Thrust>>,
    substeps: usize,
    step_size: u64,
    parallel: bool,
) -> (r: Vec<Option<CellChanges>>)
    requires
        slots_ready(old(cells)@, draws@, substeps as nat),
    ensures
        final(cells)@ == ticked_cells(old(cells)@, draws@, substeps as nat, step_size),
        r@ == tick_changes(old(cells)@, draws@, substeps as nat, step_size),
{
    if parallel {
        par_update_cells(cells, draws, substeps, step_size)
    } else {
        update_cells(cells, draws, substeps, step_size)
    }
}

} // verus!
