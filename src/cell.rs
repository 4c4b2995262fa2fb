use rand::rngs::StdRng;
use vstd::prelude::*;

use crate::chemicals::{ledger_size, Chemicals, Inner, Membrane, QUANTUM};
use crate::component::{
    component_order, input_for, kind_at, lemma_conservation_under_clamping, output_for, slot_size,
    ComponentKind, ComponentProps, Components, COMPONENT_COUNT,
};
use crate::pathways::{
    apply_component, apply_spec, flangella_spec, left_part, lemma_left_part_bounded, signed, Motion,
    Thrust,
};
use crate::random::draw_below;

verus! {

/// A cell: its ledger, membrane and component slots, its running size, the
/// motion it has accumulated since the last commit, and its dirty flags.
#[derive(Clone, Copy, Debug, PartialEq, Eq)]
pub struct Cell {
    pub inner: Inner,
    pub membrane: Membrane,
    pub components: Components,
    /// Running size; equal to `derived_size` in a well-formed cell.
    pub size: u128,
    /// Motion accumulated since the last commit.
    pub impulse: Motion,
    pub size_changed: bool,
    pub velocity_changed: bool,
    /// Set once the cell is to be removed from the world.
    pub dead: bool,
}

/// The size of a cell as its parts make it up: the ledger, the membrane (no
/// size) and each present component.
pub open spec fn derived_size(c: Cell) -> int {
    ledger_size(c.inner) + c.components.spec_size()
}

/// `c` with its running size moved by `grow - shrink` and the size flag
/// raised: every size report marks the size as changed, a zero one too.
pub open spec fn resized(c: Cell, grow: int, shrink: int) -> Cell {
    Cell {
        size: (c.size + grow - shrink) as u128,
        size_changed: true,
        ..c
    }
}

/// `c` with `component` in the slot of `kind`, its size adjusted and the size
/// flag raised.
pub open spec fn with_component(c: Cell, kind: ComponentKind, component: ComponentProps) -> Cell {
    Cell {
        components: c.components.spec_set(kind, Some(component)),
        size: (c.size - slot_size(c.components.spec_get(kind)) + component.proteins) as u128,
        size_changed: true,
        ..c
    }
}

/// The cell after running the first `n` component kinds of the declared
/// order once, each only where its slot is present.
pub open spec fn run_prefix(c: Cell, step_size: u64, thrust: Thrust, n: nat) -> Cell
    decreases n,
{
    if n == 0 {
        c
    } else {
        let prev = run_prefix(c, step_size, thrust, (n - 1) as nat);
        let kind = component_order()[n - 1];
        match prev.components.spec_get(kind) {
            Some(p) => apply_spec(kind, p, prev, step_size, thrust),
            None => prev,
        }
    }
}

/// One metabolic sub-step: every present component, in declared order.
pub open spec fn substep(c: Cell, step_size: u64, thrust: Thrust) -> Cell {
    run_prefix(c, step_size, thrust, 5)
}

/// The cell after `n` sub-steps, the `k`-th one steered by `draws[k]`; a dead
/// cell runs no further sub-step.
pub open spec fn run_substeps(c: Cell, draws: Seq<Thrust>, n: nat, step_size: u64) -> Cell
    decreases n,
{
    if n == 0 {
        c
    } else {
        let prev = run_substeps(c, draws, (n - 1) as nat, step_size);
        if prev.dead {
            prev
        } else {
            substep(prev, step_size, draws[n - 1])
        }
    }
}

/// Once a cell is dead, further sub-steps leave it as it is.
pub proof fn lemma_dead_stays(c: Cell, draws: Seq<Thrust>, i: nat, n: nat, step_size: u64)
    requires
        i <= n,
        run_substeps(c, draws, i, step_size).dead,
    ensures
        run_substeps(c, draws, n, step_size) == run_substeps(c, draws, i, step_size),
    decreases n - i,
{
    if i < n {
        lemma_dead_stays(c, draws, i, (n - 1) as nat, step_size);
    }
}

/// Every metabolic operation keeps a cell well formed: the ledger cannot go
/// below zero (the types are unsigned and no debit exceeds what is there),
/// and the running size stays equal to the size the parts make up.
pub proof fn lemma_apply_keeps_well_formed(
    kind: ComponentKind,
    p: ComponentProps,
    c: Cell,
    step_size: u64,
    t: Thrust,
)
    requires
        c.wf(),
    ensures
        apply_spec(kind, p, c, step_size, t).wf(),
        apply_spec(kind, p, c, step_size, t).components == c.components,
        apply_spec(kind, p, c, step_size, t).dead == c.dead,
{
    lemma_conservation_under_clamping(p, c.inner.chemicals.glucose, step_size);
    lemma_conservation_under_clamping(p, c.inner.chemicals.atp, step_size);
    lemma_conservation_under_clamping(p, u64::MAX, step_size);
}

/// Running components in declared order keeps a cell well formed and leaves
/// its component slots and its death mark alone.
pub proof fn lemma_run_prefix_keeps_well_formed(c: Cell, step_size: u64, t: Thrust, n: nat)
    requires
        c.wf(),
    ensures
        run_prefix(c, step_size, t, n).wf(),
        run_prefix(c, step_size, t, n).components == c.components,
        run_prefix(c, step_size, t, n).dead == c.dead,
    decreases n,
{
    if n > 0 {
        lemma_run_prefix_keeps_well_formed(c, step_size, t, (n - 1) as nat);
        let prev = run_prefix(c, step_size, t, (n - 1) as nat);
        let kind = component_order()[n - 1];
        match prev.components.spec_get(kind) {
            Some(p) => lemma_apply_keeps_well_formed(kind, p, prev, step_size, t),
            None => {},
        }
    }
}

/// However many sub-steps a cell runs, it stays well formed: every ledger
/// quantity and the size stay non-negative, and the size stays equal to what
/// the ledger and the components make up.
pub proof fn lemma_substeps_keep_well_formed(c: Cell, draws: Seq<Thrust>, n: nat, step_size: u64)
    requires
        c.wf(),
    ensures
        run_substeps(c, draws, n, step_size).wf(),
        run_substeps(c, draws, n, step_size).components == c.components,
    decreases n,
{
    if n > 0 {
        lemma_substeps_keep_well_formed(c, draws, (n - 1) as nat, step_size);
        let prev = run_substeps(c, draws, (n - 1) as nat, step_size);
        if !prev.dead {
            lemma_run_prefix_keeps_well_formed(prev, step_size, draws[n - 1], 5);
        }
    }
}

/// A cell whose only component is locomotion with properties `p`.
pub open spec fn locomotion_only(c: Cell, p: ComponentProps) -> bool {
    c.components == Components {
        flagellum: Some(p),
        chlorophyll: None,
        glycolysis: None,
        nucleotide_de_novo: None,
        protein_de_novo: None,
    }
}

/// The energy currency left after `n` locomotion steps from `atp`, and the
/// motion those steps add up to on each axis, the `k`-th step steered by
/// `draws[k]`.
pub open spec fn locomotion_run(
    p: ComponentProps,
    atp: u64,
    draws: Seq<Thrust>,
    n: nat,
    step_size: u64,
) -> (u64, int, int)
    decreases n,
{
    if n == 0 {
        (atp, 0, 0)
    } else {
        let (a, x, y) = locomotion_run(p, atp, draws, (n - 1) as nat, step_size);
        let t = draws[n - 1];
        let i = input_for(p, a, step_size);
        let o = output_for(p, i);
        let l = left_part(o, t);
        ((a - i) as u64, x + signed(l, t.left_neg), y + signed(o - l, t.right_neg))
    }
}

/// In a cell whose only component is locomotion, a sub-step is one
/// locomotion step.
pub proof fn lemma_locomotion_substep(p: ComponentProps, c: Cell, step_size: u64, t: Thrust)
    requires
        locomotion_only(c, p),
    ensures
        substep(c, step_size, t) == flangella_spec(p, c, step_size, t),
{
    assert(component_order()[0] == ComponentKind::Flagellum);
    assert(component_order()[1] == ComponentKind::Chlorophyll);
    assert(component_order()[2] == ComponentKind::Glycolysis);
    assert(component_order()[3] == ComponentKind::NucleotideDeNovo);
    assert(component_order()[4] == ComponentKind::ProteinDeNovo);
    assert(run_prefix(c, step_size, t, 0) == c);
    let one = flangella_spec(p, c, step_size, t);
    assert(run_prefix(c, step_size, t, 1) == one);
    assert(one.components == c.components);
    assert(run_prefix(c, step_size, t, 2) == one);
    assert(run_prefix(c, step_size, t, 3) == one);
    assert(run_prefix(c, step_size, t, 4) == one);
    assert(run_prefix(c, step_size, t, 5) == one);
}

/// Over a tick's sub-steps, a cell at rest whose only component is
/// locomotion spends energy step by step, and its pending motion is the sum
/// of every step's split output; that motion is never larger, in summed axis
/// magnitude, than the energy spent, so it never reaches the accumulator's
/// limits. Each step raises the motion flag.
pub proof fn lemma_locomotion_tick(
    p: ComponentProps,
    c: Cell,
    draws: Seq<Thrust>,
    n: nat,
    step_size: u64,
)
    requires
        c.wf(),
        locomotion_only(c, p),
        !c.dead,
        c.impulse == Motion::spec_zero(),
        n <= draws.len(),
        forall|k: int| 0 <= k < draws.len() ==> #[trigger] draws[k].wf(),
    ensures
        ({
            let r = run_substeps(c, draws, n, step_size);
            let (a, x, y) = locomotion_run(p, c.inner.chemicals.atp, draws, n, step_size);
            &&& r.inner.chemicals.atp == a
            &&& r.impulse.x == x
            &&& r.impulse.y == y
            &&& (if x < 0 { -x } else { x }) + (if y < 0 { -y } else { y }) <= c.inner.chemicals.atp - a
            &&& a <= c.inner.chemicals.atp
            &&& (n > 0 ==> r.velocity_changed)
            &&& r.inner.chemicals.glucose == c.inner.chemicals.glucose
            &&& r.inner.nucleotides == c.inner.nucleotides
            &&& r.inner.proteins == c.inner.proteins
            &&& r.components == c.components
            &&& !r.dead
            &&& r.wf()
        }),
    decreases n,
{
    if n > 0 {
        let m = (n - 1) as nat;
        lemma_locomotion_tick(p, c, draws, m, step_size);
        lemma_substeps_keep_well_formed(c, draws, m, step_size);
        let prev = run_substeps(c, draws, m, step_size);
        let t = draws[n - 1];
        let (a, x, y) = locomotion_run(p, c.inner.chemicals.atp, draws, m, step_size);
        lemma_locomotion_substep(p, prev, step_size, t);
        lemma_conservation_under_clamping(p, a, step_size);
        let i = input_for(p, a, step_size);
        lemma_left_part_bounded(output_for(p, i), t);
    }
}

/// What holds of every random cell: well formed, at rest, clean flags, energy
/// and nucleotides below ten units, no feedstock, proteins from ten up to
/// eleven units, and every component present with capacity below ten units
/// and throughput below one unit per time unit.
pub open spec fn is_random_cell(r: Cell) -> bool {
    &&& r.wf()
    &&& r.inner.chemicals.atp < 10 * QUANTUM
    &&& r.inner.chemicals.glucose == 0
    &&& r.inner.nucleotides < 10 * QUANTUM
    &&& 10 * QUANTUM <= r.inner.proteins < 11 * QUANTUM
    &&& forall|k: ComponentKind| #[trigger]
        r.components.spec_get(k).is_some() && r.components.spec_get(k).unwrap().proteins < 10
            * QUANTUM && r.components.spec_get(k).unwrap().speed < QUANTUM
    &&& r.impulse == Motion::spec_zero()
    &&& !r.size_changed
    &&& !r.velocity_changed
    &&& !r.dead
}

impl Cell {
    /// The running size agrees with the parts of the cell.
    pub open spec fn wf(&self) -> bool {
        self.size == derived_size(*self)
    }

    /// A cell made of the given parts, at rest and with clean flags.
    pub fn new(inner: Inner, membrane: Membrane, components: Components) -> (r: Self)
        ensures
            r.inner == inner,
            r.membrane == membrane,
            r.components == components,
            r.impulse == Motion::spec_zero(),
            !r.size_changed,
            !r.velocity_changed,
            !r.dead,
            r.wf(),
    {
        let size = inner.size() + membrane.size() + components.size();
        Cell {
            inner,
            membrane,
            components,
            size,
            impulse: Motion::zero(),
            size_changed: false,
            velocity_changed: false,
            dead: false,
        }
    }

    /// Moves the running size by `grow - shrink` and raises the size flag.
    pub fn modify_size(&mut self, grow: u128, shrink: u128)
        requires
            old(self).size + grow <= u128::MAX,
            shrink <= old(self).size + grow,
        ensures
            *final(self) == resized(*old(self), grow as int, shrink as int),
    {
        self.size = self.size + grow - shrink;
        self.size_changed = true;
    }

    /// The running size.
    pub fn size(&self) -> (r: u128)
        ensures
            r == self.size,
    {
        self.size
    }

    /// Replaces the pending motion and raises the motion flag.
    pub fn set_velocity(&mut self, vel: Motion)
        ensures
            *final(self) == (Cell { impulse: vel, velocity_changed: true, ..*old(self) }),
    {
        self.impulse = vel;
        self.velocity_changed = true;
    }

    /// Adds to the pending motion, saturating each axis, and raises the motion
    /// flag.
    pub fn modify_impulse(&mut self, dx: i128, dy: i128)
        ensures
            *final(self) == (Cell {
                impulse: old(self).impulse.spec_add(dx as int, dy as int),
                velocity_changed: true,
                ..*old(self)
            }),
    {
        self.impulse = self.impulse.add(dx, dy);
        self.velocity_changed = true;
    }

    /// Marks the cell for removal; it runs no further sub-step.
    pub fn mark_dead(&mut self)
        ensures
            *final(self) == (Cell { dead: true, ..*old(self) }),
    {
        self.dead = true;
    }

    /// A cell with a random ledger and every component present with random
    /// properties.
    pub fn new_random(rng: &mut StdRng) -> (r: Self)
        ensures
            is_random_cell(r),
    {
        let atp = draw_below(rng, 10 * QUANTUM);
        let nucleotides = draw_below(rng, 10 * QUANTUM);
        let proteins = 10 * QUANTUM + draw_below(rng, QUANTUM);
        let inner = Inner { chemicals: Chemicals { atp, glucose: 0 }, nucleotides, proteins };
        let components = Components {
            flagellum: Some(ComponentProps::random(rng)),
            chlorophyll: Some(ComponentProps::random(rng)),
            glycolysis: Some(ComponentProps::random(rng)),
            nucleotide_de_novo: Some(ComponentProps::random(rng)),
            protein_de_novo: Some(ComponentProps::random(rng)),
        };
        Self::new(inner, Membrane {}, components)
    }

    /// Puts `component` in the slot at `component_index` of the declared order,
    /// replacing what was there, and adjusts the size.
    pub fn inject_component(&mut self, component_index: usize, component: ComponentProps)
        requires
            component_index < COMPONENT_COUNT,
            old(self).wf(),
        ensures
            *final(self) == with_component(
                *old(self),
                component_order()[component_index as int],
                component,
            ),
            final(self).wf(),
            final(self).components.spec_get(component_order()[component_index as int]) == Some(
                component,
            ),
            forall|k: ComponentKind|
                k != component_order()[component_index as int] ==> final(self).components.spec_get(
                    k,
                ) == old(self).components.spec_get(k),
            final(self).inner == old(self).inner,
            final(self).impulse == old(self).impulse,
            final(self).size_changed,
            final(self).velocity_changed == old(self).velocity_changed,
            final(self).dead == old(self).dead,
    {
        let kind = kind_at(component_index);
        let previous = self.components.get(kind);
        let removed = match previous {
            Some(p) => p.size(),
            None => 0,
        };
        self.components.set(kind, Some(component));
        assert(slot_size(previous) == removed);
        self.size = self.size - removed + component.size();
        self.size_changed = true;
    }

    /// The size of the cell computed afresh from its parts.
    pub fn generate_size(&self) -> (r: u128)
        ensures
            r == derived_size(*self),
    {
        self.components.size() + self.inner.size() + self.membrane.size()
    }

    /// One sub-step: every present component once, in declared order.
    pub fn run_components(&mut self, step_size: u64, thrust: Thrust)
        requires
            old(self).wf(),
            thrust.wf(),
        ensures
            *final(self) == substep(*old(self), step_size, thrust),
            final(self).wf(),
    {
        let ghost start = *self;
        let mut i: usize = 0;
        while i < COMPONENT_COUNT
            invariant
                i <= COMPONENT_COUNT,
                *self == run_prefix(start, step_size, thrust, i as nat),
                self.wf(),
                self.components == start.components,
                thrust.wf(),
            decreases COMPONENT_COUNT - i,
        {
            let kind = kind_at(i);
            match self.components.get(kind) {
                Some(props) => apply_component(kind, &props, self, step_size, thrust),
                None => {},
            }
            i = i + 1;
        }
    }

    /// Runs up to `substeps` sub-steps, the `k`-th one steered by `draws[k]`,
    /// and stops early once the cell is dead.
    pub fn run_substeps(&mut self, draws: &Vec<Thrust>, substeps: usize, step_size: u64)
        requires
            old(self).wf(),
            substeps <= draws.len(),
            forall|k: int| 0 <= k < draws.len() ==> #[trigger] draws[k].wf(),
        ensures
            *final(self) == run_substeps(*old(self), draws@, substeps as nat, step_size),
            final(self).wf(),
    {
        let ghost start = *self;
        let mut i: usize = 0;
        while i < substeps && !self.dead
            invariant
                i <= substeps <= draws.len(),
                forall|k: int| 0 <= k < draws.len() ==> #[trigger] draws[k].wf(),
                *self == run_substeps(start, draws@, i as nat, step_size),
                self.wf(),
            decreases substeps - i,
        {
            self.run_components(step_size, draws[i]);
            i = i + 1;
        }
        proof {
            if i < substeps {
                lemma_dead_stays(start, draws@, i as nat, substeps as nat, step_size);
            }
        }
    }
}

} // verus!
