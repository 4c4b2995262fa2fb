use rand::rngs::StdRng;
use vstd::arithmetic::div_mod::{lemma_div_is_ordered, lemma_div_multiples_vanish};
use vstd::prelude::*;

use crate::cell::{resized, Cell};
use crate::chemicals::{Chemicals, Inner};
use crate::component::{
    input_for, lemma_conservation_under_clamping, lemma_mul_fits, output_for, requested,
    ComponentKind, ComponentProps,
};
use crate::random::draw_below;

verus! {

/// Parts per whole of a thrust's left share.
pub const SHARE_SCALE: u64 = 1_000_000;

/// A two-axis motion, in quanta of energy spent on each axis.
#[derive(Clone, Copy, Debug, PartialEq, Eq)]
pub struct Motion {
    pub x: i128,
    pub y: i128,
}

/// `v` clamped to the range of `i128`.
pub open spec fn clamp_i128(v: int) -> i128 {
    if v > i128::MAX {
        i128::MAX
    } else if v < i128::MIN {
        i128::MIN
    } else {
        v as i128
    }
}

/// `v` clamped to the range of `u64`.
pub open spec fn clamp_u64(v: int) -> u64 {
    if v > u64::MAX {
        u64::MAX
    } else {
        v as u64
    }
}

fn add_i128_clamped(a: i128, b: i128) -> (r: i128)
    ensures
        r == clamp_i128(a + b),
{
    if b >= 0 {
        if a > i128::MAX - b {
            i128::MAX
        } else {
            a + b
        }
    } else {
        if a < i128::MIN - b {
            i128::MIN
        } else {
            a + b
        }
    }
}

/// Credits `b` quanta to a quantity of `a`, stopping at the largest quantity.
fn credit(a: u64, b: u64) -> (r: u64)
    ensures
        r == clamp_u64(a + b),
{
    if a > u64::MAX - b {
        u64::MAX
    } else {
        a + b
    }
}

impl Motion {
    /// No motion.
    pub open spec fn spec_zero() -> Motion {
        Motion { x: 0, y: 0 }
    }

    /// This motion with `dx` and `dy` added, each axis clamped.
    pub open spec fn spec_add(self, dx: int, dy: int) -> Motion {
        Motion { x: clamp_i128(self.x + dx), y: clamp_i128(self.y + dy) }
    }

    /// No motion.
    pub fn zero() -> (r: Motion)
        ensures
            r == Motion::spec_zero(),
    {
        Motion { x: 0, y: 0 }
    }

    /// This motion with `dx` and `dy` added, each axis clamped.
    pub fn add(self, dx: i128, dy: i128) -> (r: Motion)
        ensures
            r == self.spec_add(dx as int, dy as int),
    {
        Motion { x: add_i128_clamped(self.x, dx), y: add_i128_clamped(self.y, dy) }
    }
}

/// The random direction of one locomotion step: the share of the output that
/// goes to the left axis (the rest goes to the right one), and the sign of
/// each axis.
#[derive(Clone, Copy, Debug, PartialEq, Eq)]
pub struct Thrust {
    pub left_share: u64,
    pub left_neg: bool,
    pub right_neg: bool,
}

impl Thrust {
    /// The left share is at most a whole.
    pub open spec fn wf(self) -> bool {
        self.left_share <= SHARE_SCALE
    }

    /// A thrust with a left share drawn below a whole and independent fair
    /// signs, all three taken from one uniform draw below four wholes.
    pub fn random(rng: &mut StdRng) -> (r: Thrust)
        ensures
            r.wf(),
            r.left_share < SHARE_SCALE,
    {
        let d = draw_below(rng, 4 * SHARE_SCALE);
        Thrust {
            left_share: d % SHARE_SCALE,
            left_neg: d / SHARE_SCALE % 2 == 1,
            right_neg: d / (2 * SHARE_SCALE) == 1,
        }
    }
}

/// Magnitude of `output` that goes to the left axis, rounded down.
pub open spec fn left_part(output: int, t: Thrust) -> int {
    (output * t.left_share) / (SHARE_SCALE as int)
}

/// `v`, negated when `neg`.
pub open spec fn signed(v: int, neg: bool) -> int {
    if neg {
        -v
    } else {
        v
    }
}

/// The left part of a thrust lies between zero and the whole output.
pub proof fn lemma_left_part_bounded(output: int, t: Thrust)
    requires
        0 <= output,
        t.wf(),
    ensures
        0 <= left_part(output, t) <= output,
{
    let s = SHARE_SCALE as int;
    assert(0 <= output * t.left_share <= output * s) by (nonlinear_arith)
        requires
            0 <= output,
            0 <= t.left_share <= s,
    ;
    lemma_div_is_ordered(0, output * t.left_share, s);
    lemma_div_is_ordered(output * t.left_share, output * s, s);
    assert(output * s == s * output) by (nonlinear_arith);
    lemma_div_multiples_vanish(output, s);
}

/// A locomotion step's two axes add up, in magnitude, to the whole output.
pub proof fn lemma_thrust_split_exact(output: int, t: Thrust)
    requires
        0 <= output,
        t.wf(),
    ensures
        ({
            let l = signed(left_part(output, t), t.left_neg);
            let r = signed(output - left_part(output, t), t.right_neg);
            (if l < 0 { -l } else { l }) + (if r < 0 { -r } else { r }) == output
        }),
{
    lemma_left_part_bounded(output, t);
}

/// One locomotion step debits its input from the energy currency, raises
/// both flags, and, while the motion accumulator is far from its limits, adds
/// to it a motion whose two axes add up in magnitude to the whole output.
pub proof fn lemma_locomotion_step(p: ComponentProps, c: Cell, step_size: u64, t: Thrust)
    requires
        t.wf(),
        -(i128::MAX - u64::MAX) <= c.impulse.x <= i128::MAX - u64::MAX,
        -(i128::MAX - u64::MAX) <= c.impulse.y <= i128::MAX - u64::MAX,
    ensures
        ({
            let i = input_for(p, c.inner.chemicals.atp, step_size);
            let o = output_for(p, i);
            let r = flangella_spec(p, c, step_size, t);
            let dx = r.impulse.x - c.impulse.x;
            let dy = r.impulse.y - c.impulse.y;
            &&& i <= c.inner.chemicals.atp
            &&& r.inner.chemicals.atp == c.inner.chemicals.atp - i
            &&& r.velocity_changed
            &&& r.size_changed
            &&& (if dx < 0 { -dx } else { dx }) + (if dy < 0 { -dy } else { dy }) == o
            &&& (c.inner.chemicals.atp < requested(p, step_size) ==> i == c.inner.chemicals.atp
                && r.inner.chemicals.atp == 0)
        }),
{
    let i = input_for(p, c.inner.chemicals.atp, step_size);
    lemma_conservation_under_clamping(p, c.inner.chemicals.atp, step_size);
    lemma_left_part_bounded(output_for(p, i), t);
}

/// Energy production is exact while the energy credit fits: feedstock goes
/// down by the input, energy currency up by the output, the size moves by
/// the output's size less the input's, the size flag is raised, and nothing
/// else changes.
pub proof fn lemma_glycolysis_exact(p: ComponentProps, c: Cell, step_size: u64)
    requires
        c.wf(),
        c.inner.chemicals.atp + c.inner.chemicals.glucose <= u64::MAX,
    ensures
        ({
            let i = input_for(p, c.inner.chemicals.glucose, step_size);
            let o = output_for(p, i);
            let r = glycolysis_spec(p, c, step_size);
            &&& i <= c.inner.chemicals.glucose
            &&& r.inner.chemicals.glucose == c.inner.chemicals.glucose - i
            &&& r.inner.chemicals.atp == c.inner.chemicals.atp + o
            &&& r.size == c.size + o - i * 10
            &&& r.size_changed
            &&& r.inner.nucleotides == c.inner.nucleotides
            &&& r.inner.proteins == c.inner.proteins
            &&& r.components == c.components
            &&& r.impulse == c.impulse
            &&& r.velocity_changed == c.velocity_changed
            &&& r.dead == c.dead
        }),
{
    lemma_conservation_under_clamping(p, c.inner.chemicals.glucose, step_size);
}

/// Nucleotide synthesis is exact while the nucleotide credit fits.
pub proof fn lemma_nucleotide_de_novo_exact(p: ComponentProps, c: Cell, step_size: u64)
    requires
        c.wf(),
        c.inner.nucleotides + c.inner.chemicals.atp <= u64::MAX,
    ensures
        ({
            let i = input_for(p, c.inner.chemicals.atp, step_size);
            let o = output_for(p, i);
            let r = nucleotide_de_novo_spec(p, c, step_size);
            &&& i <= c.inner.chemicals.atp
            &&& r.inner.chemicals.atp == c.inner.chemicals.atp - i
            &&& r.inner.nucleotides == c.inner.nucleotides + o
            &&& r.size == c.size + o - i
            &&& r.size_changed
            &&& r.inner.chemicals.glucose == c.inner.chemicals.glucose
            &&& r.inner.proteins == c.inner.proteins
            &&& r.components == c.components
            &&& r.impulse == c.impulse
        }),
{
    lemma_conservation_under_clamping(p, c.inner.chemicals.atp, step_size);
}

/// Protein synthesis is exact while the protein credit fits.
pub proof fn lemma_protein_de_novo_exact(p: ComponentProps, c: Cell, step_size: u64)
    requires
        c.wf(),
        c.inner.proteins + c.inner.chemicals.atp <= u64::MAX,
    ensures
        ({
            let i = input_for(p, c.inner.chemicals.atp, step_size);
            let o = output_for(p, i);
            let r = protein_de_novo_spec(p, c, step_size);
            &&& i <= c.inner.chemicals.atp
            &&& r.inner.chemicals.atp == c.inner.chemicals.atp - i
            &&& r.inner.proteins == c.inner.proteins + o
            &&& r.size == c.size + o - i
            &&& r.size_changed
            &&& r.inner.chemicals.glucose == c.inner.chemicals.glucose
            &&& r.inner.nucleotides == c.inner.nucleotides
            &&& r.components == c.components
            &&& r.impulse == c.impulse
        }),
{
    lemma_conservation_under_clamping(p, c.inner.chemicals.atp, step_size);
}

/// Energy production: feedstock into energy currency.
pub open spec fn glycolysis_spec(p: ComponentProps, c: Cell, step_size: u64) -> Cell {
    let i = input_for(p, c.inner.chemicals.glucose, step_size);
    let o = output_for(p, i);
    let atp = clamp_u64(c.inner.chemicals.atp + o);
    let inner = Inner {
        chemicals: Chemicals { atp, glucose: (c.inner.chemicals.glucose - i) as u64 },
        ..c.inner
    };
    resized(Cell { inner, ..c }, atp - c.inner.chemicals.atp, i * 10)
}

/// Feedstock synthesis from ambient input, which is never short.
pub open spec fn chlorophyll_spec(p: ComponentProps, c: Cell, step_size: u64) -> Cell {
    let i = input_for(p, u64::MAX, step_size);
    let o = output_for(p, i);
    let glucose = clamp_u64(c.inner.chemicals.glucose + o);
    let inner = Inner { chemicals: Chemicals { glucose, ..c.inner.chemicals }, ..c.inner };
    resized(Cell { inner, ..c }, (glucose - c.inner.chemicals.glucose) * 10, 0)
}

/// Nucleotide synthesis: energy currency into the nucleotide pool.
pub open spec fn nucleotide_de_novo_spec(p: ComponentProps, c: Cell, step_size: u64) -> Cell {
    let i = input_for(p, c.inner.chemicals.atp, step_size);
    let o = output_for(p, i);
    let nucleotides = clamp_u64(c.inner.nucleotides + o);
    let inner = Inner {
        chemicals: Chemicals { atp: (c.inner.chemicals.atp - i) as u64, ..c.inner.chemicals },
        nucleotides,
        ..c.inner
    };
    resized(Cell { inner, ..c }, nucleotides - c.inner.nucleotides, i)
}

/// Protein synthesis: energy currency into the protein pool.
pub open spec fn protein_de_novo_spec(p: ComponentProps, c: Cell, step_size: u64) -> Cell {
    let i = input_for(p, c.inner.chemicals.atp, step_size);
    let o = output_for(p, i);
    let proteins = clamp_u64(c.inner.proteins + o);
    let inner = Inner {
        chemicals: Chemicals { atp: (c.inner.chemicals.atp - i) as u64, ..c.inner.chemicals },
        proteins,
        ..c.inner
    };
    resized(Cell { inner, ..c }, proteins - c.inner.proteins, i)
}

/// Locomotion: energy currency leaves the cell as motion, split between the
/// two axes as the thrust says.
pub open spec fn flangella_spec(p: ComponentProps, c: Cell, step_size: u64, t: Thrust) -> Cell {
    let i = input_for(p, c.inner.chemicals.atp, step_size);
    let o = output_for(p, i);
    let inner = Inner {
        chemicals: Chemicals { atp: (c.inner.chemicals.atp - i) as u64, ..c.inner.chemicals },
        ..c.inner
    };
    let spent = resized(Cell { inner, ..c }, 0, i);
    let l = left_part(o, t);
    let dx = signed(l, t.left_neg);
    let dy = signed(o - l, t.right_neg);
    Cell {
        impulse: spent.impulse.spec_add(dx, dy),
        velocity_changed: true,
        ..spent
    }
}

/// The effect of one component of the given kind on a cell.
pub open spec fn apply_spec(
    kind: ComponentKind,
    p: ComponentProps,
    c: Cell,
    step_size: u64,
    t: Thrust,
) -> Cell {
    match kind {
        ComponentKind::Flagellum => flangella_spec(p, c, step_size, t),
        ComponentKind::Chlorophyll => chlorophyll_spec(p, c, step_size),
        ComponentKind::Glycolysis => glycolysis_spec(p, c, step_size),
        ComponentKind::NucleotideDeNovo => nucleotide_de_novo_spec(p, c, step_size),
        ComponentKind::ProteinDeNovo => protein_de_novo_spec(p, c, step_size),
    }
}

/// Energy production: turns feedstock into energy currency.
pub fn glycolysis(props: &ComponentProps, cell: &mut Cell, step_size: u64)
    requires
        old(cell).wf(),
    ensures
        *final(cell) == glycolysis_spec(*props, *old(cell), step_size),
        final(cell).wf(),
{
    proof {
        lemma_conservation_under_clamping(*props, cell.inner.chemicals.glucose, step_size);
    }
    let amount = props.get_input_output_amt(cell.inner.chemicals.glucose, step_size);
    let before = cell.inner.chemicals.atp;
    cell.inner.chemicals.glucose = cell.inner.chemicals.glucose - amount.input;
    cell.inner.chemicals.atp = credit(before, amount.output);
    let credited = cell.inner.chemicals.atp - before;
    cell.modify_size(credited as u128, amount.input as u128 * 10);
}

/// Feedstock synthesis: makes feedstock from ambient input.
pub fn chlorophyll(props: &ComponentProps, cell: &mut Cell, step_size: u64)
    requires
        old(cell).wf(),
    ensures
        *final(cell) == chlorophyll_spec(*props, *old(cell), step_size),
        final(cell).wf(),
{
    proof {
        lemma_conservation_under_clamping(*props, u64::MAX, step_size);
    }
    let amount = props.get_input_output_amt(u64::MAX, step_size);
    let before = cell.inner.chemicals.glucose;
    cell.inner.chemicals.glucose = credit(before, amount.output);
    let credited = cell.inner.chemicals.glucose - before;
    cell.modify_size(credited as u128 * 10, 0);
}

/// Nucleotide synthesis: turns energy currency into nucleotides.
pub fn nucleotide_de_novo(props: &ComponentProps, cell: &mut Cell, step_size: u64)
    requires
        old(cell).wf(),
    ensures
        *final(cell) == nucleotide_de_novo_spec(*props, *old(cell), step_size),
        final(cell).wf(),
{
    proof {
        lemma_conservation_under_clamping(*props, cell.inner.chemicals.atp, step_size);
    }
    let amount = props.get_input_output_amt(cell.inner.chemicals.atp, step_size);
    let before = cell.inner.nucleotides;
    cell.inner.chemicals.atp = cell.inner.chemicals.atp - amount.input;
    cell.inner.nucleotides = credit(before, amount.output);
    let credited = cell.inner.nucleotides - before;
    cell.modify_size(credited as u128, amount.input as u128);
}

/// Protein synthesis: turns energy currency into proteins.
pub fn protein_de_novo(props: &ComponentProps, cell: &mut Cell, step_size: u64)
    requires
        old(cell).wf(),
    ensures
        *final(cell) == protein_de_novo_spec(*props, *old(cell), step_size),
        final(cell).wf(),
{
    proof {
        lemma_conservation_under_clamping(*props, cell.inner.chemicals.atp, step_size);
    }
    let amount = props.get_input_output_amt(cell.inner.chemicals.atp, step_size);
    let before = cell.inner.proteins;
    cell.inner.chemicals.atp = cell.inner.chemicals.atp - amount.input;
    cell.inner.proteins = credit(before, amount.output);
    let credited = cell.inner.proteins - before;
    cell.modify_size(credited as u128, amount.input as u128);
}

/// Locomotion: spends energy currency on a motion impulse whose direction the
/// thrust gives.
pub fn flangella(props: &ComponentProps, cell: &mut Cell, step_size: u64, thrust: Thrust)
    requires
        old(cell).wf(),
        thrust.wf(),
    ensures
        *final(cell) == flangella_spec(*props, *old(cell), step_size, thrust),
        final(cell).wf(),
{
    proof {
        lemma_conservation_under_clamping(*props, cell.inner.chemicals.atp, step_size);
    }
    let amount = props.get_input_output_amt(cell.inner.chemicals.atp, step_size);
    cell.inner.chemicals.atp = cell.inner.chemicals.atp - amount.input;
    cell.modify_size(0, amount.input as u128);
    proof {
        lemma_mul_fits(amount.output, thrust.left_share);
        lemma_left_part_bounded(amount.output as int, thrust);
    }
    let left = (amount.output as u128 * thrust.left_share as u128 / SHARE_SCALE as u128) as u64;
    let right = amount.output - left;
    let dx: i128 = if thrust.left_neg {
        -(left as i128)
    } else {
        left as i128
    };
    let dy: i128 = if thrust.right_neg {
        -(right as i128)
    } else {
        right as i128
    };
    cell.modify_impulse(dx, dy);
}

/// Runs one component of the given kind on a cell.
pub fn apply_component(
    kind: ComponentKind,
    props: &ComponentProps,
    cell: &mut Cell,
    step_size: u64,
    thrust: Thrust,
)
    requires
        old(cell).wf(),
        thrust.wf(),
    ensures
        *final(cell) == apply_spec(kind, *props, *old(cell), step_size, thrust),
        final(cell).wf(),
{
    match kind {
        ComponentKind::Flagellum => flangella(props, cell, step_size, thrust),
        ComponentKind::Chlorophyll => chlorophyll(props, cell, step_size),
        ComponentKind::Glycolysis => glycolysis(props, cell, step_size),
        ComponentKind::NucleotideDeNovo => nucleotide_de_novo(props, cell, step_size),
        ComponentKind::ProteinDeNovo => protein_de_novo(props, cell, step_size),
    }
}

} // verus!
