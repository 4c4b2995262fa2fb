use rand::rngs::StdRng;
use vstd::arithmetic::div_mod::{
    lemma_div_is_ordered, lemma_div_multiples_vanish, lemma_fundamental_div_mod,
    lemma_mod_pos_bound,
};
use vstd::prelude::*;

use crate::chemicals::QUANTUM;
use crate::random::draw_below;

verus! {

/// The default length of one metabolic sub-step, in thousandths of a time unit.
pub const STEP_SIZE: u64 = 10;

/// Number of metabolic component kinds.
pub const COMPONENT_COUNT: usize = 5;

/// Tunable properties of one metabolic component instance.
///
/// `proteins` is its capacity (and its own size, in protein quanta) and `speed`
/// its throughput in quanta per time unit. Its conversion efficiency is
/// `1 / (1 + speed / proteins)`, that is `proteins / (proteins + speed)`, and is
/// derived from the two on every use.
#[derive(Clone, Copy, Debug, PartialEq, Eq)]
pub struct ComponentProps {
    pub proteins: u64,
    pub speed: u64,
}

/// What one metabolic operation consumed and produced, in quanta.
#[derive(Clone, Copy, Debug, PartialEq, Eq)]
pub struct Amounts {
    pub input: u64,
    pub output: u64,
}

/// Quanta a component asks for in one sub-step of `step_size` thousandths.
pub open spec fn requested(p: ComponentProps, step_size: u64) -> int {
    (p.speed * step_size) / 1000
}

/// Quanta actually consumed: the request, clamped to what is available.
pub open spec fn input_for(p: ComponentProps, available: u64, step_size: u64) -> int {
    let r = requested(p, step_size);
    if r <= available {
        r
    } else {
        available as int
    }
}

/// Quanta produced from `input`: `input` times the efficiency, rounded down.
pub open spec fn output_for(p: ComponentProps, input: int) -> int {
    if p.proteins + p.speed == 0 {
        0
    } else {
        (input * p.proteins) / (p.proteins + p.speed)
    }
}

/// A product of two 64-bit values fits in 128 bits.
pub proof fn lemma_mul_fits(a: u64, b: u64)
    ensures
        0 <= a * b <= u128::MAX,
{
    assert(0 <= a * b <= u128::MAX) by (nonlinear_arith)
        requires
            a <= u64::MAX,
            b <= u64::MAX,
    ;
}

/// Scaling by an efficiency below one never produces more than the input.
pub proof fn lemma_output_at_most_input(p: ComponentProps, input: int)
    requires
        0 <= input,
    ensures
        0 <= output_for(p, input) <= input,
{
    if p.proteins + p.speed != 0 {
        let d = p.proteins + p.speed;
        assert(0 <= input * p.proteins <= input * d) by (nonlinear_arith)
            requires
                0 <= input,
                0 <= p.proteins <= d,
        ;
        lemma_div_is_ordered(0, input * p.proteins, d);
        lemma_div_is_ordered(input * p.proteins, input * d, d);
        assert(input * d == d * input) by (nonlinear_arith);
        lemma_div_multiples_vanish(input, d);
    }
}

/// One metabolic operation never consumes more than is available, and
/// produces exactly its input scaled by the efficiency
/// `proteins / (proteins + speed)`, rounded down.
pub proof fn lemma_conservation_under_clamping(p: ComponentProps, available: u64, step_size: u64)
    ensures
        0 <= input_for(p, available, step_size) <= available,
        0 <= output_for(p, input_for(p, available, step_size)) <= input_for(
            p,
            available,
            step_size,
        ),
        p.proteins + p.speed > 0 ==> ({
            let i = input_for(p, available, step_size);
            let o = output_for(p, i);
            let d = p.proteins + p.speed;
            o * d <= i * p.proteins < (o + 1) * d
        }),
{
    lemma_mul_fits(p.speed, step_size);
    lemma_div_is_ordered(0, p.speed * step_size, 1000);
    let i = input_for(p, available, step_size);
    lemma_output_at_most_input(p, i);
    if p.proteins + p.speed > 0 {
        let d = p.proteins + p.speed;
        let o = output_for(p, i);
        let x = i * p.proteins;
        assert(x >= 0) by (nonlinear_arith)
            requires
                x == i * p.proteins,
                i >= 0,
                p.proteins >= 0,
        ;
        lemma_fundamental_div_mod(x, d);
        lemma_mod_pos_bound(x, d);
        assert(o * d <= x < (o + 1) * d) by (nonlinear_arith)
            requires
                x == d * o + x % d,
                0 <= x % d < d,
        ;
    }
}

impl ComponentProps {
    /// A component with the given capacity and throughput.
    pub fn new(proteins: u64, speed: u64) -> (r: Self)
        ensures
            r.proteins == proteins,
            r.speed == speed,
    {
        ComponentProps { proteins, speed }
    }

    /// The component's own size: its proteins.
    pub fn size(&self) -> (r: u128)
        ensures
            r == self.proteins,
    {
        self.proteins as u128
    }

    /// Input and output of one sub-step of `step_size` thousandths of a time
    /// unit, when `constraint` quanta of the input are available.
    pub fn get_input_output_amt(&self, constraint: u64, step_size: u64) -> (r: Amounts)
        ensures
            r.input == input_for(*self, constraint, step_size),
            r.output == output_for(*self, r.input as int),
    {
        proof {
            lemma_mul_fits(self.speed, step_size);
            lemma_conservation_under_clamping(*self, constraint, step_size);
        }
        let request: u128 = self.speed as u128 * step_size as u128 / 1000;
        let input: u64 = if request <= constraint as u128 {
            request as u64
        } else {
            constraint
        };
        let denominator: u128 = self.proteins as u128 + self.speed as u128;
        let output: u64 = if denominator == 0 {
            0
        } else {
            proof {
                lemma_mul_fits(input, self.proteins);
                lemma_output_at_most_input(*self, input as int);
            }
            (input as u128 * self.proteins as u128 / denominator) as u64
        };
        Amounts { input, output }
    }

    /// A component with capacity drawn from zero up to (not including) ten
    /// units and throughput from zero up to (not including) one unit per time
    /// unit.
    pub fn random(rng: &mut StdRng) -> (r: Self)
        ensures
            r.proteins < 10 * QUANTUM,
            r.speed < QUANTUM,
    {
        let proteins = draw_below(rng, 10 * QUANTUM);
        let speed = draw_below(rng, QUANTUM);
        ComponentProps::new(proteins, speed)
    }
}

/// The kinds of metabolic component, in the order in which a cell runs them.
#[derive(Clone, Copy, Debug, PartialEq, Eq)]
pub enum ComponentKind {
    /// Locomotion: energy currency into a randomly directed impulse.
    Flagellum,
    /// Feedstock synthesis from ambient input.
    Chlorophyll,
    /// Energy production: feedstock into energy currency.
    Glycolysis,
    /// Biomass synthesis: energy currency into the nucleotide pool.
    NucleotideDeNovo,
    /// Biomass synthesis: energy currency into the protein pool.
    ProteinDeNovo,
}

/// The declared order of the component kinds.
pub open spec fn component_order() -> Seq<ComponentKind> {
    seq![
        ComponentKind::Flagellum,
        ComponentKind::Chlorophyll,
        ComponentKind::Glycolysis,
        ComponentKind::NucleotideDeNovo,
        ComponentKind::ProteinDeNovo,
    ]
}

/// The component kinds in the order in which a cell runs them.
pub fn get_components() -> (r: Vec<ComponentKind>)
    ensures
        r@ == component_order(),
{
    let r = vec![
        ComponentKind::Flagellum,
        ComponentKind::Chlorophyll,
        ComponentKind::Glycolysis,
        ComponentKind::NucleotideDeNovo,
        ComponentKind::ProteinDeNovo,
    ];
    assert(r@ =~= component_order());
    r
}

/// The kind that stands at position `index` of the declared order.
pub fn kind_at(index: usize) -> (r: ComponentKind)
    requires
        index < COMPONENT_COUNT,
    ensures
        r == component_order()[index as int],
{
    match index {
        0 => ComponentKind::Flagellum,
        1 => ComponentKind::Chlorophyll,
        2 => ComponentKind::Glycolysis,
        3 => ComponentKind::NucleotideDeNovo,
        _ => ComponentKind::ProteinDeNovo,
    }
}

/// Size of an optional component: its proteins, or nothing when absent.
pub open spec fn slot_size(c: Option<ComponentProps>) -> int {
    match c {
        Some(p) => p.proteins as int,
        None => 0,
    }
}

fn slot_size_of(c: Option<ComponentProps>) -> (r: u128)
    ensures
        r == slot_size(c),
{
    match c {
        Some(p) => p.size(),
        None => 0,
    }
}

/// The component slots of a cell: one optional instance per kind.
#[derive(Clone, Copy, Debug, PartialEq, Eq)]
pub struct Components {
    pub flagellum: Option<ComponentProps>,
    pub chlorophyll: Option<ComponentProps>,
    pub glycolysis: Option<ComponentProps>,
    pub nucleotide_de_novo: Option<ComponentProps>,
    pub protein_de_novo: Option<ComponentProps>,
}

impl Components {
    /// The instance held for `kind`.
    pub open spec fn spec_get(self, kind: ComponentKind) -> Option<ComponentProps> {
        match kind {
            ComponentKind::Flagellum => self.flagellum,
            ComponentKind::Chlorophyll => self.chlorophyll,
            ComponentKind::Glycolysis => self.glycolysis,
            ComponentKind::NucleotideDeNovo => self.nucleotide_de_novo,
            ComponentKind::ProteinDeNovo => self.protein_de_novo,
        }
    }

    /// These slots with the one for `kind` replaced by `value`.
    pub open spec fn spec_set(self, kind: ComponentKind, value: Option<ComponentProps>) -> Self {
        match kind {
            ComponentKind::Flagellum => Components { flagellum: value, ..self },
            ComponentKind::Chlorophyll => Components { chlorophyll: value, ..self },
            ComponentKind::Glycolysis => Components { glycolysis: value, ..self },
            ComponentKind::NucleotideDeNovo => Components { nucleotide_de_novo: value, ..self },
            ComponentKind::ProteinDeNovo => Components { protein_de_novo: value, ..self },
        }
    }

    /// Sum of the sizes of the present components.
    pub open spec fn spec_size(self) -> int {
        slot_size(self.flagellum) + slot_size(self.chlorophyll) + slot_size(self.glycolysis)
            + slot_size(self.nucleotide_de_novo) + slot_size(self.protein_de_novo)
    }

    /// No component present.
    pub fn none() -> (r: Self)
        ensures
            forall|k: ComponentKind| r.spec_get(k).is_none(),
    {
        Components {
            flagellum: None,
            chlorophyll: None,
            glycolysis: None,
            nucleotide_de_novo: None,
            protein_de_novo: None,
        }
    }

    /// The instance held for `kind`.
    pub fn get(&self, kind: ComponentKind) -> (r: Option<ComponentProps>)
        ensures
            r == self.spec_get(kind),
    {
        match kind {
            ComponentKind::Flagellum => self.flagellum,
            ComponentKind::Chlorophyll => self.chlorophyll,
            ComponentKind::Glycolysis => self.glycolysis,
            ComponentKind::NucleotideDeNovo => self.nucleotide_de_novo,
            ComponentKind::ProteinDeNovo => self.protein_de_novo,
        }
    }

    /// Replaces the instance held for `kind`, leaving the other kinds alone.
    pub fn set(&mut self, kind: ComponentKind, value: Option<ComponentProps>)
        ensures
            *final(self) == old(self).spec_set(kind, value),
            final(self).spec_get(kind) == value,
            forall|k: ComponentKind| k != kind ==> final(self).spec_get(k) == old(self).spec_get(k),
            final(self).spec_size() == old(self).spec_size() - slot_size(old(self).spec_get(kind))
                + slot_size(value),
    {
        match kind {
            ComponentKind::Flagellum => self.flagellum = value,
            ComponentKind::Chlorophyll => self.chlorophyll = value,
            ComponentKind::Glycolysis => self.glycolysis = value,
            ComponentKind::NucleotideDeNovo => self.nucleotide_de_novo = value,
            ComponentKind::ProteinDeNovo => self.protein_de_novo = value,
        }
    }

    /// Sum of the sizes of the present components.
    pub fn size(&self) -> (r: u128)
        ensures
            r == self.spec_size(),
    {
        slot_size_of(self.flagellum) + slot_size_of(self.chlorophyll) + slot_size_of(
            self.glycolysis,
        ) + slot_size_of(self.nucleotide_de_novo) + slot_size_of(self.protein_de_novo)
    }
}

impl Default for ComponentProps {
    /// Two units of capacity, one unit per time unit of throughput.
    fn default() -> (r: Self)
        ensures
            r.proteins == 2 * QUANTUM,
            r.speed == QUANTUM,
    {
        ComponentProps { proteins: 2 * QUANTUM, speed: QUANTUM }
    }
}

} // verus!
