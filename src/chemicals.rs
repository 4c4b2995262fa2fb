use vstd::prelude::*;

verus! {

/// Base quanta in one unit of any chemical.
pub const QUANTUM: u64 = 1_000_000;

/// Free chemical currency of a cell, in quanta.
#[derive(Clone, Copy, Debug, Default, PartialEq, Eq)]
pub struct Chemicals {
    pub atp: u64,
    pub glucose: u64,
}

/// The chemical ledger of a cell: free chemicals and structural pools, in quanta.
#[derive(Clone, Copy, Debug, Default, PartialEq, Eq)]
pub struct Inner {
    pub chemicals: Chemicals,
    pub nucleotides: u64,
    pub proteins: u64,
}

/// The membrane of a cell; it has no features yet and no size.
#[derive(Clone, Copy, Debug, Default, PartialEq, Eq)]
pub struct Membrane {}

/// Size contributed by the ledger. Unit sizes per quantum: energy currency 1,
/// feedstock 10, nucleotides 1, proteins 1.
pub open spec fn ledger_size(i: Inner) -> int {
    i.chemicals.atp + i.chemicals.glucose * 10 + i.nucleotides + i.proteins
}

impl Inner {
    /// Size of the ledger, weighted per chemical kind.
    pub fn size(&self) -> (r: u128)
        ensures
            r == ledger_size(*self),
    {
        self.chemicals.atp as u128 + self.chemicals.glucose as u128 * 10
            + self.nucleotides as u128 + self.proteins as u128
    }
}

impl Membrane {
    /// Size of the membrane.
    pub fn size(&self) -> (r: u128)
        ensures
            r == 0,
    {
        0
    }
}

} // verus!
