//! Cell metabolism engine: per-cell chemical ledgers and metabolic pathways,
//! a slot table of live cells bound to physics handles, and the per-tick
//! protocol that turns metabolic sub-steps into deferred physics writes.
//!
//! Quantities are fixed-point integers: one chemical unit is `QUANTUM` base
//! quanta, and time is counted in thousandths of a time unit. The physics
//! world itself is kept by the caller, who applies the writes that a tick
//! returns and then steps it.
pub mod binding;
pub mod cell;
pub mod chemicals;
pub mod component;
pub mod pathways;
pub mod random;
pub mod updates;
pub mod world;

pub use binding::{CellChanges, CellWrapper, PhysicsCommand};
pub use cell::Cell;
pub use chemicals::{Chemicals, Inner, Membrane, QUANTUM};
pub use component::{
    get_components, Amounts, ComponentKind, ComponentProps, Components, COMPONENT_COUNT,
    STEP_SIZE,
};
pub use pathways::{
    chlorophyll, flangella, glycolysis, nucleotide_de_novo, protein_de_novo, Motion, Thrust,
    SHARE_SCALE,
};
pub use updates::{compute_deltas, update_cells, update_slot};
pub use world::{Config, World};
