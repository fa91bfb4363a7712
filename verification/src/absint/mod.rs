//! Abstract interpretation: lattices, abstract domains and the solver.

pub mod keys;
pub mod lattice;
pub mod domain;
pub mod denotational;
