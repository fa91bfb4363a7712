//! An abstract interpreter for a small imperative language: lattices, abstract
//! domains and a denotational fixpoint solver, verified with Verus.

pub mod absint;
pub mod ast;
pub mod sign_domain;
