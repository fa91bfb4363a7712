# topple

An abstract interpreter for a small imperative language, verified with Verus.

- `src/ast.rs`: the syntax of the language, its model (the same trees with
  sequences in place of vectors) that the specifications speak of, and an
  interner that numbers identifiers.
- `src/absint/lattice.rs`: the `Lattice` trait, the flat lattice, and maps
  from keys to lattice elements whose missing keys read as bottom or as top.
- `src/absint/domain.rs`: the interfaces of abstract domains of states and of
  values, and the domain of states that maps each variable to a value.
- `src/absint/denotational.rs`: the solver, which runs a statement on an
  abstract state and computes the fixpoint of each loop by iteration from
  bottom with widening; `solve_bounded` bounds that iteration and reports
  when a loop does not reach its fixpoint within the bound.
- `src/sign_domain.rs`: the domain of signs, with loop conditions that
  compare a variable with zero refining its sign.
- `app/main.rs`: runs the sign analysis on a small program.
