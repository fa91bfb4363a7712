use topple::absint::lattice::{FlatLattice, Lattice};
use topple::ast::{Id, Interner};

#[test]
fn interning_numbers_names_in_order() {
    let mut names = Interner::new();
    let x = names.intern("x");
    let y = names.intern("y");
    let x_again = names.intern("x");
    assert_eq!(x, Id(0));
    assert_eq!(y, Id(1));
    assert_eq!(x_again, Id(0));
    assert_eq!(names.name(y).map(|s| s.as_str()), Some("y"));
    assert_eq!(names.name(Id(2)), None);
}

#[test]
fn flat_lattice_over_integers() {
    let a: FlatLattice<i32> = FlatLattice::Value(1);
    assert_eq!(a.clone().join(FlatLattice::Value(1)), FlatLattice::Value(1));
    assert_eq!(a.clone().join(FlatLattice::Value(2)), FlatLattice::Top);
    assert_eq!(a.clone().meet(FlatLattice::Value(2)), FlatLattice::Bottom);
    assert!(FlatLattice::Value('c').same(&FlatLattice::Value('c')));
    assert!(!FlatLattice::Value(true).same(&FlatLattice::Value(false)));
    assert_eq!(FlatLattice::Value(7u64).duplicate(), FlatLattice::Value(7u64));
}
