use std::collections::BTreeMap;
use topple::absint::lattice::{FlatLattice, Lattice, LatticeMap};
use topple::sign_domain::Sign;

type Flat = FlatLattice<Sign>;
type SignMap = LatticeMap<u64, Flat>;

fn pos() -> Flat {
    FlatLattice::Value(Sign::Pos)
}

fn neg() -> Flat {
    FlatLattice::Value(Sign::Neg)
}

fn zero() -> Flat {
    FlatLattice::Value(Sign::Zero)
}

fn bottom_map(entries: &[(u64, Flat)]) -> SignMap {
    LatticeMap::BottomMap(entries.iter().cloned().collect::<BTreeMap<u64, Flat>>())
}

fn top_map(entries: &[(u64, Flat)]) -> SignMap {
    LatticeMap::TopMap(entries.iter().cloned().collect::<BTreeMap<u64, Flat>>())
}

#[test]
fn flat_join_values() {
    assert_eq!(pos().join(pos()), pos());
    assert_eq!(pos().join(neg()), FlatLattice::Top);
    assert_eq!(pos().join(FlatLattice::Bottom), pos());
    assert_eq!(FlatLattice::Bottom.join(neg()), neg());
    assert_eq!(FlatLattice::Top.join(zero()), FlatLattice::Top);
    assert_eq!(zero().join(FlatLattice::Top), FlatLattice::Top);
    assert_eq!(Flat::Bottom.join(FlatLattice::Bottom), FlatLattice::Bottom);
}

#[test]
fn flat_meet_values() {
    assert_eq!(pos().meet(pos()), pos());
    assert_eq!(pos().meet(neg()), FlatLattice::Bottom);
    assert_eq!(pos().meet(FlatLattice::Top), pos());
    assert_eq!(FlatLattice::Top.meet(neg()), neg());
    assert_eq!(FlatLattice::Bottom.meet(zero()), FlatLattice::Bottom);
    assert_eq!(zero().meet(FlatLattice::Bottom), FlatLattice::Bottom);
    assert_eq!(Flat::Top.meet(FlatLattice::Top), FlatLattice::Top);
}

#[test]
fn flat_bounds_and_same() {
    assert_eq!(Flat::bottom(), FlatLattice::Bottom);
    assert_eq!(Flat::top(), FlatLattice::Top);
    assert!(pos().same(&pos()));
    assert!(!pos().same(&neg()));
    assert!(!pos().same(&FlatLattice::Top));
    assert!(Flat::Bottom.same(&FlatLattice::Bottom));
    assert_eq!(neg().duplicate(), neg());
}

#[test]
fn flat_laws_on_values() {
    let all = [FlatLattice::Bottom, neg(), zero(), pos(), FlatLattice::Top];
    for a in all.iter() {
        for b in all.iter() {
            assert_eq!(a.clone().join(b.clone()), b.clone().join(a.clone()));
            assert_eq!(a.clone().meet(b.clone()), b.clone().meet(a.clone()));
            assert_eq!(a.clone().join(a.clone().meet(b.clone())), a.clone());
            assert_eq!(a.clone().meet(a.clone().join(b.clone())), a.clone());
        }
    }
}

#[test]
fn map_read_defaults() {
    let b = SignMap::bottom();
    let t = SignMap::top();
    assert_eq!(b.read(&7), FlatLattice::Bottom);
    assert_eq!(t.read(&7), FlatLattice::Top);
    assert_eq!(b, bottom_map(&[]));
    assert_eq!(t, top_map(&[]));
}

#[test]
fn map_read_after_update() {
    let m = SignMap::bottom().update(3, pos()).update(5, neg());
    assert_eq!(m.read(&3), pos());
    assert_eq!(m.read(&5), neg());
    assert_eq!(m.read(&4), FlatLattice::Bottom);
    let m = m.update(3, zero());
    assert_eq!(m.read(&3), zero());
    let t = SignMap::top().update(1, neg());
    assert_eq!(t.read(&1), neg());
    assert_eq!(t.read(&2), FlatLattice::Top);
}

#[test]
fn map_join_bottom_maps() {
    let a = bottom_map(&[(1, pos())]);
    let b = bottom_map(&[(1, neg()), (2, zero())]);
    assert_eq!(a.join(b), bottom_map(&[(1, FlatLattice::Top), (2, zero())]));
}

#[test]
fn map_join_mixed_maps() {
    let a = bottom_map(&[(1, pos()), (3, zero())]);
    let b = top_map(&[(1, pos()), (2, neg())]);
    let expected = top_map(&[(1, pos()), (2, neg())]);
    assert_eq!(a.clone().join(b.clone()), expected);
    assert_eq!(b.join(a), expected);
}

#[test]
fn map_join_top_maps_keeps_larger_map_keys() {
    let a = top_map(&[]);
    let b = top_map(&[(1, pos())]);
    // the walk goes over the smaller map, so the key stored only in the larger one stays
    assert_eq!(a.join(b), top_map(&[(1, pos())]));
    let c = top_map(&[(1, pos()), (2, zero())]);
    let d = top_map(&[(1, neg())]);
    assert_eq!(c.join(d), top_map(&[(1, FlatLattice::Top), (2, zero())]));
}

#[test]
fn map_meet_cases() {
    let a = bottom_map(&[(1, pos())]);
    let b = bottom_map(&[(1, pos()), (2, zero())]);
    assert_eq!(a.meet(b), bottom_map(&[(1, pos()), (2, zero())]));
    let c = top_map(&[(1, pos()), (2, zero())]);
    let d = top_map(&[(1, neg())]);
    assert_eq!(c.meet(d), top_map(&[(1, FlatLattice::Bottom), (2, zero())]));
    // a bottom map and a top map: the values under a common key are joined
    let e = bottom_map(&[(1, pos()), (3, zero())]);
    let f = top_map(&[(1, neg()), (2, neg())]);
    let expected = top_map(&[(1, FlatLattice::Top), (3, zero())]);
    assert_eq!(e.clone().meet(f.clone()), expected);
    assert_eq!(f.meet(e), expected);
}

#[test]
fn map_same_and_duplicate() {
    let a = bottom_map(&[(1, pos()), (2, zero())]);
    let b = bottom_map(&[(2, zero()), (1, pos())]);
    let c = bottom_map(&[(1, pos())]);
    let d = top_map(&[(1, pos()), (2, zero())]);
    let e = bottom_map(&[(1, pos()), (2, neg())]);
    let f = bottom_map(&[(1, pos()), (3, zero())]);
    assert!(a.same(&b));
    assert!(!a.same(&c));
    assert!(!a.same(&d));
    assert!(!a.same(&e));
    assert!(!a.same(&f));
    assert_eq!(a.duplicate(), b);
}
