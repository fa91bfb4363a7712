//! Lattices: the flat lattice over a set of values, and maps from keys to
//! lattice elements whose missing keys read as bottom or as top.

use super::keys::{key_list, key_order};
use std::collections::BTreeMap;
use vstd::prelude::*;

verus! {

broadcast use vstd::std_specs::btree::group_btree_axioms;

/// A lattice. Elements are compared through their model (`View`); the spec
/// functions give the meaning of the executable operations.
pub trait Lattice: Sized + Clone + View {
    /// The executable operations of the type behave as the spec functions say
    /// (for maps: the keys are totally ordered and the values obey their spec).
    spec fn obeys_lattice_spec() -> bool;

    spec fn spec_bottom() -> Self::V;

    spec fn spec_top() -> Self::V;

    spec fn spec_join(a: Self::V, b: Self::V) -> Self::V;

    spec fn spec_meet(a: Self::V, b: Self::V) -> Self::V;

    /// The least element.
    fn bottom() -> (r: Self)
        ensures
            r@ == Self::spec_bottom(),
    ;

    /// The greatest element.
    fn top() -> (r: Self)
        ensures
            r@ == Self::spec_top(),
    ;

    fn join(self, other: Self) -> (r: Self)
        requires
            Self::obeys_lattice_spec(),
        ensures
            r@ == Self::spec_join(self@, other@),
    ;

    fn meet(self, other: Self) -> (r: Self)
        requires
            Self::obeys_lattice_spec(),
        ensures
            r@ == Self::spec_meet(self@, other@),
    ;

    /// Whether the two elements are the same element.
    fn same(&self, other: &Self) -> (r: bool)
        requires
            Self::obeys_lattice_spec(),
        ensures
            r == (self@ == other@),
    ;

    /// A copy of the element.
    fn duplicate(&self) -> (r: Self)
        requires
            Self::obeys_lattice_spec(),
        ensures
            r@ == self@,
    ;
}

/// Values that a flat lattice holds: they can be compared and copied.
pub trait FlatValue: Sized + Clone {
    fn value_eq(&self, other: &Self) -> (r: bool)
        ensures
            r == (*self == *other),
    ;

    fn value_clone(&self) -> (r: Self)
        ensures
            r == *self,
    ;
}

impl FlatValue for bool {
    fn value_eq(&self, other: &Self) -> (r: bool) {
        *self == *other
    }

    fn value_clone(&self) -> (r: Self) {
        *self
    }
}

impl FlatValue for char {
    fn value_eq(&self, other: &Self) -> (r: bool) {
        *self == *other
    }

    fn value_clone(&self) -> (r: Self) {
        *self
    }
}

impl FlatValue for u8 {
    fn value_eq(&self, other: &Self) -> (r: bool) {
        *self == *other
    }

    fn value_clone(&self) -> (r: Self) {
        *self
    }
}

impl FlatValue for u16 {
    fn value_eq(&self, other: &Self) -> (r: bool) {
        *self == *other
    }

    fn value_clone(&self) -> (r: Self) {
        *self
    }
}

impl FlatValue for u32 {
    fn value_eq(&self, other: &Self) -> (r: bool) {
        *self == *other
    }

    fn value_clone(&self) -> (r: Self) {
        *self
    }
}

impl FlatValue for u64 {
    fn value_eq(&self, other: &Self) -> (r: bool) {
        *self == *other
    }

    fn value_clone(&self) -> (r: Self) {
        *self
    }
}

impl FlatValue for u128 {
    fn value_eq(&self, other: &Self) -> (r: bool) {
        *self == *other
    }

    fn value_clone(&self) -> (r: Self) {
        *self
    }
}

impl FlatValue for usize {
    fn value_eq(&self, other: &Self) -> (r: bool) {
        *self == *other
    }

    fn value_clone(&self) -> (r: Self) {
        *self
    }
}

impl FlatValue for i8 {
    fn value_eq(&self, other: &Self) -> (r: bool) {
        *self == *other
    }

    fn value_clone(&self) -> (r: Self) {
        *self
    }
}

impl FlatValue for i16 {
    fn value_eq(&self, other: &Self) -> (r: bool) {
        *self == *other
    }

    fn value_clone(&self) -> (r: Self) {
        *self
    }
}

impl FlatValue for i32 {
    fn value_eq(&self, other: &Self) -> (r: bool) {
        *self == *other
    }

    fn value_clone(&self) -> (r: Self) {
        *self
    }
}

impl FlatValue for i64 {
    fn value_eq(&self, other: &Self) -> (r: bool) {
        *self == *other
    }

    fn value_clone(&self) -> (r: Self) {
        *self
    }
}

impl FlatValue for i128 {
    fn value_eq(&self, other: &Self) -> (r: bool) {
        *self == *other
    }

    fn value_clone(&self) -> (r: Self) {
        *self
    }
}

impl FlatValue for isize {
    fn value_eq(&self, other: &Self) -> (r: bool) {
        *self == *other
    }

    fn value_clone(&self) -> (r: Self) {
        *self
    }
}

/// The flat lattice: `Bottom` below every value, `Top` above every value,
/// distinct values incomparable.
#[derive(Debug, Clone, PartialEq, Eq)]
pub enum FlatLattice<T> {
    Top,
    Value(T),
    Bottom,
}

impl<T> View for FlatLattice<T> {
    type V = FlatLattice<T>;

    open spec fn view(&self) -> FlatLattice<T> {
        *self
    }
}

/// Join in the flat lattice.
pub open spec fn flat_join<T>(a: FlatLattice<T>, b: FlatLattice<T>) -> FlatLattice<T> {
    match a {
        FlatLattice::Value(x) => match b {
            FlatLattice::Value(y) => if x == y {
                a
            } else {
                FlatLattice::Top
            },
            FlatLattice::Top => FlatLattice::Top,
            FlatLattice::Bottom => a,
        },
        FlatLattice::Top => FlatLattice::Top,
        FlatLattice::Bottom => b,
    }
}

/// Meet in the flat lattice.
pub open spec fn flat_meet<T>(a: FlatLattice<T>, b: FlatLattice<T>) -> FlatLattice<T> {
    match a {
        FlatLattice::Value(x) => match b {
            FlatLattice::Value(y) => if x == y {
                a
            } else {
                FlatLattice::Bottom
            },
            FlatLattice::Top => a,
            FlatLattice::Bottom => FlatLattice::Bottom,
        },
        FlatLattice::Top => b,
        FlatLattice::Bottom => FlatLattice::Bottom,
    }
}

impl<T: FlatValue> Lattice for FlatLattice<T> {
    open spec fn obeys_lattice_spec() -> bool {
        true
    }

    open spec fn spec_bottom() -> FlatLattice<T> {
        FlatLattice::Bottom
    }

    open spec fn spec_top() -> FlatLattice<T> {
        FlatLattice::Top
    }

    open spec fn spec_join(a: FlatLattice<T>, b: FlatLattice<T>) -> FlatLattice<T> {
        flat_join(a, b)
    }

    open spec fn spec_meet(a: FlatLattice<T>, b: FlatLattice<T>) -> FlatLattice<T> {
        flat_meet(a, b)
    }

    fn bottom() -> (r: Self) {
        FlatLattice::Bottom
    }

    fn top() -> (r: Self) {
        FlatLattice::Top
    }

    fn join(self, other: Self) -> (r: Self) {
        match self {
            FlatLattice::Value(a) => match other {
                FlatLattice::Value(b) => {
                    if a.value_eq(&b) {
                        FlatLattice::Value(a)
                    } else {
                        FlatLattice::Top
                    }
                },
                FlatLattice::Top => FlatLattice::Top,
                FlatLattice::Bottom => FlatLattice::Value(a),
            },
            FlatLattice::Top => FlatLattice::Top,
            FlatLattice::Bottom => other,
        }
    }

    fn meet(self, other: Self) -> (r: Self) {
        match self {
            FlatLattice::Value(a) => match other {
                FlatLattice::Value(b) => {
                    if a.value_eq(&b) {
                        FlatLattice::Value(a)
                    } else {
                        FlatLattice::Bottom
                    }
                },
                FlatLattice::Top => FlatLattice::Value(a),
                FlatLattice::Bottom => FlatLattice::Bottom,
            },
            FlatLattice::Top => other,
            FlatLattice::Bottom => FlatLattice::Bottom,
        }
    }

    fn same(&self, other: &Self) -> (r: bool) {
        match self {
            FlatLattice::Value(a) => match other {
                FlatLattice::Value(b) => a.value_eq(b),
                _ => false,
            },
            FlatLattice::Top => match other {
                FlatLattice::Top => true,
                _ => false,
            },
            FlatLattice::Bottom => match other {
                FlatLattice::Bottom => true,
                _ => false,
            },
        }
    }

    fn duplicate(&self) -> (r: Self) {
        match self {
            FlatLattice::Value(a) => FlatLattice::Value(a.value_clone()),
            FlatLattice::Top => FlatLattice::Top,
            FlatLattice::Bottom => FlatLattice::Bottom,
        }
    }
}

/// A map from keys to lattice elements. In a `BottomMap` a key that is not
/// stored reads as bottom, in a `TopMap` as top.
#[derive(Debug, Clone, PartialEq, Eq)]
pub enum LatticeMap<K, L: Lattice> {
    BottomMap(BTreeMap<K, L>),
    TopMap(BTreeMap<K, L>),
}

/// The model of a `LatticeMap`: which default missing keys read as, and the
/// stored entries, each taken by its model.
#[verifier::reject_recursive_types(K)]
pub struct LatticeMapView<K, V> {
    pub is_top: bool,
    pub entries: Map<K, V>,
}

/// The entries of a map, each value taken by its model.
pub open spec fn view_entries<K, L: View>(m: Map<K, L>) -> Map<K, L::V> {
    m.map_values(|v: L| v@)
}

/// Combines two maps entry by entry, as the loops of `join`, `meet` and
/// `widen` do when they walk `x` and store into `y`: a key of both gets
/// `op(x[k], y[k])`, a key of `y` alone keeps its value, and a key of `x`
/// alone is kept only when `keep` holds.
pub open spec fn merge_spec<K, V>(x: Map<K, V>, y: Map<K, V>, op: spec_fn(V, V) -> V, keep: bool) -> Map<K, V> {
    Map::new(
        |k: K| y.contains_key(k) || (keep && x.contains_key(k)),
        |k: K|
            if x.contains_key(k) && y.contains_key(k) {
                op(x[k], y[k])
            } else if y.contains_key(k) {
                y[k]
            } else {
                x[k]
            },
    )
}

/// `merge_spec` with the smaller map walked; on equal sizes `x` is walked.
pub open spec fn merge_smaller<K, V>(x: Map<K, V>, y: Map<K, V>, op: spec_fn(V, V) -> V, keep: bool) -> Map<K, V> {
    if x.len() > y.len() {
        merge_spec(y, x, op, keep)
    } else {
        merge_spec(x, y, op, keep)
    }
}

/// The result of `join` (and of `widen`) on two lattice maps, with `op`
/// combining the values stored under a common key.
pub open spec fn join_views<K, V>(a: LatticeMapView<K, V>, b: LatticeMapView<K, V>, op: spec_fn(V, V) -> V) -> LatticeMapView<K, V> {
    if !a.is_top && !b.is_top {
        LatticeMapView { is_top: false, entries: merge_smaller(a.entries, b.entries, op, true) }
    } else if !a.is_top {
        LatticeMapView { is_top: true, entries: merge_spec(a.entries, b.entries, op, false) }
    } else if !b.is_top {
        LatticeMapView { is_top: true, entries: merge_spec(b.entries, a.entries, op, false) }
    } else {
        LatticeMapView { is_top: true, entries: merge_smaller(a.entries, b.entries, op, false) }
    }
}

/// The result of `meet` on two lattice maps: `mop` combines values under a
/// common key of two maps of the same kind, `jop` those of a bottom map and
/// a top map (where the top map's value comes first).
pub open spec fn meet_views<K, V>(
    a: LatticeMapView<K, V>,
    b: LatticeMapView<K, V>,
    mop: spec_fn(V, V) -> V,
    jop: spec_fn(V, V) -> V,
) -> LatticeMapView<K, V> {
    if !a.is_top && !b.is_top {
        LatticeMapView { is_top: false, entries: merge_smaller(a.entries, b.entries, mop, true) }
    } else if !a.is_top {
        LatticeMapView { is_top: true, entries: merge_spec(b.entries, a.entries, jop, false) }
    } else if !b.is_top {
        LatticeMapView { is_top: true, entries: merge_spec(a.entries, b.entries, jop, false) }
    } else {
        LatticeMapView { is_top: true, entries: merge_smaller(a.entries, b.entries, mop, true) }
    }
}

/// What `key` reads as in a map with model `m`, where missing keys read as
/// `bottom` in a bottom map and as `top` in a top map.
pub open spec fn read_view<K, V>(m: LatticeMapView<K, V>, key: K, bottom: V, top: V) -> V {
    if m.entries.contains_key(key) {
        m.entries[key]
    } else if m.is_top {
        top
    } else {
        bottom
    }
}

/// The model of a map with `value` stored under `key`.
pub open spec fn update_view<K, V>(m: LatticeMapView<K, V>, key: K, value: V) -> LatticeMapView<K, V> {
    LatticeMapView { is_top: m.is_top, entries: m.entries.insert(key, value) }
}

impl<K, L: Lattice> View for LatticeMap<K, L> {
    type V = LatticeMapView<K, L::V>;

    open spec fn view(&self) -> LatticeMapView<K, L::V> {
        match self {
            LatticeMap::BottomMap(m) => LatticeMapView { is_top: false, entries: view_entries(m@) },
            LatticeMap::TopMap(m) => LatticeMapView { is_top: true, entries: view_entries(m@) },
        }
    }
}

/// Taking models keeps the keys.
pub proof fn lemma_view_entries_dom<K, L: View>(m: Map<K, L>)
    ensures
        view_entries(m).dom() == m.dom(),
        m.dom().finite() ==> view_entries(m).len() == m.len(),
{
    assert(view_entries(m).dom() =~= m.dom());
}

/// Walks the entries of `x` and stores them into `y`, combining the values
/// under a common key with `op`; entries of `x` alone are stored when `keep`.
fn merge_into<K: Ord + Copy, L: View, F: Fn(L, L) -> L>(
    x: BTreeMap<K, L>,
    y: BTreeMap<K, L>,
    op: &F,
    sop: Ghost<spec_fn(L::V, L::V) -> L::V>,
    keep: bool,
) -> (r: BTreeMap<K, L>)
    requires
        key_order::<K>(),
        forall|a: L, b: L| op.requires((a, b)),
        forall|a: L, b: L, c: L| op.ensures((a, b), c) ==> c@ == (sop@)(a@, b@),
    ensures
        view_entries(r@) == merge_spec(view_entries(x@), view_entries(y@), sop@, keep),
{
    let ks = key_list(&x);
    let mut x = x;
    let mut y = y;
    let ghost x0 = x@;
    let ghost y0 = y@;
    let mut i: usize = 0;
    while i < ks.len()
        invariant
            key_order::<K>(),
            forall|a: L, b: L| op.requires((a, b)),
            forall|a: L, b: L, c: L| op.ensures((a, b), c) ==> c@ == (sop@)(a@, b@),
            ks@.to_set() == x0.dom(),
            ks@.no_duplicates(),
            i <= ks.len(),
            x@ == x0.remove_keys(ks@.take(i as int).to_set()),
            view_entries(y@) == merge_spec(
                view_entries(x0).restrict(ks@.take(i as int).to_set()),
                view_entries(y0),
                sop@,
                keep,
            ),
        decreases ks.len() - i,
    {
        let k = ks[i];
        let ghost done = ks@.take(i as int).to_set();
        let ghost y_before = y@;
        proof {
            assert(ks@.contains(k));
            assert(x0.dom().contains(k));
            if done.contains(k) {
                let j = choose|j: int| 0 <= j < i && ks@.take(i as int)[j] == k;
                assert(ks@[j] == ks@[i as int]);
            }
            assert(!done.contains(k));
            assert(x@.contains_key(k));
        }
        let v = x.remove(&k).unwrap();
        proof {
            assert(v == x0[k]);
        }
        let ghost xv0 = view_entries(x0);
        let ghost yv0 = view_entries(y0);
        let ghost prev = merge_spec(xv0.restrict(done), yv0, sop@, keep);
        let ghost next = ks@.take(i + 1).to_set();
        proof {
            assert(ks@.take(i + 1) =~= ks@.take(i as int).push(k));
            ks@.take(i as int).lemma_push_to_set_commute(k);
            assert(next =~= done.insert(k));
            assert(view_entries(y_before) == prev);
            assert(prev.contains_key(k) == y0.contains_key(k));
            assert(y0.contains_key(k) ==> prev[k] == yv0[k]);
        }
        let ghost target = merge_spec(xv0.restrict(next), yv0, sop@, keep);
        match y.remove(&k) {
            Some(v2) => {
                proof {
                    assert(y_before.contains_key(k) && y_before[k] == v2);
                    assert(v2@ == yv0[k]);
                }
                let w = op(v, v2);
                y.insert(k, w);
                proof {
                    assert(view_entries(y@) =~= prev.insert(k, (sop@)(xv0[k], yv0[k])));
                    assert(target =~= prev.insert(k, (sop@)(xv0[k], yv0[k])));
                }
            },
            None => {
                proof {
                    assert(!y0.contains_key(k));
                }
                if keep {
                    y.insert(k, v);
                    proof {
                        assert(view_entries(y@) =~= prev.insert(k, xv0[k]));
                        assert(target =~= prev.insert(k, xv0[k]));
                    }
                } else {
                    proof {
                        assert(view_entries(y@) =~= prev);
                        assert(target =~= prev);
                    }
                }
            },
        }
        proof {
            assert(x@ =~= x0.remove_keys(next));
        }
        i = i + 1;
    }
    proof {
        assert(ks@.take(ks@.len() as int) =~= ks@);
        assert(view_entries(x0).restrict(ks@.to_set()) =~= view_entries(x0));
    }
    y
}

impl<K: Ord + Copy, L: Lattice> LatticeMap<K, L> {
    /// What `key` reads as in a map with model `m`.
    pub open spec fn spec_read(m: LatticeMapView<K, L::V>, key: K) -> L::V {
        read_view(m, key, L::spec_bottom(), L::spec_top())
    }

    /// The element stored under `key`, or the map's default when none is.
    pub fn read(&self, key: &K) -> (r: L)
        requires
            key_order::<K>(),
            L::obeys_lattice_spec(),
        ensures
            r@ == Self::spec_read(self@, *key),
    {
        match self {
            LatticeMap::BottomMap(m) => match m.get(key) {
                Some(v) => v.duplicate(),
                None => L::bottom(),
            },
            LatticeMap::TopMap(m) => match m.get(key) {
                Some(v) => v.duplicate(),
                None => L::top(),
            },
        }
    }

    /// The map with `value` stored under `key`; the default is kept.
    pub fn update(self, key: K, value: L) -> (r: Self)
        requires
            key_order::<K>(),
        ensures
            r@ == update_view(self@, key, value@),
    {
        let ghost value_model = value@;
        match self {
            LatticeMap::BottomMap(mut m) => {
                let ghost m0 = m@;
                m.insert(key, value);
                proof {
                    assert(view_entries(m@) =~= view_entries(m0).insert(key, value_model));
                }
                LatticeMap::BottomMap(m)
            },
            LatticeMap::TopMap(mut m) => {
                let ghost m0 = m@;
                m.insert(key, value);
                proof {
                    assert(view_entries(m@) =~= view_entries(m0).insert(key, value_model));
                }
                LatticeMap::TopMap(m)
            },
        }
    }

    /// Join with the values under a common key combined by `op`: the walk
    /// that `join` and the pointwise widening of abstract states share.
    pub(crate) fn join_with<F: Fn(L, L) -> L>(
        self,
        other: Self,
        op: &F,
        sop: Ghost<spec_fn(L::V, L::V) -> L::V>,
    ) -> (r: Self)
        requires
            key_order::<K>(),
            forall|a: L, b: L| op.requires((a, b)),
            forall|a: L, b: L, c: L| op.ensures((a, b), c) ==> c@ == (sop@)(a@, b@),
        ensures
            r@ == join_views(self@, other@, sop@),
    {
        match self {
            LatticeMap::BottomMap(a) => match other {
                LatticeMap::BottomMap(b) => {
                    proof {
                        lemma_view_entries_dom(a@);
                        lemma_view_entries_dom(b@);
                    }
                    if a.len() > b.len() {
                        LatticeMap::BottomMap(merge_into(b, a, op, sop, true))
                    } else {
                        LatticeMap::BottomMap(merge_into(a, b, op, sop, true))
                    }
                },
                LatticeMap::TopMap(b) => LatticeMap::TopMap(merge_into(a, b, op, sop, false)),
            },
            LatticeMap::TopMap(a) => match other {
                LatticeMap::BottomMap(b) => LatticeMap::TopMap(merge_into(b, a, op, sop, false)),
                LatticeMap::TopMap(b) => {
                    proof {
                        lemma_view_entries_dom(a@);
                        lemma_view_entries_dom(b@);
                    }
                    if a.len() > b.len() {
                        LatticeMap::TopMap(merge_into(b, a, op, sop, false))
                    } else {
                        LatticeMap::TopMap(merge_into(a, b, op, sop, false))
                    }
                },
            },
        }
    }
}

/// Whether two maps hold the same keys with values of the same model.
fn same_entries<K: Ord + Copy, L: Lattice>(a: &BTreeMap<K, L>, b: &BTreeMap<K, L>) -> (r: bool)
    requires
        key_order::<K>(),
        L::obeys_lattice_spec(),
    ensures
        r == (view_entries(a@) == view_entries(b@)),
{
    proof {
        lemma_view_entries_dom(a@);
        lemma_view_entries_dom(b@);
    }
    if a.len() != b.len() {
        return false;
    }
    let ks = key_list(a);
    let mut i: usize = 0;
    while i < ks.len()
        invariant
            key_order::<K>(),
            L::obeys_lattice_spec(),
            ks@.to_set() == a@.dom(),
            i <= ks.len(),
            a@.len() == b@.len(),
            forall|j: int|
                0 <= j < i ==> b@.contains_key(#[trigger] ks@[j]) && b@[ks@[j]]@ == a@[ks@[j]]@,
        decreases ks.len() - i,
    {
        let k = ks[i];
        proof {
            assert(ks@.contains(k));
        }
        match b.get(&k) {
            None => {
                proof {
                    assert(!view_entries(b@).contains_key(k));
                    assert(view_entries(a@).contains_key(k));
                }
                return false;
            },
            Some(w) => {
                let v = a.get(&k).unwrap();
                if !v.same(w) {
                    proof {
                        assert(view_entries(a@)[k] != view_entries(b@)[k]);
                    }
                    return false;
                }
            },
        }
        i = i + 1;
    }
    proof {
        assert forall|k: K| a@.dom().contains(k) implies b@.dom().contains(k) by {
            assert(ks@.contains(k));
            let j = choose|j: int| 0 <= j < ks@.len() && ks@[j] == k;
            assert(b@.contains_key(ks@[j]));
        }
        vstd::set_lib::lemma_subset_equality(a@.dom(), b@.dom());
        assert forall|k: K| view_entries(a@).contains_key(k) implies view_entries(a@)[k] == view_entries(b@)[k] by {
            assert(ks@.contains(k));
            let j = choose|j: int| 0 <= j < ks@.len() && ks@[j] == k;
            assert(b@[ks@[j]]@ == a@[ks@[j]]@);
        }
        assert(view_entries(a@) =~= view_entries(b@));
    }
    true
}

/// A map holding a copy of each entry of `m`.
fn duplicate_entries<K: Ord + Copy, L: Lattice>(m: &BTreeMap<K, L>) -> (r: BTreeMap<K, L>)
    requires
        key_order::<K>(),
        L::obeys_lattice_spec(),
    ensures
        view_entries(r@) == view_entries(m@),
{
    let ks = key_list(m);
    let mut r: BTreeMap<K, L> = BTreeMap::new();
    let mut i: usize = 0;
    proof {
        assert(view_entries(r@) =~= view_entries(m@).restrict(ks@.take(0).to_set()));
    }
    while i < ks.len()
        invariant
            key_order::<K>(),
            L::obeys_lattice_spec(),
            ks@.to_set() == m@.dom(),
            ks@.no_duplicates(),
            i <= ks.len(),
            view_entries(r@) == view_entries(m@).restrict(ks@.take(i as int).to_set()),
        decreases ks.len() - i,
    {
        let k = ks[i];
        let ghost done = ks@.take(i as int).to_set();
        let ghost before = r@;
        proof {
            assert(ks@.contains(k));
            assert(ks@.take(i + 1) =~= ks@.take(i as int).push(k));
            ks@.take(i as int).lemma_push_to_set_commute(k);
        }
        let v = m.get(&k).unwrap();
        let copy = v.duplicate();
        r.insert(k, copy);
        proof {
            assert(view_entries(r@) =~= view_entries(before).insert(k, view_entries(m@)[k]));
            assert(view_entries(r@) =~= view_entries(m@).restrict(ks@.take(i + 1).to_set()));
        }
        i = i + 1;
    }
    proof {
        assert(ks@.take(ks@.len() as int) =~= ks@);
        assert(view_entries(r@) =~= view_entries(m@));
    }
    r
}

impl<K: Ord + Copy, L: Lattice> Lattice for LatticeMap<K, L> {
    open spec fn obeys_lattice_spec() -> bool {
        key_order::<K>() && L::obeys_lattice_spec()
    }

    open spec fn spec_bottom() -> LatticeMapView<K, L::V> {
        LatticeMapView { is_top: false, entries: Map::empty() }
    }

    open spec fn spec_top() -> LatticeMapView<K, L::V> {
        LatticeMapView { is_top: true, entries: Map::empty() }
    }

    open spec fn spec_join(a: LatticeMapView<K, L::V>, b: LatticeMapView<K, L::V>) -> LatticeMapView<K, L::V> {
        join_views(a, b, |x: L::V, y: L::V| L::spec_join(x, y))
    }

    open spec fn spec_meet(a: LatticeMapView<K, L::V>, b: LatticeMapView<K, L::V>) -> LatticeMapView<K, L::V> {
        meet_views(a, b, |x: L::V, y: L::V| L::spec_meet(x, y), |x: L::V, y: L::V| L::spec_join(x, y))
    }

    fn bottom() -> (r: Self) {
        let m: BTreeMap<K, L> = BTreeMap::new();
        proof {
            assert(view_entries(m@) =~= Map::empty());
        }
        LatticeMap::BottomMap(m)
    }

    fn top() -> (r: Self) {
        let m: BTreeMap<K, L> = BTreeMap::new();
        proof {
            assert(view_entries(m@) =~= Map::empty());
        }
        LatticeMap::TopMap(m)
    }

    fn join(self, other: Self) -> (r: Self) {
        let op = |v: L, w: L| -> (r: L)
            requires
                L::obeys_lattice_spec(),
            ensures
                r@ == L::spec_join(v@, w@),
            { v.join(w) };
        self.join_with(other, &op, Ghost(|x: L::V, y: L::V| L::spec_join(x, y)))
    }

    fn meet(self, other: Self) -> (r: Self) {
        let mop = |v: L, w: L| -> (r: L)
            requires
                L::obeys_lattice_spec(),
            ensures
                r@ == L::spec_meet(v@, w@),
            { v.meet(w) };
        let jop = |v: L, w: L| -> (r: L)
            requires
                L::obeys_lattice_spec(),
            ensures
                r@ == L::spec_join(v@, w@),
            { v.join(w) };
        let smop = Ghost(|x: L::V, y: L::V| L::spec_meet(x, y));
        let sjop = Ghost(|x: L::V, y: L::V| L::spec_join(x, y));
        match self {
            LatticeMap::BottomMap(a) => match other {
                LatticeMap::BottomMap(b) => {
                    proof {
                        lemma_view_entries_dom(a@);
                        lemma_view_entries_dom(b@);
                    }
                    if a.len() > b.len() {
                        LatticeMap::BottomMap(merge_into(b, a, &mop, smop, true))
                    } else {
                        LatticeMap::BottomMap(merge_into(a, b, &mop, smop, true))
                    }
                },
                LatticeMap::TopMap(b) => LatticeMap::TopMap(merge_into(b, a, &jop, sjop, false)),
            },
            LatticeMap::TopMap(a) => match other {
                LatticeMap::BottomMap(b) => LatticeMap::TopMap(merge_into(a, b, &jop, sjop, false)),
                LatticeMap::TopMap(b) => {
                    proof {
                        lemma_view_entries_dom(a@);
                        lemma_view_entries_dom(b@);
                    }
                    if a.len() > b.len() {
                        LatticeMap::TopMap(merge_into(b, a, &mop, smop, true))
                    } else {
                        LatticeMap::TopMap(merge_into(a, b, &mop, smop, true))
                    }
                },
            },
        }
    }

    fn same(&self, other: &Self) -> (r: bool) {
        match self {
            LatticeMap::BottomMap(a) => match other {
                LatticeMap::BottomMap(b) => same_entries(a, b),
                LatticeMap::TopMap(_) => false,
            },
            LatticeMap::TopMap(a) => match other {
                LatticeMap::BottomMap(_) => false,
                LatticeMap::TopMap(b) => same_entries(a, b),
            },
        }
    }

    fn duplicate(&self) -> (r: Self) {
        match self {
            LatticeMap::BottomMap(m) => LatticeMap::BottomMap(duplicate_entries(m)),
            LatticeMap::TopMap(m) => LatticeMap::TopMap(duplicate_entries(m)),
        }
    }
}

// ---------------------------------------------------------------------------
// Laws of the flat lattice
// ---------------------------------------------------------------------------

/// Join and meet in the flat lattice are commutative.
pub proof fn law_flat_commutative<T>(a: FlatLattice<T>, b: FlatLattice<T>)
    ensures
        flat_join(a, b) == flat_join(b, a),
        flat_meet(a, b) == flat_meet(b, a),
{
}

/// Join and meet in the flat lattice are associative.
pub proof fn law_flat_associative<T>(a: FlatLattice<T>, b: FlatLattice<T>, c: FlatLattice<T>)
    ensures
        flat_join(flat_join(a, b), c) == flat_join(a, flat_join(b, c)),
        flat_meet(flat_meet(a, b), c) == flat_meet(a, flat_meet(b, c)),
{
}

/// Join and meet in the flat lattice are idempotent and absorb each other.
pub proof fn law_flat_idempotent_absorption<T>(a: FlatLattice<T>, b: FlatLattice<T>)
    ensures
        flat_join(a, a) == a,
        flat_meet(a, a) == a,
        flat_join(a, flat_meet(a, b)) == a,
        flat_meet(a, flat_join(a, b)) == a,
{
}

/// `Bottom` is the identity of join and absorbs meet; `Top` is the identity
/// of meet and absorbs join.
pub proof fn law_flat_bounds<T>(a: FlatLattice<T>)
    ensures
        flat_join(FlatLattice::Bottom, a) == a,
        flat_join(a, FlatLattice::Top) == FlatLattice::<T>::Top,
        flat_meet(FlatLattice::Top, a) == a,
        flat_meet(a, FlatLattice::Bottom) == FlatLattice::<T>::Bottom,
{
}

// ---------------------------------------------------------------------------
// Laws of lattice maps
// ---------------------------------------------------------------------------

/// Reading a key after storing a value under it gives that value; every other
/// key reads as before.
pub proof fn law_read_after_update<K, V>(m: LatticeMapView<K, V>, key: K, value: V, other: K, bottom: V, top: V)
    ensures
        read_view(update_view(m, key, value), key, bottom, top) == value,
        other != key ==> read_view(update_view(m, key, value), other, bottom, top) == read_view(
            m,
            other,
            bottom,
            top,
        ),
{
}

/// In the least map every key reads as bottom; in the greatest, as top.
pub proof fn law_read_bounds<K: Ord + Copy, L: Lattice>(key: K)
    ensures
        LatticeMap::<K, L>::spec_read(LatticeMap::<K, L>::spec_bottom(), key) == L::spec_bottom(),
        LatticeMap::<K, L>::spec_read(LatticeMap::<K, L>::spec_top(), key) == L::spec_top(),
{
}

/// The join (or widening) of two bottom maps reads, under every key, as the
/// combination of what the two maps read there, when `op` is commutative and
/// has bottom as identity.
pub proof fn law_join_bottom_maps<K, V>(
    a: LatticeMapView<K, V>,
    b: LatticeMapView<K, V>,
    op: spec_fn(V, V) -> V,
    bottom: V,
    top: V,
    key: K,
)
    requires
        !a.is_top,
        !b.is_top,
        forall|x: V, y: V| #[trigger] op(x, y) == op(y, x),
        forall|x: V| #[trigger] op(bottom, x) == x,
    ensures
        read_view(join_views(a, b, op), key, bottom, top) == op(
            read_view(a, key, bottom, top),
            read_view(b, key, bottom, top),
        ),
{
    assert(op(read_view(a, key, bottom, top), bottom) == op(bottom, read_view(a, key, bottom, top)));
}

/// The join (or widening) of a bottom map and a top map reads, under every
/// key, as the combination of what the two maps read there, when `op` is
/// commutative, has bottom as identity and top as absorbing element.
pub proof fn law_join_mixed_maps<K, V>(
    a: LatticeMapView<K, V>,
    b: LatticeMapView<K, V>,
    op: spec_fn(V, V) -> V,
    bottom: V,
    top: V,
    key: K,
)
    requires
        a.is_top != b.is_top,
        forall|x: V, y: V| #[trigger] op(x, y) == op(y, x),
        forall|x: V| #[trigger] op(bottom, x) == x,
        forall|x: V| #[trigger] op(x, top) == top,
    ensures
        read_view(join_views(a, b, op), key, bottom, top) == op(
            read_view(a, key, bottom, top),
            read_view(b, key, bottom, top),
        ),
{
    assert(op(top, read_view(b, key, bottom, top)) == op(read_view(b, key, bottom, top), top));
    assert(op(top, read_view(a, key, bottom, top)) == op(read_view(a, key, bottom, top), top));
    assert(op(read_view(a, key, bottom, top), bottom) == op(bottom, read_view(a, key, bottom, top)));
}

/// Whether `key` is stored only in the map that the join of two top maps
/// does not walk (the larger one; `b` on equal sizes), with a value other
/// than `top`: the keys on which that join does not read pointwise.
pub open spec fn kept_unwalked<K, V>(a: LatticeMapView<K, V>, b: LatticeMapView<K, V>, key: K, top: V) -> bool {
    if a.entries.len() > b.entries.len() {
        a.entries.contains_key(key) && !b.entries.contains_key(key) && a.entries[key] != top
    } else {
        b.entries.contains_key(key) && !a.entries.contains_key(key) && b.entries[key] != top
    }
}

/// The join (or widening) of two top maps reads, under a key, as the
/// combination of what the two maps read there, when `op` is commutative
/// and has top as absorbing element, except on the keys of `kept_unwalked`.
pub proof fn law_join_top_maps<K, V>(
    a: LatticeMapView<K, V>,
    b: LatticeMapView<K, V>,
    op: spec_fn(V, V) -> V,
    bottom: V,
    top: V,
    key: K,
)
    requires
        a.is_top,
        b.is_top,
        !kept_unwalked(a, b, key, top),
        forall|x: V, y: V| #[trigger] op(x, y) == op(y, x),
        forall|x: V| #[trigger] op(x, top) == top,
    ensures
        read_view(join_views(a, b, op), key, bottom, top) == op(
            read_view(a, key, bottom, top),
            read_view(b, key, bottom, top),
        ),
{
    assert(op(top, read_view(b, key, bottom, top)) == op(read_view(b, key, bottom, top), top));
    assert(op(top, read_view(a, key, bottom, top)) == op(read_view(a, key, bottom, top), top));
}

/// The meet of two top maps reads, under every key, as the meet of what the
/// two maps read there, when `mop` is commutative and has top as identity.
pub proof fn law_meet_top_maps<K, V>(
    a: LatticeMapView<K, V>,
    b: LatticeMapView<K, V>,
    mop: spec_fn(V, V) -> V,
    jop: spec_fn(V, V) -> V,
    bottom: V,
    top: V,
    key: K,
)
    requires
        a.is_top,
        b.is_top,
        forall|x: V, y: V| #[trigger] mop(x, y) == mop(y, x),
        forall|x: V| #[trigger] mop(top, x) == x,
    ensures
        read_view(meet_views(a, b, mop, jop), key, bottom, top) == mop(
            read_view(a, key, bottom, top),
            read_view(b, key, bottom, top),
        ),
{
    assert(mop(read_view(a, key, bottom, top), top) == mop(top, read_view(a, key, bottom, top)));
}

/// The meet of two bottom maps reads, under a key, as the meet of what the
/// two maps read there, when `mop` is commutative and has bottom as
/// absorbing element, except on a key stored in one map only with a value
/// other than bottom.
pub proof fn law_meet_bottom_maps<K, V>(
    a: LatticeMapView<K, V>,
    b: LatticeMapView<K, V>,
    mop: spec_fn(V, V) -> V,
    jop: spec_fn(V, V) -> V,
    bottom: V,
    top: V,
    key: K,
)
    requires
        !a.is_top,
        !b.is_top,
        a.entries.contains_key(key) && !b.entries.contains_key(key) ==> a.entries[key] == bottom,
        b.entries.contains_key(key) && !a.entries.contains_key(key) ==> b.entries[key] == bottom,
        forall|x: V, y: V| #[trigger] mop(x, y) == mop(y, x),
        forall|x: V| #[trigger] mop(x, bottom) == bottom,
    ensures
        read_view(meet_views(a, b, mop, jop), key, bottom, top) == mop(
            read_view(a, key, bottom, top),
            read_view(b, key, bottom, top),
        ),
{
    assert(mop(bottom, read_view(b, key, bottom, top)) == mop(read_view(b, key, bottom, top), bottom));
}

/// The meet of a bottom map and a top map is a top map that keeps the
/// entries of the bottom map, with the values under a key of both joined
/// (top map's value first); every other key reads as top.
pub proof fn law_meet_mixed_maps<K, V>(
    a: LatticeMapView<K, V>,
    b: LatticeMapView<K, V>,
    mop: spec_fn(V, V) -> V,
    jop: spec_fn(V, V) -> V,
    bottom: V,
    top: V,
    key: K,
)
    requires
        a.is_top != b.is_top,
    ensures
        ({
            let (t, m) = if a.is_top { (a, b) } else { (b, a) };
            let r = meet_views(a, b, mop, jop);
            &&& r.is_top
            &&& r.entries.dom() == m.entries.dom()
            &&& read_view(r, key, bottom, top) == if m.entries.contains_key(key) {
                if t.entries.contains_key(key) {
                    jop(t.entries[key], m.entries[key])
                } else {
                    m.entries[key]
                }
            } else {
                top
            }
        }),
{
    let (t, m) = if a.is_top { (a, b) } else { (b, a) };
    assert(meet_views(a, b, mop, jop).entries.dom() =~= m.entries.dom());
}

/// Joining (or widening) or meeting a map with itself gives the map back,
/// when the operation on values is idempotent.
pub proof fn law_maps_idempotent<K, V>(
    a: LatticeMapView<K, V>,
    op: spec_fn(V, V) -> V,
    jop: spec_fn(V, V) -> V,
)
    requires
        forall|x: V| #[trigger] op(x, x) == x,
    ensures
        join_views(a, a, op) == a,
        meet_views(a, a, op, jop) == a,
{
    assert(merge_spec(a.entries, a.entries, op, true) =~= a.entries);
    assert(merge_spec(a.entries, a.entries, op, false) =~= a.entries);
}

// ---------------------------------------------------------------------------
// Laws of join and meet on lattice maps
// ---------------------------------------------------------------------------

/// The join of two bottom maps reads, under every key, as the join of what
/// the two maps read there, when the join of values is commutative and has
/// bottom as identity.
pub proof fn law_map_join_bottom_maps<K: Ord + Copy, L: Lattice>(
    a: LatticeMapView<K, L::V>,
    b: LatticeMapView<K, L::V>,
    key: K,
)
    requires
        !a.is_top,
        !b.is_top,
        forall|x: L::V, y: L::V| #[trigger] L::spec_join(x, y) == L::spec_join(y, x),
        forall|x: L::V| #[trigger] L::spec_join(L::spec_bottom(), x) == x,
    ensures
        LatticeMap::<K, L>::spec_read(LatticeMap::<K, L>::spec_join(a, b), key) == L::spec_join(
            LatticeMap::<K, L>::spec_read(a, key),
            LatticeMap::<K, L>::spec_read(b, key),
        ),
{
    let ra = LatticeMap::<K, L>::spec_read(a, key);
    assert(L::spec_join(ra, L::spec_bottom()) == L::spec_join(L::spec_bottom(), ra));
}

/// The join of a bottom map and a top map reads, under every key, as the
/// join of what the two maps read there, when the join of values is
/// commutative, has bottom as identity and top as absorbing element.
pub proof fn law_map_join_mixed_maps<K: Ord + Copy, L: Lattice>(
    a: LatticeMapView<K, L::V>,
    b: LatticeMapView<K, L::V>,
    key: K,
)
    requires
        a.is_top != b.is_top,
        forall|x: L::V, y: L::V| #[trigger] L::spec_join(x, y) == L::spec_join(y, x),
        forall|x: L::V| #[trigger] L::spec_join(L::spec_bottom(), x) == x,
        forall|x: L::V| #[trigger] L::spec_join(x, L::spec_top()) == L::spec_top(),
    ensures
        LatticeMap::<K, L>::spec_read(LatticeMap::<K, L>::spec_join(a, b), key) == L::spec_join(
            LatticeMap::<K, L>::spec_read(a, key),
            LatticeMap::<K, L>::spec_read(b, key),
        ),
{
    let ra = LatticeMap::<K, L>::spec_read(a, key);
    let rb = LatticeMap::<K, L>::spec_read(b, key);
    assert(L::spec_join(ra, L::spec_bottom()) == L::spec_join(L::spec_bottom(), ra));
    assert(L::spec_join(L::spec_top(), rb) == L::spec_join(rb, L::spec_top()));
    assert(L::spec_join(L::spec_top(), ra) == L::spec_join(ra, L::spec_top()));
}

/// The meet of two bottom maps reads, under a key that both store, as the
/// meet of the two stored values, when the meet of values is commutative.
pub proof fn law_map_meet_bottom_maps<K: Ord + Copy, L: Lattice>(
    a: LatticeMapView<K, L::V>,
    b: LatticeMapView<K, L::V>,
    key: K,
)
    requires
        !a.is_top,
        !b.is_top,
        a.entries.contains_key(key),
        b.entries.contains_key(key),
        forall|x: L::V, y: L::V| #[trigger] L::spec_meet(x, y) == L::spec_meet(y, x),
    ensures
        LatticeMap::<K, L>::spec_read(LatticeMap::<K, L>::spec_meet(a, b), key) == L::spec_meet(
            a.entries[key],
            b.entries[key],
        ),
{
    assert(L::spec_meet(b.entries[key], a.entries[key]) == L::spec_meet(a.entries[key], b.entries[key]));
}

/// The meet of two top maps reads, under every key, as the meet of what the
/// two maps read there, when the meet of values is commutative and has top
/// as identity.
pub proof fn law_map_meet_top_maps<K: Ord + Copy, L: Lattice>(
    a: LatticeMapView<K, L::V>,
    b: LatticeMapView<K, L::V>,
    key: K,
)
    requires
        a.is_top,
        b.is_top,
        forall|x: L::V, y: L::V| #[trigger] L::spec_meet(x, y) == L::spec_meet(y, x),
        forall|x: L::V| #[trigger] L::spec_meet(L::spec_top(), x) == x,
    ensures
        LatticeMap::<K, L>::spec_read(LatticeMap::<K, L>::spec_meet(a, b), key) == L::spec_meet(
            LatticeMap::<K, L>::spec_read(a, key),
            LatticeMap::<K, L>::spec_read(b, key),
        ),
{
    let ra = LatticeMap::<K, L>::spec_read(a, key);
    assert(L::spec_meet(ra, L::spec_top()) == L::spec_meet(L::spec_top(), ra));
}

/// On maps of flat-lattice values, the join of two bottom maps reads under
/// every key as the flat join of what the two maps read there, and each map
/// reads below the join.
pub proof fn law_flat_map_join_bottom_maps<K: Ord + Copy, T: FlatValue>(
    a: LatticeMapView<K, FlatLattice<T>>,
    b: LatticeMapView<K, FlatLattice<T>>,
    key: K,
)
    requires
        !a.is_top,
        !b.is_top,
    ensures
        ({
            let j = LatticeMap::<K, FlatLattice<T>>::spec_join(a, b);
            let ra = LatticeMap::<K, FlatLattice<T>>::spec_read(a, key);
            let rb = LatticeMap::<K, FlatLattice<T>>::spec_read(b, key);
            let rj = LatticeMap::<K, FlatLattice<T>>::spec_read(j, key);
            &&& rj == flat_join(ra, rb)
            &&& flat_join(ra, rj) == rj
            &&& flat_join(rb, rj) == rj
        }),
{
    assert forall|x: FlatLattice<T>, y: FlatLattice<T>| #[trigger] flat_join(x, y) == flat_join(y, x) by {
        law_flat_commutative(x, y);
    }
    assert forall|x: FlatLattice<T>| #[trigger] flat_join(FlatLattice::Bottom, x) == x by {
        law_flat_bounds(x);
    }
    law_map_join_bottom_maps::<K, FlatLattice<T>>(a, b, key);
    let ra = LatticeMap::<K, FlatLattice<T>>::spec_read(a, key);
    let rb = LatticeMap::<K, FlatLattice<T>>::spec_read(b, key);
    law_flat_associative(ra, ra, rb);
    law_flat_idempotent_absorption(ra, rb);
    law_flat_associative(rb, ra, rb);
    law_flat_associative(rb, rb, ra);
    law_flat_idempotent_absorption(rb, ra);
}

/// On maps of flat-lattice values, the meet of two bottom maps reads under a
/// key that both store as the flat meet of the stored values, and the meet
/// reads there below each map.
pub proof fn law_flat_map_meet_bottom_maps<K: Ord + Copy, T: FlatValue>(
    a: LatticeMapView<K, FlatLattice<T>>,
    b: LatticeMapView<K, FlatLattice<T>>,
    key: K,
)
    requires
        !a.is_top,
        !b.is_top,
        a.entries.contains_key(key),
        b.entries.contains_key(key),
    ensures
        ({
            let m = LatticeMap::<K, FlatLattice<T>>::spec_meet(a, b);
            let rm = LatticeMap::<K, FlatLattice<T>>::spec_read(m, key);
            &&& rm == flat_meet(a.entries[key], b.entries[key])
            &&& flat_join(rm, a.entries[key]) == a.entries[key]
            &&& flat_join(rm, b.entries[key]) == b.entries[key]
        }),
{
    assert forall|x: FlatLattice<T>, y: FlatLattice<T>| #[trigger] flat_meet(x, y) == flat_meet(y, x) by {
        law_flat_commutative(x, y);
    }
    law_map_meet_bottom_maps::<K, FlatLattice<T>>(a, b, key);
}

} // verus!
