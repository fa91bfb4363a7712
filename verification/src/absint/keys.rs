//! Keys of the ordered maps that hold abstract states.

use std::collections::BTreeMap;
use vstd::prelude::*;

verus! {

/// The key type's `Ord` behaves as a total order that agrees with equality
/// (true of the integer types and of tuples of them), which is what the
/// specifications of `BTreeMap` rest on.
pub open spec fn key_order<K: Ord>() -> bool {
    vstd::laws_cmp::obeys_cmp::<K>()
}

/// Machine integers are such keys.
pub proof fn lemma_u64_key_order()
    ensures
        key_order::<u64>(),
{
    broadcast use vstd::laws_cmp::group_laws_cmp;
}

/// The keys of `m`, each once.
pub(crate) fn key_list<K: Ord + Copy, V>(m: &BTreeMap<K, V>) -> (r: Vec<K>)
    requires
        key_order::<K>(),
    ensures
        r@.to_set() == m@.dom(),
        r@.no_duplicates(),
{
    broadcast use vstd::std_specs::btree::group_btree_axioms;

    let mut r: Vec<K> = Vec::new();
    for k in it: m.keys()
        invariant
            it.seq().unref().to_set() == m@.dom(),
            it.seq().unref().no_duplicates(),
            r@ == it.seq().unref().take(it.index()),
            it.index() == it.seq().len() ==> r@ =~= it.seq().unref(),
    {
        r.push(*k);
    }
    r
}

} // verus!
