//! Walking an ordered map in a way that proofs can follow.

use vstd::prelude::*;
use std::collections::BTreeMap;
use vstd::std_specs::iter::IteratorSpec;

verus! {

/// The keys of an ordered map, each once.
pub fn btree_keys<V>(m: &BTreeMap<u64, V>) -> (keys: Vec<u64>)
    ensures
        keys@.no_duplicates(),
        keys@.to_set() == m@.dom(),
{
    let mut keys: Vec<u64> = Vec::new();
    let ghost all = m.iter().remaining();
    for kv in it: m.iter()
        invariant
            it.seq() == all,
            keys@.len() == it.index(),
            forall|j: int| 0 <= j < keys@.len() ==> keys@[j] == *all[j].0,
    {
        keys.push(*kv.0);
    }
    proof {
        broadcast use vstd::std_specs::btree::axiom_spec_btree_map_iter;

        assert forall|i: int, j: int|
            0 <= i < keys@.len() && 0 <= j < keys@.len() && i != j implies keys@[i] != keys@[j] by {
            if keys@[i] == keys@[j] {
                assert(m@.contains_key(*all[i].0) && m@[*all[i].0] == *all[i].1);
                assert(m@.contains_key(*all[j].0) && m@[*all[j].0] == *all[j].1);
                assert(all[i] == all[j]);
            }
        }
        assert forall|k: u64| keys@.to_set().contains(k) <==> m@.dom().contains(k) by {
            if keys@.to_set().contains(k) {
                let i = choose|i: int| 0 <= i < keys@.len() && keys@[i] == k;
                assert(m@.contains_key(*all[i].0));
            }
            if m@.dom().contains(k) {
                assert(all.contains((&k, &m@[k])));
                let i = choose|i: int| 0 <= i < all.len() && all[i] == (&k, &m@[k]);
                assert(keys@[i] == k);
            }
        }
        assert(keys@.to_set() =~= m@.dom());
    }
    keys
}

} // verus!
