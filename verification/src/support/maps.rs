//! Walking a hash map in a way that proofs can follow.

use vstd::prelude::*;
use std::collections::HashMap;
use vstd::std_specs::iter::IteratorSpec;

verus! {

/// The keys of a map, each once, in the order in which the map hands them
/// out.
pub fn hash_keys<K: Copy, V>(m: &HashMap<K, V>) -> (keys: Vec<K>)
    requires
        vstd::std_specs::hash::obeys_key_model::<K>(),
    ensures
        keys@.no_duplicates(),
        keys@.to_set() == m@.dom(),
        keys@.len() == m@.dom().len(),
{
    let mut keys: Vec<K> = Vec::new();
    let ghost all = m.iter().remaining();
    for kv in it: m.iter()
        invariant
            it.seq() == all,
            keys@.len() == it.index(),
            forall|j: int| 0 <= j < keys@.len() ==> keys@[j] == *all[j].0,
    {
        keys.push(*kv.0);
    }
    proof {
        broadcast use vstd::std_specs::hash::axiom_spec_hash_map_iter;

        assert forall|i: int, j: int|
            0 <= i < keys@.len() && 0 <= j < keys@.len() && i != j implies keys@[i] != keys@[j] by {
            if keys@[i] == keys@[j] {
                assert(m@.contains_key(*all[i].0) && m@[*all[i].0] == *all[i].1);
                assert(m@.contains_key(*all[j].0) && m@[*all[j].0] == *all[j].1);
                assert(all[i] == all[j]);
            }
        }
        assert forall|k: K| keys@.to_set().contains(k) <==> m@.dom().contains(k) by {
            if keys@.to_set().contains(k) {
                let i = choose|i: int| 0 <= i < keys@.len() && keys@[i] == k;
                assert(m@.contains_key(*all[i].0));
            }
            if m@.dom().contains(k) {
                assert(all.contains((&k, &m@[k])));
                let i = choose|i: int| 0 <= i < all.len() && all[i] == (&k, &m@[k]);
                assert(keys@[i] == k);
            }
        }
        assert(keys@.to_set() =~= m@.dom());
    }
    keys
}

/// A copy of a table with the same entries.
pub fn copy_table<V: Copy>(m: &HashMap<u64, V>) -> (copy: HashMap<u64, V>)
    ensures
        copy@ == m@,
{
    let keys = hash_keys(m);
    let mut copy: HashMap<u64, V> = HashMap::new();
    let mut i: usize = 0;
    while i < keys.len()
        invariant
            i <= keys.len(),
            keys@.to_set() == m@.dom(),
            forall|k: u64|
                #![trigger copy@.contains_key(k)]
                copy@.contains_key(k) ==> m@.contains_key(k) && copy@[k] == m@[k],
            forall|j: int| 0 <= j < i ==> copy@.contains_key(keys@[j]),
        decreases keys.len() - i,
    {
        let k = keys[i];
        assert(keys@.to_set().contains(k));
        let ghost before = copy@;
        match m.get(&k) {
            Some(v) => {
                let val: V = *v;
                assert(val == m@[k]);
                copy.insert(k, val);
                assert(copy@ == before.insert(k, val));
            },
            None => {},
        }
        i += 1;
    }
    proof {
        assert forall|k: u64| m@.contains_key(k) implies copy@.contains_key(k) by {
            assert(keys@.to_set().contains(k));
            let j = choose|j: int| 0 <= j < keys@.len() && keys@[j] == k;
            assert(copy@.contains_key(keys@[j]));
        }
        assert(copy@ =~= m@);
    }
    copy
}

} // verus!
