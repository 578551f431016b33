//! Keys of a table in ascending order.

use vstd::prelude::*;
use std::collections::HashMap;
use crate::support::maps::hash_keys;

verus! {

/// Whether every key is greater than the one before.
pub open spec fn increasing(keys: Seq<u64>) -> bool {
    forall|i: int, j: int| 0 <= i < j < keys.len() ==> keys[i] < keys[j]
}

/// Whether a key lies above a bound; every key lies above no bound.
pub open spec fn above(bound: Option<u64>, k: u64) -> bool {
    match bound {
        Some(b) => b < k,
        None => true,
    }
}

/// The least key above a bound, if there is one.
fn least_above(keys: &Vec<u64>, bound: Option<u64>) -> (r: Option<u64>)
    ensures
        match r {
            Some(k) => keys@.contains(k) && above(bound, k) && forall|j: int|
                0 <= j < keys@.len() && above(bound, #[trigger] keys@[j]) ==> k <= keys@[j],
            None => forall|j: int| 0 <= j < keys@.len() ==> !above(bound, #[trigger] keys@[j]),
        },
{
    let mut best: Option<u64> = None;
    let mut i: usize = 0;
    while i < keys.len()
        invariant
            i <= keys.len(),
            match best {
                Some(k) => keys@.contains(k) && above(bound, k) && forall|j: int|
                    0 <= j < i && above(bound, #[trigger] keys@[j]) ==> k <= keys@[j],
                None => forall|j: int| 0 <= j < i ==> !above(bound, #[trigger] keys@[j]),
            },
        decreases keys.len() - i,
    {
        let k = keys[i];
        let above = match bound {
            Some(b) => b < k,
            None => true,
        };
        if above {
            let better = match best {
                Some(current) => k < current,
                None => true,
            };
            if better {
                best = Some(k);
            }
        }
        i += 1;
    }
    best
}

/// The keys of a table, each once, in ascending order.
pub fn sorted_keys<V>(m: &HashMap<u64, V>) -> (sorted: Vec<u64>)
    ensures
        increasing(sorted@),
        sorted@.to_set() == m@.dom(),
        sorted@.len() == m@.dom().len(),
{
    let keys = hash_keys(m);
    let mut sorted: Vec<u64> = Vec::new();
    let mut bound: Option<u64> = None;
    let mut done = false;
    let mut round: usize = 0;
    while round < keys.len() && !done
        invariant
            round <= keys.len(),
            sorted@.len() == round,
            increasing(sorted@),
            forall|i: int| 0 <= i < sorted@.len() ==> keys@.contains(sorted@[i]),
            match bound {
                Some(b) => sorted@.len() > 0 && sorted@[sorted@.len() - 1] == b,
                None => sorted@.len() == 0,
            },
            forall|j: int|
                0 <= j < keys@.len() && !above(bound, #[trigger] keys@[j]) ==> sorted@.contains(
                    keys@[j],
                ),
            done ==> forall|j: int| 0 <= j < keys@.len() ==> sorted@.contains(keys@[j]),
        decreases keys.len() - round + (if done { 0int } else { 1int }),
    {
        match least_above(&keys, bound) {
            Some(k) => {
                let ghost before = sorted@;
                sorted.push(k);
                proof {
                    assert forall|j: int|
                        0 <= j < keys@.len() && !above(Some(k), #[trigger] keys@[j])
                            implies sorted@.contains(keys@[j]) by {
                        if !above(bound, keys@[j]) {
                            assert(before.contains(keys@[j]));
                            let w = choose|w: int| 0 <= w < before.len() && before[w] == keys@[j];
                            assert(sorted@[w] == keys@[j]);
                        } else {
                            assert(k <= keys@[j]);
                            assert(sorted@[before.len() as int] == keys@[j]);
                        }
                    }
                }
                bound = Some(k);
                round += 1;
            },
            None => {
                done = true;
            },
        }
    }
    proof {
        assert(sorted@.no_duplicates());
        assert forall|k: u64| sorted@.to_set().contains(k) implies keys@.to_set().contains(k) by {
            let w = choose|w: int| 0 <= w < sorted@.len() && sorted@[w] == k;
            assert(keys@.contains(sorted@[w]));
        }
        sorted@.unique_seq_to_set();
        keys@.unique_seq_to_set();
        if !done {
            assert(sorted@.len() == keys@.len());
            vstd::set_lib::lemma_subset_equality(sorted@.to_set(), keys@.to_set());
        } else {
            assert forall|k: u64| keys@.to_set().contains(k) implies sorted@.to_set().contains(
                k,
            ) by {
                let j = choose|j: int| 0 <= j < keys@.len() && keys@[j] == k;
                assert(sorted@.contains(keys@[j]));
            }
            assert(sorted@.to_set() =~= keys@.to_set());
        }
    }
    sorted
}

} // verus!
