use std::collections::HashMap;
use vstd::prelude::*;

use crate::Key;
use vstd::std_specs::iter::IteratorSpec;

verus! {

broadcast use vstd::std_specs::hash::group_hash_axioms;

/// The keys of `m`, each once, in the order in which the map yields them.
pub fn keys_of<V>(m: &HashMap<Key, V>) -> (r: Vec<Key>)
    ensures
        r@.to_set() == m@.dom(),
        r@.no_duplicates(),
{
    let mut r: Vec<Key> = Vec::new();
    let ghost ks: Seq<&Key> = vstd::std_specs::hash::spec_keys_iter(m).remaining();
    for k in it: m.keys()
        invariant
            it.seq() == ks,
            r@ == ks.take(it.index()).unref(),
    {
        r.push(*k);
        proof {
            assert(it.seq().take(it.index() + 1).unref() =~= it.seq().take(it.index()).unref().push(*k));
        }
    }
    proof {
        assert(ks.take(ks.len() as int) =~= ks);
    }
    r
}

} // verus!
