//! Task calendar back end: users, their task libraries, and the rules that
//! the request handlers apply to them.

pub mod account_handler;
pub mod properties;
pub mod task;
pub mod user;

use std::collections::HashMap;
use vstd::prelude::*;
use vstd::std_specs::iter::IteratorSpec;

verus! {

broadcast use vstd::std_specs::hash::group_hash_axioms;

/// The keys of a hash map, each once, in the order in which the map walks them.
pub(crate) fn key_list<K: Copy + Eq + std::hash::Hash, V>(m: &HashMap<K, V>) -> (ks: Vec<K>)
    requires
        vstd::std_specs::hash::obeys_key_model::<K>(),
    ensures
        ks@.no_duplicates(),
        forall|k: K| #[trigger] ks@.contains(k) <==> m@.contains_key(k),
{
    let mut ks: Vec<K> = Vec::new();
    for k in it: m.keys()
        invariant
            it.seq() == m.keys().remaining(),
            ks@ == m.keys().remaining().unref().take(it.index()),
    {
        ks.push(*k);
    }
    assert(ks@ == m.keys().remaining().unref());
    ks
}

} // verus!
