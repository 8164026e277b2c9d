//! A table keyed by cluster id: one entry per cluster, the last insert for
//! an id replacing the one before.

use vstd::prelude::*;
use std::collections::HashMap;

verus! {

broadcast use vstd::std_specs::hash::group_hash_axioms;

/// Entries keyed by a cluster id.
pub struct Registry<V> {
    entries: HashMap<u128, V>,
}

impl<V> Registry<V> {
    /// The entries, as a map from id to value.
    pub closed spec fn view(&self) -> Map<u128, V> {
        self.entries@
    }

    pub fn new() -> (r: Registry<V>)
        ensures
            r.view() == Map::<u128, V>::empty(),
    {
        Registry { entries: HashMap::new() }
    }

    /// The value for `id`, if there is one.
    pub fn get(&self, id: u128) -> (r: Option<&V>)
        ensures
            match r {
                Some(v) => self.view().contains_key(id) && *v == self.view()[id],
                None => !self.view().contains_key(id),
            },
    {
        self.entries.get(&id)
    }

    /// Drops the value for `id` and hands it back, if there was one.
    pub fn remove(&mut self, id: u128) -> (r: Option<V>)
        ensures
            final(self).view() == old(self).view().remove(id),
            match r {
                Some(v) => old(self).view().contains_key(id) && v == old(self).view()[id],
                None => !old(self).view().contains_key(id),
            },
    {
        self.entries.remove(&id)
    }

    /// Sets the value for `id`, replacing any value it had.
    pub fn insert(&mut self, id: u128, value: V)
        ensures
            final(self).view() == old(self).view().insert(id, value),
    {
        let _ = self.entries.insert(id, value);
    }
}

} // verus!
