//! The raw documentation graph: item records, each a JSON object, indexed
//! by their integer ids, and the id of the root module.

use vstd::prelude::*;
use std::collections::HashMap;
use crate::json::JsonValue;

verus! {

pub struct RawGraph {
    pub root: u64,
    pub crate_version: Option<String>,
    pub index: HashMap<u64, JsonValue>,
}

impl RawGraph {
    /// A graph with no records yet.
    pub fn new(root: u64, crate_version: Option<String>) -> (r: RawGraph)
        ensures
            r.root == root,
            r.crate_version == crate_version,
            r.index@ == Map::<u64, JsonValue>::empty(),
    {
        RawGraph { root, crate_version, index: HashMap::new() }
    }

    /// Records `item` under `id`, replacing any record held there.
    pub fn insert(&mut self, id: u64, item: JsonValue)
        ensures
            final(self).root == old(self).root,
            final(self).crate_version == old(self).crate_version,
            final(self).index@ == old(self).index@.insert(id, item),
    {
        self.index.insert(id, item);
    }

    /// The record with id `id`, if the graph holds one.
    pub fn lookup(&self, id: u64) -> (r: Option<&JsonValue>)
        ensures
            match r {
                Some(v) => self.index@.contains_key(id) && self.index@[id] == *v,
                None => !self.index@.contains_key(id),
            },
    {
        self.index.get(&id)
    }
}

} // verus!
