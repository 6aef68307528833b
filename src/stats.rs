//! The broker's registry of per-client statistics.
use std::collections::HashMap;

use vstd::prelude::*;

verus! {

broadcast use vstd::std_specs::hash::group_hash_axioms;

/// What the broker knows of one client.
#[derive(Debug, Clone, Copy, PartialEq, Eq, Structural)]
pub struct ClientStats {
    pub corpus_size: u64,
    pub objective_size: u64,
    pub executions: u64,
    pub last_update_time: u64,
}

/// The record of a client that has sent nothing yet.
pub open spec fn fresh_client_stats() -> ClientStats {
    ClientStats { corpus_size: 0, objective_size: 0, executions: 0, last_update_time: 0 }
}

/// The record of `id` in a registry: its entry, or a fresh record.
pub open spec fn record_of(m: Map<u32, ClientStats>, id: u32) -> ClientStats {
    if m.contains_key(id) {
        m[id]
    } else {
        fresh_client_stats()
    }
}

/// Statistics of every client that has sent a message, by sender id.
/// Entries are created on first use and never removed.
pub struct Stats {
    clients: HashMap<u32, ClientStats>,
}

impl View for Stats {
    type V = Map<u32, ClientStats>;

    closed spec fn view(&self) -> Map<u32, ClientStats> {
        self.clients@
    }
}

impl Stats {
    /// An empty registry.
    pub fn new() -> (r: Stats)
        ensures
            r@ == Map::<u32, ClientStats>::empty(),
    {
        Stats { clients: HashMap::new() }
    }

    /// The record of `id`; a fresh one if `id` has sent nothing.
    pub fn client_stats_for(&self, id: u32) -> (r: ClientStats)
        ensures
            r == record_of(self@, id),
    {
        match self.clients.get(&id) {
            Some(c) => *c,
            None => ClientStats { corpus_size: 0, objective_size: 0, executions: 0, last_update_time: 0 },
        }
    }

    /// Whether `id` has an entry.
    pub fn contains(&self, id: u32) -> (r: bool)
        ensures
            r == self@.contains_key(id),
    {
        self.clients.contains_key(&id)
    }

    /// The number of clients with an entry.
    pub fn client_count(&self) -> (r: usize)
        ensures
            r == self@.len(),
    {
        self.clients.len()
    }

    /// Replaces the record of `id`.
    pub fn set_client_stats(&mut self, id: u32, c: ClientStats)
        ensures
            final(self)@ == old(self)@.insert(id, c),
    {
        self.clients.insert(id, c);
    }

    /// Sets the corpus size reported by `id`.
    pub fn update_corpus_size(&mut self, id: u32, corpus_size: u64)
        ensures
            final(self)@ == old(self)@.insert(
                id,
                ClientStats { corpus_size, ..record_of(old(self)@, id) },
            ),
    {
        let c = self.client_stats_for(id);
        self.set_client_stats(id, ClientStats { corpus_size, ..c });
    }

    /// Sets the executions reported by `id`, and when they were reported.
    pub fn update_executions(&mut self, id: u32, executions: u64, time: u64)
        ensures
            final(self)@ == old(self)@.insert(
                id,
                ClientStats { executions, last_update_time: time, ..record_of(old(self)@, id) },
            ),
    {
        let c = self.client_stats_for(id);
        self.set_client_stats(id, ClientStats { executions, last_update_time: time, ..c });
    }

    /// Sets the number of objectives reported by `id`.
    pub fn update_objective_size(&mut self, id: u32, objective_size: u64)
        ensures
            final(self)@ == old(self)@.insert(
                id,
                ClientStats { objective_size, ..record_of(old(self)@, id) },
            ),
    {
        let c = self.client_stats_for(id);
        self.set_client_stats(id, ClientStats { objective_size, ..c });
    }
}

} // verus!
