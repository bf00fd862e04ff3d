//! The desktop process's sync runtime counters.

use vstd::prelude::*;
use crate::network_runtime::next_generation;

verus! {

/// Owns the long-lived sync counters of a desktop process: the network
/// generation and the number of sessions established.
pub struct SyncRuntime {
    network_generation: u64,
    session_count: usize,
}

impl SyncRuntime {
    pub closed spec fn spec_generation(&self) -> u64 {
        self.network_generation
    }

    pub closed spec fn spec_sessions(&self) -> usize {
        self.session_count
    }

    pub fn new() -> (rt: Self)
        ensures
            rt.spec_generation() == 0,
            rt.spec_sessions() == 0,
    {
        SyncRuntime { network_generation: 0, session_count: 0 }
    }

    pub fn network_generation(&self) -> (g: u64)
        ensures
            g == self.spec_generation(),
    {
        self.network_generation
    }

    /// Advance the network generation (Wi-Fi off/on, IP change, sleep/wake);
    /// it wraps after `u64::MAX`.
    pub fn on_network_change(&mut self)
        ensures
            final(self).spec_generation() == next_generation(old(self).spec_generation()),
            final(self).spec_sessions() == old(self).spec_sessions(),
    {
        self.network_generation = self.network_generation.wrapping_add(1);
    }

    pub fn session_count(&self) -> (n: usize)
        ensures
            n == self.spec_sessions(),
    {
        self.session_count
    }

    /// Count one more established session; the count wraps after `usize::MAX`.
    pub fn on_session_established(&mut self)
        ensures
            final(self).spec_sessions() == if old(self).spec_sessions() == usize::MAX {
                0
            } else {
                (old(self).spec_sessions() + 1) as usize
            },
            final(self).spec_generation() == old(self).spec_generation(),
    {
        self.session_count = self.session_count.wrapping_add(1);
    }
}

impl Default for SyncRuntime {
    fn default() -> (rt: Self)
        ensures
            rt.spec_generation() == 0,
            rt.spec_sessions() == 0,
    {
        SyncRuntime::new()
    }
}

} // verus!
