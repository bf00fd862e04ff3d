//! Network-change runtime: generation bumps after interface changes.

use vstd::prelude::*;

verus! {

/// Rediscovery delay window after a network change (0–2 seconds).
pub const REDISCOVERY_MAX_MS: u64 = 2_000;

/// A counter of network changes; candidates and sockets of older
/// generations are stale.
#[derive(Clone, Copy, Debug, Default, PartialEq, Eq, Structural, Hash)]
pub struct NetworkGeneration {
    pub value: u64,
}

/// The generation that follows `g` (wrapping after `u64::MAX`).
pub open spec fn next_generation(g: u64) -> u64 {
    if g == u64::MAX {
        0
    } else {
        (g + 1) as u64
    }
}

impl NetworkGeneration {
    pub fn new() -> (g: Self)
        ensures
            g.value == 0,
    {
        NetworkGeneration { value: 0 }
    }

    pub fn next(self) -> (g: Self)
        ensures
            g.value == next_generation(self.value),
    {
        NetworkGeneration { value: self.value.wrapping_add(1) }
    }

    pub fn value(self) -> (v: u64)
        ensures
            v == self.value,
    {
        self.value
    }
}

/// Tracks the current network generation.
#[derive(Default)]
pub struct NetworkRuntime {
    pub generation: NetworkGeneration,
}

impl NetworkRuntime {
    pub fn new() -> (n: Self)
        ensures
            n.generation.value == 0,
    {
        NetworkRuntime { generation: NetworkGeneration::new() }
    }

    pub fn generation(&self) -> (g: NetworkGeneration)
        ensures
            g == self.generation,
    {
        self.generation
    }

    /// Advance the generation on a network change; stale candidates and
    /// sockets are discarded by their owners.
    pub fn on_network_change(&mut self)
        ensures
            final(self).generation.value == next_generation(old(self).generation.value),
    {
        self.generation = self.generation.next();
    }
}

} // verus!
