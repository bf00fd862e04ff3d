//! Subscription event types.

use vstd::prelude::*;

verus! {

#[derive(Clone, Copy, Debug, PartialEq, Eq, Structural, Hash)]
pub enum SubscriptionKind {
    Projection,
    Runtime,
    Pairing,
}

#[derive(Clone, Copy, Debug, PartialEq, Eq, Structural)]
pub struct Event {
    pub revision: u64,
    pub kind: EventKind,
}

#[derive(Clone, Copy, Debug, PartialEq, Eq, Structural, Hash)]
pub enum EventKind {
    ProjectionChanged,
    RuntimeChanged,
    Pairing,
}

} // verus!
