//! Scheduler: platform-independent intents and per-peer sync decisions.

use vstd::prelude::*;
use crate::devmap::DeviceMap;
use crate::ids::DeviceId;

verus! {

/// The platform's scheduling intent, decoupled from platform execution.
#[derive(Clone, Copy, Debug, Default, PartialEq, Eq, Structural, Hash)]
pub enum SchedulerIntent {
    #[default]
    ForegroundActive,
    WindowsTray,
    AndroidFgs,
    OsDeferred,
    ProcessStopping,
}

/// The decision for whether and how to sync a given peer.
#[derive(Clone, Copy, Debug, PartialEq, Eq, Structural, Hash)]
pub enum SyncDecision {
    Sync,
    Pause,
    Block,
    Stop,
    Defer,
}

/// The decision rule: a stopping process defers everything; then a revoked
/// peer is stopped, an incompatible one blocked; low space pauses; an
/// OS-deferred intent defers; anything else syncs.
pub open spec fn decide(
    intent: SchedulerIntent,
    low_space: bool,
    revoked: bool,
    incompatible: bool,
) -> SyncDecision {
    if intent == SchedulerIntent::ProcessStopping {
        SyncDecision::Defer
    } else if revoked {
        SyncDecision::Stop
    } else if incompatible {
        SyncDecision::Block
    } else if low_space {
        SyncDecision::Pause
    } else if intent == SchedulerIntent::OsDeferred {
        SyncDecision::Defer
    } else {
        SyncDecision::Sync
    }
}

/// A stopping process defers every peer; otherwise a revoked peer is
/// stopped, an incompatible one blocked, low space pauses, and only an
/// OS-deferred intent defers a peer that none of these hold back. A peer
/// is synced exactly when nothing holds it back and the intent lets
/// syncing run.
pub proof fn lemma_decision_precedence(intent: SchedulerIntent, low_space: bool, revoked: bool, incompatible: bool)
    ensures
        intent == SchedulerIntent::ProcessStopping ==> decide(intent, low_space, revoked, incompatible)
            == SyncDecision::Defer,
        decide(intent, low_space, revoked, incompatible) == SyncDecision::Stop <==> intent
            != SchedulerIntent::ProcessStopping && revoked,
        decide(intent, low_space, revoked, incompatible) == SyncDecision::Block <==> intent
            != SchedulerIntent::ProcessStopping && !revoked && incompatible,
        decide(intent, low_space, revoked, incompatible) == SyncDecision::Pause <==> intent
            != SchedulerIntent::ProcessStopping && !revoked && !incompatible && low_space,
        decide(intent, low_space, revoked, incompatible) == SyncDecision::Sync <==> intent
            != SchedulerIntent::ProcessStopping && intent != SchedulerIntent::OsDeferred && !revoked
            && !incompatible && !low_space,
{
}

/// What a scheduler holds, as mathematical values.
pub struct SchedulerState {
    pub intent: SchedulerIntent,
    pub low_space: bool,
    pub incompatible: Set<Seq<u8>>,
    pub revoked: Set<Seq<u8>>,
}

/// Maps platform intent plus per-peer trust and state to a decision.
pub struct Scheduler {
    intent: SchedulerIntent,
    low_space: bool,
    incompatible: DeviceMap<()>,
    revoked: DeviceMap<()>,
}

impl View for Scheduler {
    type V = SchedulerState;

    closed spec fn view(&self) -> SchedulerState {
        SchedulerState {
            intent: self.intent,
            low_space: self.low_space,
            incompatible: self.incompatible.map().dom(),
            revoked: self.revoked.map().dom(),
        }
    }
}

impl Scheduler {
    pub fn new(intent: SchedulerIntent) -> (s: Self)
        ensures
            s@.intent == intent,
            !s@.low_space,
            s@.incompatible == Set::<Seq<u8>>::empty(),
            s@.revoked == Set::<Seq<u8>>::empty(),
    {
        Scheduler {
            intent,
            low_space: false,
            incompatible: DeviceMap::new(),
            revoked: DeviceMap::new(),
        }
    }

    pub fn set_intent(&mut self, intent: SchedulerIntent)
        ensures
            final(self)@ == (SchedulerState { intent, ..old(self)@ }),
    {
        self.intent = intent;
    }

    pub fn pause_low_space(&mut self)
        ensures
            final(self)@ == (SchedulerState { low_space: true, ..old(self)@ }),
    {
        self.low_space = true;
    }

    pub fn resume_from_low_space(&mut self)
        ensures
            final(self)@ == (SchedulerState { low_space: false, ..old(self)@ }),
    {
        self.low_space = false;
    }

    pub fn block_incompatible(&mut self, peer: DeviceId)
        ensures
            final(self)@ == (SchedulerState {
                incompatible: old(self)@.incompatible.insert(peer.bytes@),
                ..old(self)@
            }),
    {
        let mut m = DeviceMap::new();
        std::mem::swap(&mut m, &mut self.incompatible);
        m.insert(peer, ());
        self.incompatible = m;
        assert(self@.incompatible =~= old(self)@.incompatible.insert(peer.bytes@));
    }

    pub fn stop_revoked(&mut self, peer: DeviceId)
        ensures
            final(self)@ == (SchedulerState {
                revoked: old(self)@.revoked.insert(peer.bytes@),
                ..old(self)@
            }),
    {
        let mut m = DeviceMap::new();
        std::mem::swap(&mut m, &mut self.revoked);
        m.insert(peer, ());
        self.revoked = m;
        assert(self@.revoked =~= old(self)@.revoked.insert(peer.bytes@));
    }

    pub fn decision(&self, peer: &DeviceId) -> (d: SyncDecision)
        ensures
            d == decide(
                self@.intent,
                self@.low_space,
                self@.revoked.contains(peer.bytes@),
                self@.incompatible.contains(peer.bytes@),
            ),
    {
        if self.intent == SchedulerIntent::ProcessStopping {
            return SyncDecision::Defer;
        }
        if self.revoked.contains_key(peer) {
            return SyncDecision::Stop;
        }
        if self.incompatible.contains_key(peer) {
            return SyncDecision::Block;
        }
        if self.low_space {
            return SyncDecision::Pause;
        }
        match self.intent {
            SchedulerIntent::OsDeferred => SyncDecision::Defer,
            _ => SyncDecision::Sync,
        }
    }
}

} // verus!
