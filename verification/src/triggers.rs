//! Sync trigger sources: what causes a sync cycle to start, and how each
//! source is routed through the scheduler and the network generation.

use vstd::prelude::*;
use crate::ids::DeviceId;
use crate::network_runtime::{NetworkGeneration, NetworkRuntime, next_generation};
use crate::scheduler::{Scheduler, SchedulerIntent, SyncDecision, decide};

verus! {

/// What caused a sync trigger.
#[derive(Clone, Copy, Debug, PartialEq, Eq, Structural, Hash)]
pub enum TriggerSource {
    /// A network change (new interface, IP change, rejoin Wi-Fi).
    NetworkChange,
    /// A manual user request.
    Manual,
    /// Application startup.
    Startup,
    /// A periodic timer.
    Periodic,
}

/// The outcome of evaluating a trigger against the scheduler.
#[derive(Clone, Copy, Debug, PartialEq, Eq, Structural, Hash)]
pub enum TriggerDecision {
    /// Trigger a sync cycle now.
    Trigger,
    /// Defer (background scheduling).
    Defer,
    /// Ignore entirely (blocked/revoked).
    Ignore,
}

/// How a trigger source is routed given the scheduler's decision: network
/// changes and manual requests override a `Defer`, but never a `Block` or a
/// `Stop`; a `Pause` defers.
pub open spec fn route(decision: SyncDecision, source: TriggerSource) -> TriggerDecision {
    match decision {
        SyncDecision::Sync => TriggerDecision::Trigger,
        SyncDecision::Pause => TriggerDecision::Defer,
        SyncDecision::Block | SyncDecision::Stop => TriggerDecision::Ignore,
        SyncDecision::Defer => match source {
            TriggerSource::NetworkChange | TriggerSource::Manual => TriggerDecision::Trigger,
            TriggerSource::Startup | TriggerSource::Periodic => TriggerDecision::Defer,
        },
    }
}

/// A peer to sync is triggered by every source, a paused one deferred, a
/// blocked or stopped one ignored; a deferred peer is triggered only by a
/// network change or a manual request, and deferred for startup and
/// periodic passes.
pub proof fn lemma_routing(decision: SyncDecision, source: TriggerSource)
    ensures
        decision == SyncDecision::Sync ==> route(decision, source) == TriggerDecision::Trigger,
        decision == SyncDecision::Pause ==> route(decision, source) == TriggerDecision::Defer,
        (decision == SyncDecision::Block || decision == SyncDecision::Stop) ==> route(decision, source)
            == TriggerDecision::Ignore,
        decision == SyncDecision::Defer ==> (route(decision, source) == TriggerDecision::Trigger <==> (source
            == TriggerSource::NetworkChange || source == TriggerSource::Manual)),
        decision == SyncDecision::Defer ==> route(decision, source) != TriggerDecision::Ignore,
{
}

/// Route a trigger source through a scheduler decision.
pub fn route_decision(decision: SyncDecision, source: TriggerSource) -> (t: TriggerDecision)
    ensures
        t == route(decision, source),
{
    match decision {
        SyncDecision::Sync => TriggerDecision::Trigger,
        SyncDecision::Pause => TriggerDecision::Defer,
        SyncDecision::Block | SyncDecision::Stop => TriggerDecision::Ignore,
        SyncDecision::Defer => match source {
            TriggerSource::NetworkChange | TriggerSource::Manual => TriggerDecision::Trigger,
            TriggerSource::Startup | TriggerSource::Periodic => TriggerDecision::Defer,
        },
    }
}

/// Routes sync triggers through the scheduler and tracks network generation.
pub struct SyncTriggers {
    scheduler: Scheduler,
    network: NetworkRuntime,
}

impl SyncTriggers {
    pub closed spec fn spec_scheduler(&self) -> Scheduler {
        self.scheduler
    }

    pub closed spec fn spec_generation(&self) -> u64 {
        self.network.generation.value
    }

    pub fn new(intent: SchedulerIntent) -> (t: Self)
        ensures
            t.spec_scheduler()@.intent == intent,
            !t.spec_scheduler()@.low_space,
            t.spec_scheduler()@.incompatible == Set::<Seq<u8>>::empty(),
            t.spec_scheduler()@.revoked == Set::<Seq<u8>>::empty(),
            t.spec_generation() == 0,
    {
        SyncTriggers { scheduler: Scheduler::new(intent), network: NetworkRuntime::new() }
    }

    pub fn scheduler(&self) -> (s: &Scheduler)
        ensures
            *s == self.spec_scheduler(),
    {
        &self.scheduler
    }

    pub fn scheduler_mut(&mut self) -> (s: &mut Scheduler)
        ensures
            *s == old(self).spec_scheduler(),
            final(self).spec_scheduler() == *final(s),
            final(self).spec_generation() == old(self).spec_generation(),
    {
        &mut self.scheduler
    }

    /// The current network generation.
    pub fn generation(&self) -> (g: NetworkGeneration)
        ensures
            g.value == self.spec_generation(),
    {
        self.network.generation()
    }

    /// Advance the generation on a network change.
    pub fn on_network_change(&mut self)
        ensures
            final(self).spec_generation() == next_generation(old(self).spec_generation()),
            final(self).spec_scheduler() == old(self).spec_scheduler(),
    {
        self.network.on_network_change();
    }

    /// Evaluate a trigger source for a peer.
    pub fn evaluate(&self, source: TriggerSource, peer: &DeviceId) -> (t: TriggerDecision)
        ensures
            t == route(
                decide(
                    self.spec_scheduler()@.intent,
                    self.spec_scheduler()@.low_space,
                    self.spec_scheduler()@.revoked.contains(peer.bytes@),
                    self.spec_scheduler()@.incompatible.contains(peer.bytes@),
                ),
                source,
            ),
    {
        route_decision(self.scheduler.decision(peer), source)
    }
}

/// No trigger source ever starts a cycle with a revoked peer or an
/// incompatible one.
pub proof fn lemma_untrusted_never_triggered(
    intent: SchedulerIntent,
    low_space: bool,
    revoked: bool,
    incompatible: bool,
    source: TriggerSource,
)
    requires
        revoked || incompatible,
        intent != SchedulerIntent::ProcessStopping,
    ensures
        route(decide(intent, low_space, revoked, incompatible), source) == TriggerDecision::Ignore,
{
}

/// A stopping or OS-deferred process never triggers a background source
/// (startup or periodic).
pub proof fn lemma_background_never_triggered_when_deferred(
    intent: SchedulerIntent,
    low_space: bool,
    revoked: bool,
    incompatible: bool,
    source: TriggerSource,
)
    requires
        intent == SchedulerIntent::ProcessStopping || intent == SchedulerIntent::OsDeferred,
        source == TriggerSource::Startup || source == TriggerSource::Periodic,
    ensures
        route(decide(intent, low_space, revoked, incompatible), source) != TriggerDecision::Trigger,
{
}

/// A network change or a manual request triggers exactly when the peer is
/// neither revoked nor incompatible and space is not low (under any intent
/// but a stopping process, where it is deferred and overridden the same way).
pub proof fn lemma_foreground_sources_override_defer(
    intent: SchedulerIntent,
    low_space: bool,
    revoked: bool,
    incompatible: bool,
    source: TriggerSource,
)
    requires
        source == TriggerSource::NetworkChange || source == TriggerSource::Manual,
    ensures
        (route(decide(intent, low_space, revoked, incompatible), source)
            == TriggerDecision::Trigger) <==> (intent == SchedulerIntent::ProcessStopping || (
        !revoked && !incompatible && !low_space)),
{
}

impl Default for SyncTriggers {
    /// Triggers for a process in the foreground.
    fn default() -> (t: Self)
        ensures
            t.spec_scheduler()@.intent == SchedulerIntent::ForegroundActive,
            !t.spec_scheduler()@.low_space,
            t.spec_scheduler()@.incompatible == Set::<Seq<u8>>::empty(),
            t.spec_scheduler()@.revoked == Set::<Seq<u8>>::empty(),
            t.spec_generation() == 0,
    {
        SyncTriggers::new(SchedulerIntent::ForegroundActive)
    }
}

} // verus!
