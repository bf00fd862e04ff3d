//! The background LAN sync engine: the identity a discovered peer is
//! scheduled under, the trigger routing per peer, the converged cycle driven
//! per allowed peer, and the status shown to the user. Browsing, the
//! candidate registry, threads and timers belong to the platform shell,
//! which hands the engine the candidates of each pass.

use vstd::prelude::*;
use crate::discovery::{Candidate, Endpoint, hex, hex_of};
use crate::ids::DeviceId;
use crate::orchestrator::{OrchestratorState, SyncOrchestrator, SyncPhase};
use crate::ranges::{SeqRange, clip_seq, sorted_ranges};
use crate::scheduler::{Scheduler, SchedulerIntent, SchedulerState, decide};
use crate::triggers::{TriggerDecision, TriggerSource, route, route_decision};
use crate::text::{decimal_digits, decimal_of};

verus! {

broadcast use vstd::seq_lib::group_to_multiset_ensures;

/// Background sync pass interval, in seconds.
pub const PERIODIC_INTERVAL_SECS: u64 = 30;

/// Coarse sync state surfaced to the UI status indicator.
#[derive(Clone, Copy, Debug, PartialEq, Eq, Structural, Hash)]
pub enum SyncState {
    Offline,
    Syncing,
    Connected,
}

/// A discovered (unauthenticated) LAN peer.
#[derive(Clone, Debug, PartialEq, Eq)]
pub struct SyncPeer {
    pub instance: String,
    pub hint: String,
    pub endpoint: String,
}

/// Snapshot of the sync engine.
#[derive(Clone, Debug, PartialEq, Eq)]
pub struct SyncStatus {
    pub state: SyncState,
    pub generation: u64,
    pub session_count: usize,
    pub peers: Vec<SyncPeer>,
}

/// The identity a discovery hint stands for until authentication yields
/// the real one: the 16 hint bytes followed by 16 zero bytes.
pub fn hint_to_device_id(hint: &[u8; 16]) -> (d: DeviceId)
    ensures
        d.bytes@ == hint@ + Seq::new(16, |_i: int| 0u8),
{
    let mut bytes = [0u8; 32];
    let mut i: usize = 0;
    while i < 16
        invariant
            i <= 16,
            bytes@.len() == 32,
            forall|j: int| 0 <= j < i ==> bytes@[j] == hint@[j],
            forall|j: int| 16 <= j < 32 ==> bytes@[j] == 0u8,
        decreases 16 - i,
    {
        bytes[i] = hint[i];
        i = i + 1;
    }
    assert(bytes@ =~= hint@ + Seq::new(16, |_i: int| 0u8));
    DeviceId::from_bytes(bytes)
}

/// The status rule: offline when stopped or nothing is discovered; syncing
/// while a cycle is mid-way; connected otherwise.
pub open spec fn state_of(stopped: bool, nothing_discovered: bool, phase: SyncPhase) -> SyncState {
    if stopped || nothing_discovered {
        SyncState::Offline
    } else if phase == SyncPhase::Idle || phase == SyncPhase::Complete || phase == SyncPhase::Backoff
        || phase == SyncPhase::Failed {
        SyncState::Connected
    } else {
        SyncState::Syncing
    }
}

/// The state shown to the user is offline exactly when the engine is
/// stopped or has discovered nothing. Otherwise it is connected when no
/// cycle is under way (idle, complete, backing off or failed) and syncing
/// in every phase of a cycle, from discovering to awaiting the final
/// acknowledgement.
pub proof fn lemma_status_state_by_phase(stopped: bool, nothing_discovered: bool, phase: SyncPhase)
    ensures
        state_of(stopped, nothing_discovered, phase) == SyncState::Offline <==> stopped || nothing_discovered,
        !stopped && !nothing_discovered ==> (state_of(stopped, nothing_discovered, phase)
            == SyncState::Connected <==> (phase is Idle || phase is Complete || phase is Backoff
            || phase is Failed)),
        !stopped && !nothing_discovered ==> (state_of(stopped, nothing_discovered, phase)
            == SyncState::Syncing <==> (phase is Discovering || phase is Dialing || phase is Handshaking
            || phase is Negotiating || phase is ExchangingSummaries || phase is RequestingRanges
            || phase is Transferring || phase is Applying || phase is AwaitingAck)),
{
}

/// The coarse state shown to the user.
pub fn status_state(stopped: bool, nothing_discovered: bool, phase: SyncPhase) -> (s: SyncState)
    ensures
        s == state_of(stopped, nothing_discovered, phase),
{
    if stopped || nothing_discovered {
        return SyncState::Offline;
    }
    match phase {
        SyncPhase::Idle | SyncPhase::Complete | SyncPhase::Backoff | SyncPhase::Failed => {
            SyncState::Connected
        },
        _ => SyncState::Syncing,
    }
}

/// `ip:port`, the port in decimal.
pub open spec fn endpoint_text(ip: Seq<char>, port: u16) -> Seq<char> {
    ip + seq![':'] + decimal_of(port as nat)
}

/// The text of an endpoint, `ip:port`.
pub fn endpoint_label(e: &Endpoint) -> (s: String)
    ensures
        s@ == endpoint_text(e.ip@, e.port),
{
    let mut v = crate::text::chars_of(e.ip.as_str());
    v.push(':');
    let digits = decimal_digits(e.port as u64);
    let mut i: usize = 0;
    let ghost start = v@;
    while i < digits.len()
        invariant
            i <= digits@.len(),
            v@ == start + digits@.take(i as int),
        decreases digits@.len() - i,
    {
        v.push(digits[i]);
        assert(v@ =~= start + digits@.take(i + 1));
        i = i + 1;
    }
    assert(digits@.take(digits@.len() as int) =~= digits@);
    assert(v@ =~= endpoint_text(e.ip@, e.port));
    crate::text::string_from_chars(&v)
}

/// `p` shows candidate `c`: its instance, its hint in hex, and its first
/// endpoint (empty text when it has none).
pub open spec fn shows(c: Candidate, p: SyncPeer) -> bool {
    &&& p.instance@ == c.opaque_service_instance@
    &&& p.hint@ == hex_of(c.hint@)
    &&& p.endpoint@ == if c.endpoints@.len() > 0 {
        endpoint_text(c.endpoints@[0].ip@, c.endpoints@[0].port)
    } else {
        Seq::<char>::empty()
    }
}

/// The peers shown in the status, one per candidate, in order.
pub fn peer_snapshot(candidates: &Vec<Candidate>) -> (peers: Vec<SyncPeer>)
    ensures
        peers@.len() == candidates@.len(),
        forall|i: int| 0 <= i < candidates@.len() ==> shows(candidates@[i], #[trigger] peers@[i]),
{
    let mut peers: Vec<SyncPeer> = Vec::new();
    let mut i: usize = 0;
    while i < candidates.len()
        invariant
            i <= candidates@.len(),
            peers@.len() == i,
            forall|j: int| 0 <= j < i ==> shows(candidates@[j], #[trigger] peers@[j]),
        decreases candidates@.len() - i,
    {
        let c = &candidates[i];
        let endpoint = if c.endpoints.len() > 0 {
            endpoint_label(&c.endpoints[0])
        } else {
            String::new()
        };
        peers.push(SyncPeer {
            instance: c.opaque_service_instance.clone(),
            hint: hex(c.hint.as_slice()),
            endpoint,
        });
        i = i + 1;
    }
    peers
}

/// Drive the orchestrator through one cycle with `peer` up to the transport
/// boundary: begin, dial the candidate's first endpoint (if any), complete
/// the handshake and negotiation, and take the peer's `summary` with the
/// ranges this replica lacks (`missing`). With nothing missing beyond the
/// acknowledged sequence, the cycle ends `Complete`.
pub fn converge_cycle<S>(
    orch: &mut SyncOrchestrator<S>,
    peer: DeviceId,
    candidate: &Candidate,
    summary: S,
    missing: Vec<SeqRange>,
)
    ensures
        final(orch)@.peer == Some(peer),
        final(orch)@.remote_summary == Some(summary),
        final(orch)@.highest_ack == old(orch)@.highest_ack,
        final(orch)@.local_summary == old(orch)@.local_summary,
        final(orch)@.pending.to_multiset() == clip_seq(missing@, old(orch)@.highest_ack).to_multiset(),
        sorted_ranges(final(orch)@.pending),
        clip_seq(missing@, old(orch)@.highest_ack).len() == 0 ==> final(orch)@.phase == SyncPhase::Complete,
        clip_seq(missing@, old(orch)@.highest_ack).len() > 0 ==> final(orch)@.phase == SyncPhase::ExchangingSummaries,
{
    orch.begin(peer);
    if candidate.endpoints.len() > 0 {
        orch.on_candidate(candidate.endpoints[0].ip.as_str(), candidate.endpoints[0].port);
    }
    orch.on_handshake();
    orch.on_negotiated();
    let ghost ack = orch@.highest_ack;
    orch.on_summary(summary, missing);
    proof {
        let c = clip_seq(missing@, ack);
        let p = orch@.pending;
        assert(p.len() == p.to_multiset().len());
        assert(c.len() == c.to_multiset().len());
    }
}

/// The identity bytes a discovery hint stands for.
pub open spec fn hint_key(hint: [u8; 16]) -> Seq<u8> {
    hint@ + Seq::new(16, |_i: int| 0u8)
}

/// Whether a trigger from `source` starts a cycle with candidate `c`.
pub open spec fn triggers_for(sched: SchedulerState, source: TriggerSource, c: Candidate) -> bool {
    route(
        decide(
            sched.intent,
            sched.low_space,
            sched.revoked.contains(hint_key(c.hint)),
            sched.incompatible.contains(hint_key(c.hint)),
        ),
        source,
    ) == TriggerDecision::Trigger
}

/// How many of `cs` a trigger from `source` starts a cycle with.
pub open spec fn triggered_count(sched: SchedulerState, source: TriggerSource, cs: Seq<Candidate>) -> nat
    decreases cs.len(),
{
    if cs.len() == 0 {
        0
    } else {
        triggered_count(sched, source, cs.drop_last()) + if triggers_for(sched, source, cs.last()) {
            1nat
        } else {
            0nat
        }
    }
}

/// A session count after `n` more sessions (the count wraps after
/// `usize::MAX`).
pub open spec fn sessions_after(count: usize, n: nat) -> usize
    decreases n,
{
    if n == 0 {
        count
    } else {
        let prev = sessions_after(count, (n - 1) as nat);
        if prev == usize::MAX {
            0
        } else {
            (prev + 1) as usize
        }
    }
}

/// A trigger starts at most one cycle per candidate: none when it starts
/// a cycle with no candidate, one for each when it starts one with every
/// candidate.
pub proof fn lemma_triggered_count_bounds(sched: SchedulerState, source: TriggerSource, cs: Seq<Candidate>)
    ensures
        triggered_count(sched, source, cs) <= cs.len(),
        (forall|i: int| 0 <= i < cs.len() ==> triggers_for(sched, source, #[trigger] cs[i])) ==> triggered_count(
            sched,
            source,
            cs,
        ) == cs.len(),
        (forall|i: int| 0 <= i < cs.len() ==> !triggers_for(sched, source, #[trigger] cs[i])) ==> triggered_count(
            sched,
            source,
            cs,
        ) == 0,
    decreases cs.len(),
{
    if cs.len() > 0 {
        let rest = cs.drop_last();
        lemma_triggered_count_bounds(sched, source, rest);
        assert(cs[cs.len() - 1] == cs.last());
        if forall|i: int| 0 <= i < cs.len() ==> triggers_for(sched, source, #[trigger] cs[i]) {
            assert forall|i: int| 0 <= i < rest.len() implies triggers_for(sched, source, #[trigger] rest[i]) by {
                assert(rest[i] == cs[i]);
            }
        }
        if forall|i: int| 0 <= i < cs.len() ==> !triggers_for(sched, source, #[trigger] cs[i]) {
            assert forall|i: int| 0 <= i < rest.len() implies !triggers_for(sched, source, #[trigger] rest[i]) by {
                assert(rest[i] == cs[i]);
            }
        }
    }
}

/// `n` more sessions add `n` to the count, modulo `usize::MAX + 1`: the
/// count wraps after `usize::MAX`.
pub proof fn lemma_sessions_add_up(count: usize, n: nat)
    ensures
        sessions_after(count, n) as int == (count + n) % (usize::MAX as int + 1),
    decreases n,
{
    let m = usize::MAX as int + 1;
    if n == 0 {
        vstd::arithmetic::div_mod::lemma_small_mod(count as nat, m as nat);
    } else {
        lemma_sessions_add_up(count, (n - 1) as nat);
        let p = sessions_after(count, (n - 1) as nat) as int;
        vstd::arithmetic::div_mod::lemma_add_mod_noop(count + n - 1, 1, m);
        vstd::arithmetic::div_mod::lemma_small_mod(1, m as nat);
        if p == usize::MAX {
            vstd::arithmetic::div_mod::lemma_mod_self_0(m);
        } else {
            vstd::arithmetic::div_mod::lemma_small_mod((p + 1) as nat, m as nat);
        }
    }
}

/// The background sync engine of one process: which peers each trigger
/// syncs with, the cycle driven with each, and the status snapshot.
pub struct SyncService<S> {
    scheduler: Scheduler,
    orchestrator: SyncOrchestrator<S>,
    status: SyncStatus,
    sessions: usize,
    stopped: bool,
}

impl<S: Default> SyncService<S> {
    pub closed spec fn spec_scheduler(&self) -> SchedulerState {
        self.scheduler@
    }

    pub closed spec fn spec_orchestrator(&self) -> OrchestratorState<S> {
        self.orchestrator@
    }

    pub closed spec fn spec_status(&self) -> SyncStatus {
        self.status
    }

    pub closed spec fn spec_sessions(&self) -> usize {
        self.sessions
    }

    pub closed spec fn spec_stopped(&self) -> bool {
        self.stopped
    }

    /// An engine that has run no pass yet: offline, no peers.
    pub fn new(intent: SchedulerIntent) -> (s: Self)
        ensures
            s.spec_scheduler().intent == intent,
            !s.spec_scheduler().low_space,
            s.spec_scheduler().incompatible == Set::<Seq<u8>>::empty(),
            s.spec_scheduler().revoked == Set::<Seq<u8>>::empty(),
            s.spec_orchestrator().phase == SyncPhase::Idle,
            s.spec_status().state == SyncState::Offline,
            s.spec_status().generation == 0,
            s.spec_status().session_count == 0,
            s.spec_status().peers@.len() == 0,
            s.spec_sessions() == 0,
            !s.spec_stopped(),
    {
        SyncService {
            scheduler: Scheduler::new(intent),
            orchestrator: SyncOrchestrator::default(),
            status: SyncStatus { state: SyncState::Offline, generation: 0, session_count: 0, peers: Vec::new() },
            sessions: 0,
            stopped: false,
        }
    }

    pub fn set_intent(&mut self, intent: SchedulerIntent)
        ensures
            final(self).spec_scheduler() == (SchedulerState { intent, ..old(self).spec_scheduler() }),
            final(self).spec_orchestrator() == old(self).spec_orchestrator(),
            final(self).spec_status() == old(self).spec_status(),
            final(self).spec_sessions() == old(self).spec_sessions(),
            final(self).spec_stopped() == old(self).spec_stopped(),
    {
        self.scheduler.set_intent(intent);
    }

    /// The last status snapshot.
    pub fn status(&self) -> (r: &SyncStatus)
        ensures
            *r == self.spec_status(),
    {
        &self.status
    }

    pub fn is_stopped(&self) -> (r: bool)
        ensures
            r == self.spec_stopped(),
    {
        self.stopped
    }

    /// A pass for a trigger from `source` over the `candidates` discovered
    /// under network `generation`: every candidate the scheduler lets the
    /// trigger through is synced (one converged cycle, one session), then
    /// the status is refreshed. A stopped engine ignores triggers.
    pub fn on_trigger(&mut self, source: TriggerSource, candidates: &Vec<Candidate>, generation: u64)
        ensures
            old(self).spec_stopped() ==> final(self).spec_status() == old(self).spec_status()
                && final(self).spec_sessions() == old(self).spec_sessions()
                && final(self).spec_orchestrator() == old(self).spec_orchestrator(),
            final(self).spec_scheduler() == old(self).spec_scheduler(),
            final(self).spec_stopped() == old(self).spec_stopped(),
            !old(self).spec_stopped() ==> {
                let n = triggered_count(old(self).spec_scheduler(), source, candidates@);
                &&& final(self).spec_sessions() == sessions_after(old(self).spec_sessions(), n)
                &&& final(self).spec_orchestrator().phase == if n > 0 {
                    SyncPhase::Complete
                } else {
                    old(self).spec_orchestrator().phase
                }
                &&& final(self).spec_status().state == state_of(
                    false,
                    candidates@.len() == 0,
                    final(self).spec_orchestrator().phase,
                )
                &&& final(self).spec_status().generation == generation
                &&& final(self).spec_status().session_count == final(self).spec_sessions()
                &&& final(self).spec_status().peers@.len() == candidates@.len()
                &&& forall|i: int|
                    0 <= i < candidates@.len() ==> shows(
                        candidates@[i],
                        #[trigger] final(self).spec_status().peers@[i],
                    )
            },
    {
        if self.stopped {
            return;
        }
        let ghost sched = self.scheduler@;
        let ghost old_phase = self.orchestrator@.phase;
        let ghost old_sessions = self.sessions;
        let mut i: usize = 0;
        while i < candidates.len()
            invariant
                i <= candidates@.len(),
                self.scheduler@ == sched,
                !self.stopped,
                self.status == old(self).status,
                self.sessions == sessions_after(old_sessions, triggered_count(sched, source, candidates@.take(i as int))),
                self.orchestrator@.phase == if triggered_count(sched, source, candidates@.take(i as int)) > 0 {
                    SyncPhase::Complete
                } else {
                    old_phase
                },
            decreases candidates@.len() - i,
        {
            let c = &candidates[i];
            let peer = hint_to_device_id(&c.hint);
            let d = route_decision(self.scheduler.decision(&peer), source);
            proof {
                assert(candidates@.take(i + 1).drop_last() =~= candidates@.take(i as int));
                assert(candidates@.take(i + 1).last() == candidates@[i as int]);
            }
            if d == TriggerDecision::Trigger {
                let missing: Vec<SeqRange> = Vec::new();
                proof {
                    assert(clip_seq(missing@, self.orchestrator@.highest_ack) =~= Seq::<SeqRange>::empty());
                }
                converge_cycle(&mut self.orchestrator, peer, c, S::default(), missing);
                self.sessions = self.sessions.wrapping_add(1);
            }
            i = i + 1;
        }
        proof {
            assert(candidates@.take(candidates@.len() as int) =~= candidates@);
        }
        let state = status_state(false, candidates.len() == 0, self.orchestrator.phase());
        let peers = peer_snapshot(candidates);
        self.status = SyncStatus { state, generation, session_count: self.sessions, peers };
    }

    /// Stop the engine: it turns offline with no peers and ignores later
    /// triggers.
    pub fn stop(&mut self, generation: u64)
        ensures
            final(self).spec_stopped(),
            final(self).spec_status().state == SyncState::Offline,
            final(self).spec_status().generation == generation,
            final(self).spec_status().session_count == old(self).spec_sessions(),
            final(self).spec_status().peers@.len() == 0,
            final(self).spec_sessions() == old(self).spec_sessions(),
            final(self).spec_scheduler() == old(self).spec_scheduler(),
            final(self).spec_orchestrator() == old(self).spec_orchestrator(),
    {
        self.stopped = true;
        self.status = SyncStatus {
            state: SyncState::Offline,
            generation,
            session_count: self.sessions,
            peers: Vec::new(),
        };
    }
}

} // verus!
