//! Sync orchestration: one sync cycle against one peer as a deterministic
//! state machine. Each event method returns the action the transport must
//! perform next and advances the phase; nothing here touches the network.

use vstd::prelude::*;
use crate::ids::DeviceId;
use crate::ranges::{
    SeqRange, all_nonempty, clip_ranges, clip_seq, covers, cut_one, cut_seq, lemma_clip_shape,
    lemma_cut_covers, sort_ranges, sorted_ranges,
};

verus! {

broadcast use vstd::seq_lib::group_to_multiset_ensures;

/// A concrete step the transport must perform to advance the loop.
#[derive(Clone, Debug, PartialEq, Eq)]
pub enum SyncAction {
    /// Begin LAN discovery for candidates.
    Discover,
    /// Dial a candidate endpoint.
    Dial { ip: String, port: u16 },
    /// Send a hello (version + capabilities) to the peer.
    SendHello,
    /// Send our version summary.
    SendSummary,
    /// Request operation ranges the peer has that we lack.
    SendRangeRequest { ranges: Vec<SeqRange> },
    /// Send the next operation chunk.
    SendChunk { sequence: u64 },
    /// Apply a received chunk to local storage.
    ApplyChunk { operations: usize },
    /// Send a durable acknowledgement for a sequence.
    SendAck { sequence: u64 },
    /// Wait for the peer's next inbound message.
    Await,
    /// This sync cycle is complete.
    Complete,
}

/// Fine-grained phases of one sync cycle.
#[derive(Clone, Copy, Debug, Default, PartialEq, Eq, Structural, Hash)]
pub enum SyncPhase {
    #[default]
    Idle,
    Discovering,
    Dialing,
    Handshaking,
    Negotiating,
    ExchangingSummaries,
    RequestingRanges,
    Transferring,
    Applying,
    AwaitingAck,
    Complete,
    Backoff,
    Failed,
}

/// The result of feeding an event to the orchestrator.
#[derive(Clone, Debug, PartialEq, Eq)]
pub struct SyncStep {
    pub phase: SyncPhase,
    pub action: SyncAction,
}

/// What an orchestrator holds, as mathematical values.
pub struct OrchestratorState<S> {
    pub phase: SyncPhase,
    pub peer: Option<DeviceId>,
    pub local_summary: S,
    pub remote_summary: Option<S>,
    pub pending: Seq<SeqRange>,
    pub highest_ack: u64,
}

/// The larger of two sequence numbers.
pub open spec fn max_seq(a: u64, b: u64) -> u64 {
    if a >= b {
        a
    } else {
        b
    }
}

/// Drives one peer through a full sync cycle. `S` is the version summary
/// type exchanged with the peer; the orchestrator stores it and leaves the
/// comparison of summaries to its caller.
pub struct SyncOrchestrator<S> {
    phase: SyncPhase,
    peer: Option<DeviceId>,
    local_summary: S,
    remote_summary: Option<S>,
    /// Ranges still pending transfer from the peer, in order.
    pending_ranges: Vec<SeqRange>,
    /// Highest sequence the peer has durably acknowledged.
    highest_ack: u64,
}

impl<S> View for SyncOrchestrator<S> {
    type V = OrchestratorState<S>;

    closed spec fn view(&self) -> OrchestratorState<S> {
        OrchestratorState {
            phase: self.phase,
            peer: self.peer,
            local_summary: self.local_summary,
            remote_summary: self.remote_summary,
            pending: self.pending_ranges@,
            highest_ack: self.highest_ack,
        }
    }
}

impl<S> SyncOrchestrator<S> {
    #[verifier::type_invariant]
    spec fn inv(self) -> bool {
        all_nonempty(self.pending_ranges@)
    }

    pub fn new(local_summary: S) -> (o: Self)
        ensures
            o@.phase == SyncPhase::Idle,
            o@.peer is None,
            o@.local_summary == local_summary,
            o@.remote_summary is None,
            o@.pending == Seq::<SeqRange>::empty(),
            o@.highest_ack == 0,
    {
        SyncOrchestrator {
            phase: SyncPhase::Idle,
            peer: None,
            local_summary,
            remote_summary: None,
            pending_ranges: Vec::new(),
            highest_ack: 0,
        }
    }

    pub fn phase(&self) -> (p: SyncPhase)
        ensures
            p == self@.phase,
    {
        self.phase
    }

    pub fn peer(&self) -> (p: Option<DeviceId>)
        ensures
            p == self@.peer,
    {
        self.peer
    }

    /// Highest sequence the peer has durably acknowledged.
    pub fn highest_ack(&self) -> (a: u64)
        ensures
            a == self@.highest_ack,
    {
        self.highest_ack
    }

    /// Ranges still pending transfer from the peer; none of them is empty.
    pub fn pending_ranges(&self) -> (r: &[SeqRange])
        ensures
            r@ == self@.pending,
            all_nonempty(r@),
    {
        proof {
            use_type_invariant(self);
        }
        self.pending_ranges.as_slice()
    }

    /// Start a sync cycle against a peer by discovering how to reach it.
    pub fn begin(&mut self, peer: DeviceId) -> (step: SyncStep)
        ensures
            final(self)@ == (OrchestratorState {
                phase: SyncPhase::Discovering,
                peer: Some(peer),
                ..old(self)@
            }),
            step.phase == SyncPhase::Discovering,
            step.action == SyncAction::Discover,
    {
        proof {
            use_type_invariant(&*self);
        }
        self.peer = Some(peer);
        self.phase = SyncPhase::Discovering;
        SyncStep { phase: self.phase, action: SyncAction::Discover }
    }

    /// A candidate endpoint was discovered; dial it.
    pub fn on_candidate(&mut self, ip: &str, port: u16) -> (step: SyncStep)
        ensures
            final(self)@ == (OrchestratorState { phase: SyncPhase::Dialing, ..old(self)@ }),
            step.phase == SyncPhase::Dialing,
            (step.action matches SyncAction::Dial { ip: i, port: p } && i@ == ip@ && p == port),
    {
        proof {
            use_type_invariant(&*self);
        }
        self.phase = SyncPhase::Dialing;
        SyncStep { phase: self.phase, action: SyncAction::Dial { ip: ip.to_owned(), port } }
    }

    /// The Noise handshake completed; send a hello to negotiate.
    pub fn on_handshake(&mut self) -> (step: SyncStep)
        ensures
            final(self)@ == (OrchestratorState { phase: SyncPhase::Handshaking, ..old(self)@ }),
            step.phase == SyncPhase::Handshaking,
            step.action == SyncAction::SendHello,
    {
        proof {
            use_type_invariant(&*self);
        }
        self.phase = SyncPhase::Handshaking;
        SyncStep { phase: self.phase, action: SyncAction::SendHello }
    }

    /// Negotiation completed successfully; exchange summaries.
    pub fn on_negotiated(&mut self) -> (step: SyncStep)
        ensures
            final(self)@ == (OrchestratorState { phase: SyncPhase::Negotiating, ..old(self)@ }),
            step.phase == SyncPhase::Negotiating,
            step.action == SyncAction::SendSummary,
    {
        proof {
            use_type_invariant(&*self);
        }
        self.phase = SyncPhase::Negotiating;
        SyncStep { phase: self.phase, action: SyncAction::SendSummary }
    }

    /// The ranges this replica lacks, `missing`, each cut to start at the
    /// highest acknowledgement, emptied ones dropped, sorted.
    fn missing_ranges(&self, missing: &[SeqRange]) -> (out: Vec<SeqRange>)
        ensures
            sorted_ranges(out@),
            out@.to_multiset() == clip_seq(missing@, self@.highest_ack).to_multiset(),
            forall|k: int|
                0 <= k < out@.len() ==> (#[trigger] out@[k]).nonempty() && out@[k].start
                    >= self@.highest_ack,
    {
        let clipped = clip_ranges(missing, self.highest_ack);
        let sorted = sort_ranges(clipped);
        proof {
            lemma_clip_shape(missing@, self.highest_ack);
            let c = clip_seq(missing@, self.highest_ack);
            assert forall|k: int| 0 <= k < sorted@.len() implies (#[trigger] sorted@[k]).nonempty()
                && sorted@[k].start >= self.highest_ack by {
                assert(sorted@.to_multiset().count(sorted@[k]) > 0);
                assert(c.contains(sorted@[k]));
                let j = choose|j: int| 0 <= j < c.len() && c[j] == sorted@[k];
                assert(c[j].nonempty());
            }
        }
        sorted
    }

    /// The peer's version summary arrived, together with the ranges this
    /// replica lacks relative to it (`missing`, gathered over every origin).
    /// Those ranges, cut to start at the highest acknowledgement and sorted,
    /// become the pending ranges; they are requested, or the cycle completes
    /// when none is left.
    pub fn on_summary(&mut self, summary: S, missing: Vec<SeqRange>) -> (step: SyncStep)
        ensures
            sorted_ranges(final(self)@.pending),
            final(self)@.pending.to_multiset() == clip_seq(
                missing@,
                old(self)@.highest_ack,
            ).to_multiset(),
            forall|k: int|
                0 <= k < final(self)@.pending.len() ==> #[trigger] final(self)@.pending[k].start
                    >= old(self)@.highest_ack,
            final(self)@.remote_summary == Some(summary),
            final(self)@.peer == old(self)@.peer,
            final(self)@.local_summary == old(self)@.local_summary,
            final(self)@.highest_ack == old(self)@.highest_ack,
            final(self)@.pending.len() == 0 ==> final(self)@.phase == SyncPhase::Complete
                && step.action == SyncAction::Complete,
            final(self)@.pending.len() > 0 ==> final(self)@.phase == SyncPhase::ExchangingSummaries
                && (step.action matches SyncAction::SendRangeRequest { ranges } && ranges@
                == final(self)@.pending),
            step.phase == final(self)@.phase,
    {
        proof {
            use_type_invariant(&*self);
        }
        self.remote_summary = Some(summary);
        self.phase = SyncPhase::ExchangingSummaries;
        let sorted = self.missing_ranges(missing.as_slice());
        self.pending_ranges = sorted;
        if self.pending_ranges.len() == 0 {
            self.phase = SyncPhase::Complete;
            return SyncStep { phase: self.phase, action: SyncAction::Complete };
        }
        SyncStep {
            phase: self.phase,
            action: SyncAction::SendRangeRequest { ranges: self.pending_ranges.clone() },
        }
    }

    /// A chunk covering `[sequence, sequence + operations)` arrived and was
    /// applied. Whatever the chunk covers is removed from the pending ranges:
    /// ranges it does not meet stay as they are, ranges it partly covers are
    /// trimmed (or split in two). If ranges remain, transfer goes on;
    /// otherwise the peer's final acknowledgement is awaited.
    pub fn on_chunk(&mut self, sequence: u64, operations: usize) -> (step: SyncStep)
        requires
            sequence + operations <= u64::MAX,
        ensures
            final(self)@.pending == cut_seq(old(self)@.pending, sequence, (sequence + operations) as u64),
            final(self)@.peer == old(self)@.peer,
            final(self)@.local_summary == old(self)@.local_summary,
            final(self)@.remote_summary == old(self)@.remote_summary,
            final(self)@.highest_ack == old(self)@.highest_ack,
            final(self)@.pending.len() == 0 ==> final(self)@.phase == SyncPhase::AwaitingAck
                && step.action == SyncAction::Await,
            final(self)@.pending.len() > 0 ==> final(self)@.phase == SyncPhase::Applying
                && step.action == (SyncAction::ApplyChunk { operations }),
            step.phase == final(self)@.phase,
    {
        proof {
            use_type_invariant(&*self);
        }
        self.phase = SyncPhase::Applying;
        let end = sequence + operations as u64;
        let ghost old_pending = self.pending_ranges@;
        let mut remaining: Vec<SeqRange> = Vec::new();
        let mut i: usize = 0;
        while i < self.pending_ranges.len()
            invariant
                i <= old_pending.len(),
                self.pending_ranges@ == old_pending,
                all_nonempty(old_pending),
                remaining@ == cut_seq(old_pending.take(i as int), sequence, end),
            decreases old_pending.len() - i,
        {
            let r = self.pending_ranges[i];
            assert(r.nonempty());
            let ghost before = remaining@;
            if end <= sequence || r.end <= sequence || end <= r.start {
                // The chunk does not meet this range.
                remaining.push(r);
                assert(remaining@ =~= before + cut_one(r, sequence, end));
            } else {
                // Keep what lies below the chunk and what lies past it.
                if r.start < sequence {
                    remaining.push(SeqRange::new(r.start, sequence));
                }
                if end < r.end {
                    remaining.push(SeqRange::new(end, r.end));
                }
                assert(remaining@ =~= before + cut_one(r, sequence, end));
            }
            assert(old_pending.take(i + 1).drop_last() =~= old_pending.take(i as int));
            assert(old_pending.take(i + 1).last() == r);
            i = i + 1;
        }
        assert(old_pending.take(old_pending.len() as int) =~= old_pending);
        proof {
            lemma_cut_covers(old_pending, sequence, end, 0);
        }
        self.pending_ranges = remaining;
        if self.pending_ranges.len() == 0 {
            self.phase = SyncPhase::AwaitingAck;
            SyncStep { phase: self.phase, action: SyncAction::Await }
        } else {
            SyncStep { phase: self.phase, action: SyncAction::ApplyChunk { operations } }
        }
    }

    /// The peer durably acknowledged a sequence; remember it monotonically.
    pub fn on_ack(&mut self, sequence: u64) -> (step: SyncStep)
        ensures
            final(self)@ == (OrchestratorState {
                phase: SyncPhase::Complete,
                highest_ack: max_seq(old(self)@.highest_ack, sequence),
                ..old(self)@
            }),
            step.phase == SyncPhase::Complete,
            step.action == SyncAction::Complete,
    {
        proof {
            use_type_invariant(&*self);
        }
        if sequence > self.highest_ack {
            self.highest_ack = sequence;
        }
        self.phase = SyncPhase::Complete;
        SyncStep { phase: self.phase, action: SyncAction::Complete }
    }

    /// A recoverable error occurred; enter backoff.
    pub fn on_error(&mut self) -> (step: SyncStep)
        ensures
            final(self)@ == (OrchestratorState { phase: SyncPhase::Backoff, ..old(self)@ }),
            step.phase == SyncPhase::Backoff,
            step.action == SyncAction::Await,
    {
        proof {
            use_type_invariant(&*self);
        }
        self.phase = SyncPhase::Backoff;
        SyncStep { phase: self.phase, action: SyncAction::Await }
    }

    /// Mark an unrecoverable failure.
    pub fn fail(&mut self) -> (step: SyncStep)
        ensures
            final(self)@ == (OrchestratorState { phase: SyncPhase::Failed, ..old(self)@ }),
            step.phase == SyncPhase::Failed,
            step.action == SyncAction::Await,
    {
        proof {
            use_type_invariant(&*self);
        }
        self.phase = SyncPhase::Failed;
        SyncStep { phase: self.phase, action: SyncAction::Await }
    }

    /// Reset the cycle back to idle; the acknowledgement is kept.
    pub fn reset(&mut self)
        ensures
            final(self)@ == (OrchestratorState {
                phase: SyncPhase::Idle,
                peer: None,
                remote_summary: None,
                pending: Seq::<SeqRange>::empty(),
                ..old(self)@
            }),
    {
        proof {
            use_type_invariant(&*self);
        }
        self.phase = SyncPhase::Idle;
        self.peer = None;
        self.remote_summary = None;
        self.pending_ranges = Vec::new();
    }
}

/// After two chunks, exactly the sequences pending before that neither chunk
/// covers are still pending.
pub proof fn lemma_chunks_compose(
    pending: Seq<SeqRange>,
    start1: u64,
    end1: u64,
    start2: u64,
    end2: u64,
    x: int,
)
    ensures
        covers(cut_seq(cut_seq(pending, start1, end1), start2, end2), x) <==> (covers(pending, x) && !(
        start1 <= x < end1) && !(start2 <= x < end2)),
{
    lemma_cut_covers(pending, start1, end1, x);
    lemma_cut_covers(cut_seq(pending, start1, end1), start2, end2, x);
}

impl<S: Default> Default for SyncOrchestrator<S> {
    /// An idle orchestrator over the default (empty) local summary.
    fn default() -> (o: Self)
        ensures
            o@.phase == SyncPhase::Idle,
            o@.peer is None,
            o@.remote_summary is None,
            o@.pending == Seq::<SeqRange>::empty(),
            o@.highest_ack == 0,
    {
        SyncOrchestrator::new(S::default())
    }
}

} // verus!
