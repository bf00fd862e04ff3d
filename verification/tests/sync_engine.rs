//! Ranges, checkpoints, the per-peer sync state, the orchestrator, backoff,
//! scheduling and trigger routing.

use todo_core::backoff::{chunk_retry_base, dial_base, AttemptCounter, DIAL_BACKOFF_CAP_MS};
use todo_core::checkpoint::TransferCheckpoint;
use todo_core::ids::DeviceId;
use todo_core::network_runtime::{NetworkGeneration, NetworkRuntime};
use todo_core::orchestrator::{SyncAction, SyncOrchestrator, SyncPhase};
use todo_core::ranges::{clip_ranges, sort_ranges, SeqRange};
use todo_core::scheduler::{Scheduler, SchedulerIntent, SyncDecision};
use todo_core::sync::SyncState;
use todo_core::triggers::{route_decision, SyncTriggers, TriggerDecision, TriggerSource};

fn dev(b: u8) -> DeviceId {
    DeviceId::from_bytes([b; 32])
}

fn r(start: u64, end: u64) -> SeqRange {
    SeqRange::new(start, end)
}

#[test]
fn clipping_cuts_ranges_at_the_floor_and_drops_empty_ones() {
    let out = clip_ranges(&[r(1, 5), r(3, 10), r(12, 15)], 5);
    assert_eq!(out, vec![r(5, 10), r(12, 15)]);
    assert_eq!(clip_ranges(&[r(1, 5)], 0), vec![r(1, 5)]);
    assert!(clip_ranges(&[r(1, 5), r(2, 3)], 5).is_empty());
}

#[test]
fn clipping_twice_is_clipping_at_the_higher_floor() {
    let rs = [r(1, 5), r(3, 10), r(12, 15), r(4, 4)];
    let twice = clip_ranges(&clip_ranges(&rs, 7), 4);
    assert_eq!(twice, clip_ranges(&rs, 7));
    let twice = clip_ranges(&clip_ranges(&rs, 4), 13);
    assert_eq!(twice, clip_ranges(&rs, 13));
}

#[test]
fn sorting_orders_by_start_then_end_and_keeps_duplicates() {
    let out = sort_ranges(vec![r(5, 9), r(1, 4), r(5, 6), r(1, 4)]);
    assert_eq!(out, vec![r(1, 4), r(1, 4), r(5, 6), r(5, 9)]);
    assert!(sort_ranges(Vec::new()).is_empty());
}

#[test]
fn checkpoint_remaining_cuts_requested_ranges_at_the_acknowledgement() {
    let cp = TransferCheckpoint::new(dev(1), [7; 16], vec![r(1, 10), r(20, 30)], ());
    assert_eq!(cp.highest_ack, 0);
    assert_eq!(cp.remaining(5), vec![r(5, 10), r(20, 30)]);
    assert_eq!(cp.remaining(25), vec![r(25, 30)]);
    assert!(cp.remaining(30).is_empty());
}

#[test]
fn checkpoint_acknowledgement_never_goes_back() {
    let mut cp = TransferCheckpoint::new(dev(1), [7; 16], vec![r(1, 10)], ());
    cp.advance_ack(8);
    assert_eq!(cp.highest_ack, 8);
    cp.advance_ack(3);
    assert_eq!(cp.highest_ack, 8);
    cp.advance_ack(9);
    assert_eq!(cp.highest_ack, 9);
}

#[test]
fn ranges_to_send_skip_what_the_peer_acknowledged() {
    let mut st: SyncState<()> = SyncState::new();
    let missing = vec![r(1, 10), r(12, 20)];
    assert_eq!(st.ranges_to_send(&dev(1), missing.clone()), missing);
    st.record_checkpoint(TransferCheckpoint::new(dev(1), [0; 16], missing.clone(), ()));
    assert_eq!(st.ranges_to_send(&dev(1), missing.clone()), missing);
    st.advance_ack(&dev(1), 15);
    assert_eq!(st.ranges_to_send(&dev(1), missing.clone()), vec![r(15, 20)]);
    assert_eq!(st.checkpoint(&dev(1)).unwrap().highest_ack, 15);
    st.advance_ack(&dev(1), 4);
    assert_eq!(st.checkpoint(&dev(1)).unwrap().highest_ack, 15);
    // Another peer is unaffected.
    assert!(st.checkpoint(&dev(2)).is_none());
    st.advance_ack(&dev(2), 100);
    assert!(st.checkpoint(&dev(2)).is_none());
    assert_eq!(st.ranges_to_send(&dev(2), missing.clone()), missing);
}

#[test]
fn a_new_checkpoint_replaces_the_old_one() {
    let mut st: SyncState<u8> = SyncState::new();
    let mut cp = TransferCheckpoint::new(dev(3), [1; 16], vec![r(1, 2)], 1u8);
    cp.advance_ack(1);
    st.record_checkpoint(cp);
    st.record_checkpoint(TransferCheckpoint::new(dev(3), [2; 16], vec![r(5, 6)], 2u8));
    let got = st.checkpoint(&dev(3)).unwrap();
    assert_eq!(got.transfer_id, [2; 16]);
    assert_eq!(got.highest_ack, 0);
    assert_eq!(got.starting_summary, 2);
}

#[test]
fn orchestrator_runs_a_full_cycle() {
    let mut o: SyncOrchestrator<u32> = SyncOrchestrator::new(0);
    assert_eq!(o.phase(), SyncPhase::Idle);
    let s = o.begin(dev(9));
    assert_eq!(s.phase, SyncPhase::Discovering);
    assert_eq!(s.action, SyncAction::Discover);
    assert_eq!(o.peer(), Some(dev(9)));
    let s = o.on_candidate("192.168.1.10", 5353);
    assert_eq!(s.phase, SyncPhase::Dialing);
    assert_eq!(s.action, SyncAction::Dial { ip: "192.168.1.10".into(), port: 5353 });
    assert_eq!(o.on_handshake().action, SyncAction::SendHello);
    assert_eq!(o.on_negotiated().action, SyncAction::SendSummary);
    let s = o.on_summary(7, vec![r(20, 30), r(1, 10)]);
    assert_eq!(s.phase, SyncPhase::ExchangingSummaries);
    assert_eq!(s.action, SyncAction::SendRangeRequest { ranges: vec![r(1, 10), r(20, 30)] });
    let s = o.on_chunk(1, 9);
    assert_eq!(s.phase, SyncPhase::Applying);
    assert_eq!(s.action, SyncAction::ApplyChunk { operations: 9 });
    assert_eq!(o.pending_ranges(), &[r(20, 30)]);
    let s = o.on_chunk(20, 10);
    assert_eq!(s.phase, SyncPhase::AwaitingAck);
    assert_eq!(s.action, SyncAction::Await);
    let s = o.on_ack(29);
    assert_eq!(s.phase, SyncPhase::Complete);
    assert_eq!(s.action, SyncAction::Complete);
    assert_eq!(o.highest_ack(), 29);
}

#[test]
fn summary_with_nothing_missing_completes_at_once() {
    let mut o: SyncOrchestrator<u32> = SyncOrchestrator::default();
    o.begin(dev(1));
    let s = o.on_summary(3, Vec::new());
    assert_eq!(s.phase, SyncPhase::Complete);
    assert_eq!(s.action, SyncAction::Complete);
    assert!(o.pending_ranges().is_empty());
}

#[test]
fn acknowledged_sequences_are_not_requested_again() {
    let mut o: SyncOrchestrator<u32> = SyncOrchestrator::new(0);
    o.on_ack(15);
    o.reset();
    assert_eq!(o.highest_ack(), 15);
    assert_eq!(o.phase(), SyncPhase::Idle);
    assert_eq!(o.peer(), None);
    let s = o.on_summary(1, vec![r(1, 10), r(12, 20), r(15, 18)]);
    assert_eq!(s.action, SyncAction::SendRangeRequest { ranges: vec![r(15, 18), r(15, 20)] });
    // A lower acknowledgement does not lower the mark.
    o.on_ack(3);
    assert_eq!(o.highest_ack(), 15);
}

#[test]
fn a_chunk_removes_only_what_it_covers() {
    let mut o: SyncOrchestrator<u32> = SyncOrchestrator::new(0);
    o.on_summary(1, vec![r(1, 3)]);
    // A chunk past the pending range leaves it pending.
    let s = o.on_chunk(5, 2);
    assert_eq!(s.phase, SyncPhase::Applying);
    assert_eq!(s.action, SyncAction::ApplyChunk { operations: 2 });
    assert_eq!(o.pending_ranges(), &[r(1, 3)]);

    let mut o: SyncOrchestrator<u32> = SyncOrchestrator::new(0);
    o.on_summary(1, vec![r(1, 10), r(12, 20), r(25, 40)]);
    // A chunk inside a range splits it.
    o.on_chunk(4, 2);
    assert_eq!(o.pending_ranges(), &[r(1, 4), r(6, 10), r(12, 20), r(25, 40)]);
    // A chunk across two ranges trims both.
    o.on_chunk(8, 6);
    assert_eq!(o.pending_ranges(), &[r(1, 4), r(6, 8), r(14, 20), r(25, 40)]);
    // An empty chunk removes nothing.
    o.on_chunk(30, 0);
    assert_eq!(o.pending_ranges(), &[r(1, 4), r(6, 8), r(14, 20), r(25, 40)]);
    // Chunks covering everything leave the acknowledgement to await.
    o.on_chunk(1, 20);
    let s = o.on_chunk(25, 15);
    assert_eq!(s.phase, SyncPhase::AwaitingAck);
    assert_eq!(s.action, SyncAction::Await);
    assert!(o.pending_ranges().is_empty());
}

#[test]
fn two_chunks_leave_what_neither_covers() {
    let mut a: SyncOrchestrator<u32> = SyncOrchestrator::new(0);
    a.on_summary(1, vec![r(1, 10), r(12, 20), r(25, 40)]);
    a.on_chunk(1, 14);
    a.on_chunk(30, 5);
    assert_eq!(a.pending_ranges(), &[r(15, 20), r(25, 30), r(35, 40)]);
}

#[test]
fn errors_and_failures_set_their_phases() {
    let mut o: SyncOrchestrator<u32> = SyncOrchestrator::new(0);
    o.begin(dev(1));
    let s = o.on_error();
    assert_eq!((s.phase, s.action), (SyncPhase::Backoff, SyncAction::Await));
    let s = o.fail();
    assert_eq!((s.phase, s.action), (SyncPhase::Failed, SyncAction::Await));
    assert_eq!(o.peer(), Some(dev(1)));
}

#[test]
fn backoff_tables_grow_and_stop_at_their_caps() {
    let chunk: Vec<u64> = (0..7).map(chunk_retry_base).collect();
    assert_eq!(chunk, vec![1_000, 2_000, 4_000, 8_000, 16_000, 16_000, 16_000]);
    let dial: Vec<u64> = (0..10).map(dial_base).collect();
    assert_eq!(
        dial,
        vec![1_000, 2_000, 5_000, 10_000, 30_000, 60_000, 120_000, 300_000, 300_000, 300_000]
    );
    assert_eq!(dial_base(u32::MAX), DIAL_BACKOFF_CAP_MS);
    for w in dial.windows(2) {
        assert!(w[0] <= w[1]);
    }
}

#[test]
fn attempt_counter_counts_and_resets_only_on_auth() {
    let mut c = AttemptCounter::new();
    assert_eq!(c.record_attempt(), 1_000);
    assert_eq!(c.record_attempt(), 2_000);
    assert_eq!(c.record_attempt(), 5_000);
    assert_eq!(c.attempts, 3);
    assert!(!c.authenticated);
    c.reset_on_auth();
    assert_eq!(c.attempts, 0);
    assert!(c.authenticated);
    assert_eq!(c.record_attempt(), 1_000);
    let mut full = AttemptCounter { attempts: u32::MAX, authenticated: false };
    assert_eq!(full.record_attempt(), DIAL_BACKOFF_CAP_MS);
    assert_eq!(full.attempts, u32::MAX);
}

#[test]
fn network_generation_counts_changes_and_wraps() {
    let mut n = NetworkRuntime::new();
    assert_eq!(n.generation().value(), 0);
    n.on_network_change();
    n.on_network_change();
    assert_eq!(n.generation().value(), 2);
    let g = NetworkGeneration { value: u64::MAX };
    assert_eq!(g.next().value(), 0);
    assert_eq!(NetworkGeneration::new().next().value(), 1);
}

#[test]
fn scheduler_decisions_follow_their_precedence() {
    let mut s = Scheduler::new(SchedulerIntent::ForegroundActive);
    assert_eq!(s.decision(&dev(1)), SyncDecision::Sync);
    s.pause_low_space();
    assert_eq!(s.decision(&dev(1)), SyncDecision::Pause);
    s.block_incompatible(dev(1));
    assert_eq!(s.decision(&dev(1)), SyncDecision::Block);
    s.stop_revoked(dev(1));
    assert_eq!(s.decision(&dev(1)), SyncDecision::Stop);
    assert_eq!(s.decision(&dev(2)), SyncDecision::Pause);
    s.resume_from_low_space();
    assert_eq!(s.decision(&dev(2)), SyncDecision::Sync);
    s.set_intent(SchedulerIntent::OsDeferred);
    assert_eq!(s.decision(&dev(2)), SyncDecision::Defer);
    assert_eq!(s.decision(&dev(1)), SyncDecision::Stop);
    s.set_intent(SchedulerIntent::ProcessStopping);
    assert_eq!(s.decision(&dev(1)), SyncDecision::Defer);
    s.set_intent(SchedulerIntent::WindowsTray);
    assert_eq!(s.decision(&dev(2)), SyncDecision::Sync);
}

#[test]
fn routing_table() {
    let all = [TriggerSource::NetworkChange, TriggerSource::Manual, TriggerSource::Startup, TriggerSource::Periodic];
    for src in all {
        assert_eq!(route_decision(SyncDecision::Sync, src), TriggerDecision::Trigger);
        assert_eq!(route_decision(SyncDecision::Pause, src), TriggerDecision::Defer);
        assert_eq!(route_decision(SyncDecision::Block, src), TriggerDecision::Ignore);
        assert_eq!(route_decision(SyncDecision::Stop, src), TriggerDecision::Ignore);
    }
    assert_eq!(route_decision(SyncDecision::Defer, TriggerSource::NetworkChange), TriggerDecision::Trigger);
    assert_eq!(route_decision(SyncDecision::Defer, TriggerSource::Manual), TriggerDecision::Trigger);
    assert_eq!(route_decision(SyncDecision::Defer, TriggerSource::Startup), TriggerDecision::Defer);
    assert_eq!(route_decision(SyncDecision::Defer, TriggerSource::Periodic), TriggerDecision::Defer);
}

#[test]
fn revoked_or_incompatible_peers_are_never_triggered() {
    let mut t = SyncTriggers::default();
    t.scheduler_mut().stop_revoked(dev(1));
    t.scheduler_mut().block_incompatible(dev(2));
    for src in [TriggerSource::NetworkChange, TriggerSource::Manual, TriggerSource::Startup, TriggerSource::Periodic] {
        assert_eq!(t.evaluate(src, &dev(1)), TriggerDecision::Ignore);
        assert_eq!(t.evaluate(src, &dev(2)), TriggerDecision::Ignore);
        assert_eq!(t.evaluate(src, &dev(3)), TriggerDecision::Trigger);
    }
}

#[test]
fn deferred_intent_defers_background_sources_only() {
    let mut t = SyncTriggers::new(SchedulerIntent::OsDeferred);
    assert_eq!(t.evaluate(TriggerSource::Startup, &dev(1)), TriggerDecision::Defer);
    assert_eq!(t.evaluate(TriggerSource::Periodic, &dev(1)), TriggerDecision::Defer);
    assert_eq!(t.evaluate(TriggerSource::NetworkChange, &dev(1)), TriggerDecision::Trigger);
    assert_eq!(t.evaluate(TriggerSource::Manual, &dev(1)), TriggerDecision::Trigger);
    t.scheduler_mut().set_intent(SchedulerIntent::ProcessStopping);
    assert_eq!(t.evaluate(TriggerSource::Periodic, &dev(1)), TriggerDecision::Defer);
    assert_eq!(t.evaluate(TriggerSource::Manual, &dev(1)), TriggerDecision::Trigger);
    assert_eq!(t.scheduler().decision(&dev(1)), SyncDecision::Defer);
}

#[test]
fn network_change_advances_trigger_generation() {
    let mut t = SyncTriggers::new(SchedulerIntent::ForegroundActive);
    assert_eq!(t.generation().value(), 0);
    t.on_network_change();
    assert_eq!(t.generation().value(), 1);
}
