//! Watermarks, recovery plans, runtime status, subscriptions, members, peer
//! runtime, pairing flow and the replica guards.

use todo_core::backoff::AttemptCounter;
use todo_core::compaction::{compute_watermark, tombstone_collectable, TOMBSTONE_MIN_AGE_DAYS};
use todo_core::devmap::DeviceMap;
use todo_core::dispatch::{MemberSet, SpaceGuard};
use todo_core::error::CoreError;
use todo_core::event::{Event, EventKind, SubscriptionKind};
use todo_core::ids::DeviceId;
use todo_core::member_commands::{list_members, member_status, MemberInfo, MemberStatus};
use todo_core::pairing_flow::{Confirmation, PairingAction, PairingFlow, PairingPhase};
use todo_core::peer_runtime::PeerRuntime;
use todo_core::rebuild::{check_snapshot_epoch, within_cutoff};
use todo_core::recovery::{
    recovery_plan, replica_to_str, OpenFailure, RecoveryPlan, RecoveryReason, ReplicaState,
    UnavailableReason, MIN_PROFILE_BYTES,
};
use todo_core::runtime::{PeerStatus, RuntimeState};
use todo_core::subscription::{
    RecvError, Subscription, SubscriptionHub, SubscriptionRegistry, TryRecvError, CHANNEL_BOUND,
};

fn dev(b: u8) -> DeviceId {
    DeviceId::from_bytes([b; 32])
}

#[test]
fn watermark_is_the_least_acknowledgement_per_origin() {
    let mut acks: DeviceMap<Vec<(DeviceId, u64)>> = DeviceMap::new();
    acks.insert(dev(1), vec![(dev(1), 40), (dev(2), 25), (dev(3), 31)]);
    acks.insert(dev(2), vec![(dev(1), 7)]);
    acks.insert(dev(3), Vec::new());
    let w = compute_watermark(&acks);
    assert_eq!(w.per_origin.get(&dev(1)), Some(&25));
    assert_eq!(w.per_origin.get(&dev(2)), Some(&7));
    assert_eq!(w.per_origin.get(&dev(3)), Some(&0));
    assert_eq!(w.per_origin.get(&dev(4)), None);
    assert!(w.covers(&dev(1), 25));
    assert!(!w.covers(&dev(1), 26));
    assert!(!w.covers(&dev(4), 0));
}

#[test]
fn tombstones_wait_for_age_and_every_acknowledgement() {
    assert!(tombstone_collectable(TOMBSTONE_MIN_AGE_DAYS, true));
    assert!(tombstone_collectable(365, true));
    assert!(!tombstone_collectable(TOMBSTONE_MIN_AGE_DAYS - 1, true));
    assert!(!tombstone_collectable(365, false));
}

#[test]
fn recovery_plans_for_each_failure() {
    let corrupt = RecoveryPlan { state: ReplicaState::Recovering(RecoveryReason::Corrupt), quarantine: true };
    assert_eq!(recovery_plan(OpenFailure::WrongKey, Some(100)), corrupt);
    assert_eq!(
        recovery_plan(OpenFailure::WrongKey, Some(MIN_PROFILE_BYTES)),
        RecoveryPlan { state: ReplicaState::Unavailable(UnavailableReason::MissingKey), quarantine: false }
    );
    assert_eq!(
        recovery_plan(OpenFailure::WrongKey, None).state,
        ReplicaState::Unavailable(UnavailableReason::MissingKey)
    );
    assert_eq!(
        recovery_plan(OpenFailure::NotEncrypted, Some(10)).state,
        ReplicaState::Unavailable(UnavailableReason::MissingKey)
    );
    assert_eq!(
        recovery_plan(OpenFailure::MigrationFailed, None).state,
        ReplicaState::Unavailable(UnavailableReason::FailedMigration)
    );
    assert_eq!(
        recovery_plan(OpenFailure::UnsupportedDowngrade, None).state,
        ReplicaState::Unavailable(UnavailableReason::FailedMigration)
    );
    assert_eq!(recovery_plan(OpenFailure::Sqlite, None), corrupt);
    assert_eq!(
        recovery_plan(OpenFailure::Io, None),
        RecoveryPlan { state: ReplicaState::Recovering(RecoveryReason::Locked), quarantine: false }
    );
    assert_eq!(
        recovery_plan(OpenFailure::ApplicationIdMismatch, None),
        corrupt
    );
}

#[test]
fn quarantine_only_ever_accompanies_corruption() {
    let failures = [
        OpenFailure::WrongKey,
        OpenFailure::NotEncrypted,
        OpenFailure::UnsupportedDowngrade,
        OpenFailure::MigrationFailed,
        OpenFailure::Sqlite,
        OpenFailure::Io,
        OpenFailure::ApplicationIdMismatch,
    ];
    for f in failures {
        for len in [None, Some(0), Some(4095), Some(4096), Some(1 << 20)] {
            let p = recovery_plan(f, len);
            assert_eq!(p.quarantine, p.state == ReplicaState::Recovering(RecoveryReason::Corrupt));
            assert_ne!(p.state, ReplicaState::Ready);
        }
    }
}

#[test]
fn replica_labels() {
    assert_eq!(replica_to_str(&ReplicaState::Ready), "ready");
    assert_eq!(replica_to_str(&ReplicaState::ReadOnlyLowSpace), "read_only_low_space");
    assert_eq!(replica_to_str(&ReplicaState::Recovering(RecoveryReason::Locked)), "recovering");
    assert_eq!(replica_to_str(&ReplicaState::Unavailable(UnavailableReason::MissingKey)), "unavailable");
}

#[test]
fn runtime_status_lists_each_peer_once_in_device_order() {
    let mut rt = RuntimeState::new();
    rt.update_peer(dev(3), true);
    rt.update_peer(dev(1), false);
    rt.update_peer(dev(3), false);
    let st = rt.status(ReplicaState::Ready);
    assert_eq!(st.replica, ReplicaState::Ready);
    assert_eq!(
        st.peers,
        vec![
            PeerStatus { device_id: dev(1), reachable: false },
            PeerStatus { device_id: dev(3), reachable: false },
        ]
    );
}

#[test]
fn subscriptions_get_increasing_ids_and_revisions() {
    let mut reg = SubscriptionRegistry::new();
    let a = reg.subscribe(SubscriptionKind::Projection);
    let b = reg.subscribe(SubscriptionKind::Runtime);
    let c = reg.subscribe(SubscriptionKind::Projection);
    assert_eq!((a, b, c), (1, 2, 3));
    let (e1, mut to1) = reg.notify(SubscriptionKind::Projection, EventKind::ProjectionChanged);
    to1.sort();
    assert_eq!(e1, Event { revision: 1, kind: EventKind::ProjectionChanged });
    assert_eq!(to1, vec![1, 3]);
    let (e2, to2) = reg.notify(SubscriptionKind::Runtime, EventKind::RuntimeChanged);
    assert_eq!(e2.revision, 2);
    assert_eq!(to2, vec![2]);
    let (e3, to3) = reg.notify(SubscriptionKind::Pairing, EventKind::Pairing);
    assert_eq!(e3.revision, 3);
    assert!(to3.is_empty());
}

#[test]
fn cancelled_subscriptions_are_not_notified_and_cancel_is_idempotent() {
    let mut reg = SubscriptionRegistry::new();
    let a = reg.subscribe(SubscriptionKind::Projection);
    let b = reg.subscribe(SubscriptionKind::Projection);
    reg.unsubscribe(a);
    reg.unsubscribe(a);
    let (_, to) = reg.notify(SubscriptionKind::Projection, EventKind::ProjectionChanged);
    assert_eq!(to, vec![b]);
    reg.unsubscribe(b);
    let (e, to) = reg.notify(SubscriptionKind::Projection, EventKind::ProjectionChanged);
    assert!(to.is_empty());
    assert_eq!(e.revision, 2);
}

#[test]
fn mailbox_is_first_in_first_out() {
    let mut sub = Subscription::new(5);
    assert_eq!(sub.id(), 5);
    assert_eq!(sub.try_recv(), Err(TryRecvError::Empty));
    assert!(sub.deliver(Event { revision: 1, kind: EventKind::ProjectionChanged }));
    assert!(sub.deliver(Event { revision: 2, kind: EventKind::RuntimeChanged }));
    assert_eq!(sub.try_recv(), Ok(Event { revision: 1, kind: EventKind::ProjectionChanged }));
    assert_eq!(sub.try_recv(), Ok(Event { revision: 2, kind: EventKind::RuntimeChanged }));
    assert_eq!(sub.try_recv(), Err(TryRecvError::Empty));
}

#[test]
fn overflow_is_dropped_and_shows_as_a_revision_gap() {
    let mut sub = Subscription::new(1);
    for rev in 1..=(CHANNEL_BOUND as u64 + 2) {
        let queued = sub.deliver(Event { revision: rev, kind: EventKind::ProjectionChanged });
        assert_eq!(queued, rev <= CHANNEL_BOUND as u64);
    }
    for rev in 1..=(CHANNEL_BOUND as u64) {
        assert_eq!(sub.try_recv().unwrap().revision, rev);
    }
    assert!(sub.deliver(Event { revision: 20, kind: EventKind::ProjectionChanged }));
    // Revisions 17..=19 were dropped; the consumer sees the jump from 16 to 20.
    assert_eq!(sub.try_recv().unwrap().revision, 20);
}

#[test]
fn a_cancelled_mailbox_drains_then_reports_disconnection() {
    let mut sub = Subscription::new(1);
    sub.deliver(Event { revision: 1, kind: EventKind::Pairing });
    sub.cancel();
    sub.cancel();
    assert!(!sub.deliver(Event { revision: 2, kind: EventKind::Pairing }));
    assert_eq!(sub.try_recv(), Ok(Event { revision: 1, kind: EventKind::Pairing }));
    assert_eq!(sub.try_recv(), Err(TryRecvError::Disconnected));
}

#[test]
fn member_status_precedence() {
    assert_eq!(member_status(true, true, true), MemberStatus::Active);
    assert_eq!(member_status(false, true, true), MemberStatus::Pending);
    assert_eq!(member_status(false, false, true), MemberStatus::Revoked);
    assert_eq!(member_status(false, false, false), MemberStatus::Unknown);
}

#[test]
fn member_list_is_sorted_and_active_wins_over_pending() {
    let infos = list_members(&vec![dev(5), dev(2)], &vec![dev(9), dev(2), dev(1), dev(9)], &Vec::new());
    assert_eq!(
        infos,
        vec![
            MemberInfo { device: dev(1), status: MemberStatus::Pending },
            MemberInfo { device: dev(2), status: MemberStatus::Active },
            MemberInfo { device: dev(5), status: MemberStatus::Active },
            MemberInfo { device: dev(9), status: MemberStatus::Pending },
        ]
    );
    assert!(list_members(&Vec::new(), &Vec::new(), &Vec::new()).is_empty());
}

#[test]
fn member_list_shows_revoked_members_not_otherwise_listed() {
    let infos = list_members(&vec![dev(4)], &vec![dev(7)], &vec![dev(7), dev(3), dev(4), dev(8), dev(3)]);
    assert_eq!(
        infos,
        vec![
            MemberInfo { device: dev(3), status: MemberStatus::Revoked },
            MemberInfo { device: dev(4), status: MemberStatus::Active },
            MemberInfo { device: dev(7), status: MemberStatus::Pending },
            MemberInfo { device: dev(8), status: MemberStatus::Revoked },
        ]
    );
    assert_eq!(
        list_members(&Vec::new(), &Vec::new(), &vec![dev(2)]),
        vec![MemberInfo { device: dev(2), status: MemberStatus::Revoked }]
    );
}

#[derive(Clone, Copy, Debug, PartialEq, Eq)]
enum Conn {
    Offline,
    Connecting,
    Connected,
}

#[test]
fn peer_runtime_tracks_state_and_attempts_per_peer() {
    let mut rt = PeerRuntime::new(Conn::Offline);
    assert_eq!(rt.state(&dev(1)), Conn::Offline);
    assert_eq!(rt.peer_count(), 0);
    let e = rt.entry(dev(1));
    assert_eq!(e.state, Conn::Offline);
    assert_eq!(e.attempts, AttemptCounter::new());
    assert_eq!(rt.peer_count(), 1);
    rt.transition(dev(1), Conn::Connecting);
    rt.transition(dev(2), Conn::Connected);
    assert_eq!(rt.state(&dev(1)), Conn::Connecting);
    assert_eq!(rt.state(&dev(2)), Conn::Connected);
    assert_eq!(rt.peer_count(), 2);
    rt.reset_on_auth(dev(1));
    let e = rt.entry(dev(1));
    assert_eq!(e.state, Conn::Connecting);
    assert_eq!(e.attempts, AttemptCounter { attempts: 0, authenticated: true });
}

fn session() -> uuid::Uuid {
    uuid::Uuid::from_u128(0x1234)
}

#[test]
fn pairing_flow_commits_only_after_both_confirmations() {
    let mut f = PairingFlow::new(session());
    assert_eq!(f.phase(), PairingPhase::Offering);
    assert_eq!(f.session_id(), session());
    assert_eq!(f.start_offering(), PairingAction::ShowQr { session_id: session() });
    assert_eq!(f.on_peer_detected(), PairingAction::Discover);
    assert_eq!(f.phase(), PairingPhase::Discovering);
    assert_eq!(
        f.on_discovered("192.168.1.20", 4000, true),
        PairingAction::Connect { ip: "192.168.1.20".into(), port: 4000 }
    );
    assert_eq!(f.phase(), PairingPhase::Connecting);
    assert_eq!(f.sas(), None);
    assert_eq!(f.on_connected(Some("123456".into()), dev(7)), PairingAction::ShowSas { sas: "123456".into() });
    assert_eq!(f.phase(), PairingPhase::ConfirmingSas);
    assert_eq!(f.sas(), Some("123456".to_string()));
    assert_eq!(f.remote_device(), Some(dev(7)));
    assert_eq!(f.confirm_local(Confirmation::AwaitingPeer), PairingAction::AwaitPeerConfirmation);
    assert_eq!(f.phase(), PairingPhase::ConfirmingSas);
    assert_eq!(f.confirm_remote(Confirmation::BothConfirmed), PairingAction::CommitMember { device: dev(7) });
    assert_eq!(f.phase(), PairingPhase::Committing);
    assert_eq!(f.on_member_committed(), PairingAction::Done);
    assert_eq!(f.phase(), PairingPhase::Paired);
}

#[test]
fn pairing_flow_failure_paths() {
    let mut f = PairingFlow::new(session());
    f.on_discovered("10.0.0.1", 1, false);
    assert_eq!(f.phase(), PairingPhase::Failed);

    let mut f = PairingFlow::new(session());
    assert_eq!(f.on_connected(None, dev(3)), PairingAction::Done);
    assert_eq!(f.phase(), PairingPhase::Failed);
    assert_eq!(f.sas(), None);

    let mut f = PairingFlow::new(session());
    f.on_connected(Some("000000".into()), dev(3));
    assert_eq!(f.confirm_local(Confirmation::Refused), PairingAction::Done);
    assert_eq!(f.phase(), PairingPhase::Failed);

    let mut f = PairingFlow::new(session());
    f.cancel();
    assert_eq!(f.phase(), PairingPhase::Cancelled);
    f.mark_expired();
    assert_eq!(f.phase(), PairingPhase::Failed);
}

#[test]
fn low_space_makes_the_replica_read_only_until_recovered() {
    let mut g = SpaceGuard::new(1_000);
    assert_eq!(g.replica_state(), ReplicaState::Ready);
    assert_eq!(g.check_space(5_000), Ok(()));
    assert_eq!(g.check_space(999), Err(CoreError::ReadOnlyLowSpace));
    assert_eq!(g.replica_state(), ReplicaState::ReadOnlyLowSpace);
    // Enough space later does not lift the state by itself.
    assert_eq!(g.check_space(5_000), Ok(()));
    assert_eq!(g.replica_state(), ReplicaState::ReadOnlyLowSpace);
    g.note_space_recovered();
    assert_eq!(g.replica_state(), ReplicaState::Ready);
    let mut none = SpaceGuard::new(0);
    assert_eq!(none.check_space(0), Ok(()));
}

#[test]
fn member_set_holds_the_local_device_and_added_members() {
    let mut m = MemberSet::new(dev(1));
    assert!(m.is_member(&dev(1)));
    assert!(!m.is_member(&dev(2)));
    m.add_member(dev(2));
    m.add_member(dev(2));
    assert!(m.is_member(&dev(2)));
}

#[test]
fn device_map_keeps_one_value_per_key() {
    let mut m: DeviceMap<u32> = DeviceMap::new();
    m.insert(dev(2), 20);
    m.insert(dev(1), 10);
    m.insert(dev(2), 21);
    assert_eq!(m.len(), 2);
    assert_eq!(m.pair_at(0), &(dev(1), 10));
    assert_eq!(m.pair_at(1), &(dev(2), 21));
    assert_eq!(m.remove(&dev(1)), Some(10));
    assert_eq!(m.remove(&dev(1)), None);
    assert!(!m.contains_key(&dev(1)));
    assert_eq!(m.get(&dev(2)), Some(&21));
}

#[test]
fn recv_takes_events_in_order_then_reports_cancellation() {
    let mut sub = Subscription::new(2);
    assert!(!sub.is_ready());
    sub.deliver(Event { revision: 4, kind: EventKind::RuntimeChanged });
    sub.deliver(Event { revision: 5, kind: EventKind::RuntimeChanged });
    assert!(sub.is_ready());
    assert_eq!(sub.recv(), Ok(Event { revision: 4, kind: EventKind::RuntimeChanged }));
    sub.cancel();
    assert_eq!(sub.recv(), Ok(Event { revision: 5, kind: EventKind::RuntimeChanged }));
    assert!(sub.is_ready());
    assert_eq!(sub.recv(), Err(RecvError));
}

#[test]
fn hub_delivers_each_revision_to_the_subscribers_of_its_kind() {
    let mut hub = SubscriptionHub::new();
    let a = hub.subscribe(SubscriptionKind::Projection);
    let b = hub.subscribe(SubscriptionKind::Runtime);
    assert_eq!(hub.try_recv(a), Err(TryRecvError::Empty));
    let e1 = hub.notify(SubscriptionKind::Projection, EventKind::ProjectionChanged);
    let e2 = hub.notify(SubscriptionKind::Runtime, EventKind::RuntimeChanged);
    let e3 = hub.notify(SubscriptionKind::Projection, EventKind::ProjectionChanged);
    assert_eq!((e1.revision, e2.revision, e3.revision), (1, 2, 3));
    assert_eq!(hub.revision(), 3);
    assert!(hub.is_ready(a));
    assert_eq!(hub.recv(a), Ok(e1));
    assert_eq!(hub.try_recv(a), Ok(e3));
    assert_eq!(hub.try_recv(a), Err(TryRecvError::Empty));
    assert!(!hub.is_ready(a));
    assert_eq!(hub.try_recv(b), Ok(e2));
    // Unknown subscriptions read as disconnected.
    assert_eq!(hub.try_recv(99), Err(TryRecvError::Disconnected));
    assert_eq!(hub.recv(99), Err(RecvError));
}

#[test]
fn hub_drops_overflow_and_the_revisions_show_the_gap() {
    let mut hub = SubscriptionHub::new();
    let slow = hub.subscribe(SubscriptionKind::Projection);
    for _ in 0..(CHANNEL_BOUND + 3) {
        hub.notify(SubscriptionKind::Projection, EventKind::ProjectionChanged);
    }
    let mut seen = Vec::new();
    while let Ok(e) = hub.try_recv(slow) {
        seen.push(e.revision);
    }
    assert_eq!(seen, (1..=CHANNEL_BOUND as u64).collect::<Vec<_>>());
    let next = hub.notify(SubscriptionKind::Projection, EventKind::ProjectionChanged);
    let got = hub.try_recv(slow).unwrap();
    assert_eq!(got, next);
    assert_eq!(got.revision, CHANNEL_BOUND as u64 + 4);
}

#[test]
fn hub_cancel_drains_then_disconnects_and_is_idempotent() {
    let mut hub = SubscriptionHub::new();
    let a = hub.subscribe(SubscriptionKind::Pairing);
    let e = hub.notify(SubscriptionKind::Pairing, EventKind::Pairing);
    hub.cancel(a);
    hub.cancel(a);
    hub.notify(SubscriptionKind::Pairing, EventKind::Pairing);
    assert_eq!(hub.try_recv(a), Ok(e));
    assert!(hub.is_ready(a));
    assert_eq!(hub.recv(a), Err(RecvError));
    assert_eq!(hub.try_recv(a), Err(TryRecvError::Disconnected));
}

#[test]
fn operations_past_their_origins_cutoff_are_dropped() {
    let mut cutoff: DeviceMap<u64> = DeviceMap::new();
    cutoff.insert(dev(1), 5);
    let stamps = vec![(dev(1), 4), (dev(1), 5), (dev(1), 6), (dev(2), 100)];
    assert_eq!(within_cutoff(&stamps, &cutoff), vec![true, true, false, true]);
    assert!(within_cutoff(&Vec::new(), &cutoff).is_empty());
}

#[test]
fn snapshots_of_the_zero_epoch_are_refused() {
    assert_eq!(
        check_snapshot_epoch(&[0; 32]),
        Err(CoreError::InvalidCommand("bad membership epoch".into()))
    );
    let mut epoch = [0u8; 32];
    epoch[31] = 1;
    assert_eq!(check_snapshot_epoch(&epoch), Ok(()));
}
