//! Background sync engine: trigger routing, cycles, and status, fed by a fake
//! DNS-SD backend.

use std::sync::Mutex;

use todo_core::background_sync::{SyncService, SyncState};
use todo_core::discovery::{to_candidates, Candidate, DiscoveryBackend, RawService};
use todo_core::network_runtime::NetworkRuntime;
use todo_core::scheduler::SchedulerIntent;
use todo_core::triggers::TriggerSource;

/// A fake DNS-SD backend returning a fixed set of services.
struct FakeBackend {
    services: Mutex<Vec<RawService>>,
    stopped: Mutex<bool>,
}

impl FakeBackend {
    fn new(services: Vec<RawService>) -> Self {
        Self { services: Mutex::new(services), stopped: Mutex::new(false) }
    }
}

impl DiscoveryBackend for FakeBackend {
    fn browse(&self) -> Vec<RawService> {
        if *self.stopped.lock().unwrap() {
            return Vec::new();
        }
        self.services.lock().unwrap().clone()
    }

    fn register(&self, _i: &str, _p: u16, _h: [u8; 16], _c: u32) -> Result<(), String> {
        Ok(())
    }

    fn stop(&self) {
        *self.stopped.lock().unwrap() = true;
    }
}

fn service(instance: &str, hint: u8) -> RawService {
    RawService {
        instance: instance.into(),
        hint: [hint; 16],
        endpoints: vec![("192.168.1.10".into(), 5353)],
        capabilities: 0,
        ttl_millis: i64::MAX,
    }
}

/// One discovery pass: the candidates the backend's services make under
/// `generation` (every endpoint here may be dialed).
fn discover(backend: &FakeBackend, generation: u64) -> Vec<Candidate> {
    let raw = backend.browse();
    let usable: Vec<Vec<bool>> = raw.iter().map(|s| vec![true; s.endpoints.len()]).collect();
    to_candidates(raw, generation, &usable)
}

#[test]
fn no_peers_is_offline() {
    let backend = FakeBackend::new(vec![]);
    let mut sync: SyncService<()> = SyncService::new(SchedulerIntent::ForegroundActive);
    sync.on_trigger(TriggerSource::Startup, &discover(&backend, 0), 0);
    assert_eq!(sync.status().state, SyncState::Offline);
    assert!(sync.status().peers.is_empty());
}

#[test]
fn discovered_peer_is_connected() {
    let backend = FakeBackend::new(vec![service("srv-a", 1)]);
    let mut sync: SyncService<()> = SyncService::new(SchedulerIntent::ForegroundActive);
    sync.on_trigger(TriggerSource::Startup, &discover(&backend, 0), 0);
    let status = sync.status();
    assert_eq!(status.state, SyncState::Connected);
    assert_eq!(status.peers.len(), 1);
    assert_eq!(status.peers[0].instance, "srv-a");
    assert_eq!(status.peers[0].endpoint, "192.168.1.10:5353");
    assert_eq!(status.session_count, 1, "one cycle converged per peer");
}

#[test]
fn network_change_bumps_generation_and_clears_candidates() {
    let backend = FakeBackend::new(vec![service("srv-a", 1)]);
    let mut network = NetworkRuntime::new();
    let mut sync: SyncService<()> = SyncService::new(SchedulerIntent::ForegroundActive);
    let before = network.generation().value();
    sync.on_trigger(TriggerSource::Startup, &discover(&backend, before), before);
    assert_eq!(sync.status().generation, 0);

    // The network changed: the generation advances, the candidates of the
    // old one are dropped, and the next browse repopulates them under the
    // new one.
    network.on_network_change();
    let after = network.generation().value();
    assert_eq!(after, 1);
    let candidates = discover(&backend, after);
    assert_eq!(candidates.len(), 1);
    assert_eq!(candidates[0].network_generation, 1);
    sync.on_trigger(TriggerSource::NetworkChange, &candidates, after);
    assert_eq!(sync.status().generation, 1);
    assert_eq!(sync.status().peers.len(), 1);
    assert_eq!(sync.status().state, SyncState::Connected);
}

#[test]
fn os_deferred_defers_background_sources() {
    let backend = FakeBackend::new(vec![service("srv-a", 1)]);
    let mut sync: SyncService<()> = SyncService::new(SchedulerIntent::OsDeferred);
    // A periodic pass is deferred: the peer is discovered but no cycle runs.
    sync.on_trigger(TriggerSource::Periodic, &discover(&backend, 0), 0);
    assert_eq!(sync.status().session_count, 0);
    // A network change still overrides the defer.
    sync.on_trigger(TriggerSource::NetworkChange, &discover(&backend, 0), 0);
    assert_eq!(sync.status().session_count, 1);
}

#[test]
fn stop_halts_sync() {
    let backend = FakeBackend::new(vec![service("srv-a", 1)]);
    let mut sync: SyncService<()> = SyncService::new(SchedulerIntent::ForegroundActive);
    sync.on_trigger(TriggerSource::Startup, &discover(&backend, 0), 0);
    assert_eq!(sync.status().state, SyncState::Connected);

    sync.stop(0);
    backend.stop();
    assert!(sync.is_stopped());
    assert_eq!(sync.status().state, SyncState::Offline);
}

#[test]
fn a_stopped_engine_ignores_triggers() {
    let backend = FakeBackend::new(vec![service("srv-a", 1), service("srv-b", 2)]);
    let mut sync: SyncService<()> = SyncService::new(SchedulerIntent::ForegroundActive);
    sync.on_trigger(TriggerSource::Manual, &discover(&backend, 0), 0);
    assert_eq!(sync.status().session_count, 2);
    sync.stop(3);
    assert_eq!(sync.status().generation, 3);
    assert_eq!(sync.status().session_count, 2);
    sync.on_trigger(TriggerSource::Manual, &discover(&backend, 3), 3);
    assert_eq!(sync.status().session_count, 2);
    assert_eq!(sync.status().state, SyncState::Offline);
    assert!(sync.status().peers.is_empty());
}

#[test]
fn a_stopping_process_syncs_only_on_foreground_sources() {
    let backend = FakeBackend::new(vec![service("srv-a", 1)]);
    let mut sync: SyncService<()> = SyncService::new(SchedulerIntent::ForegroundActive);
    sync.set_intent(SchedulerIntent::ProcessStopping);
    sync.on_trigger(TriggerSource::Startup, &discover(&backend, 0), 0);
    assert_eq!(sync.status().session_count, 0);
    // Discovered but no cycle ran: the idle engine counts as connected.
    assert_eq!(sync.status().state, SyncState::Connected);
    sync.on_trigger(TriggerSource::Manual, &discover(&backend, 0), 0);
    assert_eq!(sync.status().session_count, 1);
}
