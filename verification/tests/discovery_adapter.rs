//! Discovery adapter: candidate conversion and backend abstraction.

use std::sync::Mutex;

use todo_core::discovery::{
    decode_hint, encode_hint, hex, resolved_service, to_candidates, DiscoveryBackend, NullBackend,
    RawService, ServiceSnapshot, CANDIDATE_TTL_MS,
};

/// A fake DNS-SD backend for tests.
struct FakeBackend {
    services: Mutex<Vec<RawService>>,
    stopped: Mutex<bool>,
}

impl FakeBackend {
    fn new(services: Vec<RawService>) -> Self {
        Self {
            services: Mutex::new(services),
            stopped: Mutex::new(false),
        }
    }
}

impl DiscoveryBackend for FakeBackend {
    fn browse(&self) -> Vec<RawService> {
        if *self.stopped.lock().unwrap() {
            return Vec::new();
        }
        self.services.lock().unwrap().clone()
    }

    fn register(
        &self,
        _instance: &str,
        _port: u16,
        _hint: [u8; 16],
        _capabilities: u32,
    ) -> Result<(), String> {
        Ok(())
    }

    fn stop(&self) {
        *self.stopped.lock().unwrap() = true;
    }
}

fn service(instance: &str, hint: u8) -> RawService {
    RawService {
        instance: instance.into(),
        hint: [hint; 16],
        endpoints: vec![("192.168.1.10".into(), 5353)],
        capabilities: 0,
        ttl_millis: 1_000_000,
    }
}

#[test]
fn stop_halts_browsing() {
    let backend = FakeBackend::new(vec![service("a", 1)]);
    assert_eq!(backend.browse().len(), 1);
    backend.stop();
    assert!(backend.browse().is_empty());
}

/// Whether each endpoint of each service may be dialed: loopback,
/// multicast and unspecified addresses may not.
fn usable_of(services: &[RawService]) -> Vec<Vec<bool>> {
    services
        .iter()
        .map(|s| {
            s.endpoints
                .iter()
                .map(|(ip, _)| ip != "127.0.0.1" && ip != "0.0.0.0" && !ip.starts_with("224."))
                .collect()
        })
        .collect()
}

#[test]
fn candidates_are_tagged_with_generation() {
    let backend = FakeBackend::new(vec![service("a", 1)]);
    let raw = backend.browse();
    let usable = usable_of(&raw);
    let candidates = to_candidates(raw, 7, &usable);
    assert_eq!(candidates.len(), 1);
    assert_eq!(candidates[0].network_generation, 7);
    assert_eq!(candidates[0].hint, [1; 16]);
}

#[test]
fn duplicate_callbacks_yield_duplicate_candidates() {
    // The adapter passes raw services through; deduplication is the registry's
    // job, so two callbacks with the same instance produce two rows.
    let backend = FakeBackend::new(vec![service("dup", 1), service("dup", 1)]);
    let raw = backend.browse();
    let usable = usable_of(&raw);
    let candidates = to_candidates(raw, 0, &usable);
    assert_eq!(candidates.len(), 2);
    assert_eq!(candidates[0].opaque_service_instance, "dup");
}

#[test]
fn invalid_endpoints_are_filtered() {
    let raw = vec![RawService {
        instance: "bad".into(),
        hint: [2; 16],
        endpoints: vec![("0.0.0.0".into(), 1)],
        capabilities: 0,
        ttl_millis: 100,
    }];
    let usable = usable_of(&raw);
    assert!(to_candidates(raw, 0, &usable).is_empty());
}

#[test]
fn to_candidates_drops_invalid_endpoints() {
    let raw = vec![RawService {
        instance: "srv-A".into(),
        hint: [0xAA; 16],
        endpoints: vec![("192.168.1.10".into(), 5353), ("127.0.0.1".into(), 5353)],
        capabilities: 0,
        ttl_millis: 1_000_000,
    }];
    let usable = usable_of(&raw);
    let candidates = to_candidates(raw, 3, &usable);
    assert_eq!(candidates.len(), 1);
    assert_eq!(candidates[0].endpoints.len(), 1);
    assert_eq!(candidates[0].network_generation, 3);
}

#[test]
fn to_candidates_discards_all_invalid() {
    let raw = vec![RawService {
        instance: "bad".into(),
        hint: [0xBB; 16],
        endpoints: vec![("0.0.0.0".into(), 5353)],
        capabilities: 0,
        ttl_millis: 1_000,
    }];
    let usable = usable_of(&raw);
    assert!(to_candidates(raw, 0, &usable).is_empty());
}

#[test]
fn candidates_keep_fields_of_their_service_and_only_usable_endpoints() {
    let raw = vec![
        RawService {
            instance: "srv-A".into(),
            hint: [0xAA; 16],
            endpoints: vec![("127.0.0.1".into(), 1), ("192.168.1.10".into(), 5353)],
            capabilities: 4,
            ttl_millis: 1_000_000,
        },
        RawService {
            instance: "bad".into(),
            hint: [0xBB; 16],
            endpoints: vec![("0.0.0.0".into(), 5353)],
            capabilities: 0,
            ttl_millis: 1_000,
        },
        service("b", 2),
    ];
    let usable = usable_of(&raw);
    let candidates = to_candidates(raw, 9, &usable);
    assert_eq!(candidates.len(), 2);
    assert_eq!(candidates[0].opaque_service_instance, "srv-A");
    assert_eq!(candidates[0].endpoints.len(), 1);
    assert_eq!(candidates[0].endpoints[0].ip, "192.168.1.10");
    assert_eq!(candidates[0].endpoints[0].port, 5353);
    assert_eq!(candidates[0].capabilities, 4);
    assert_eq!(candidates[0].ttl_millis, 1_000_000);
    assert_eq!(candidates[1].opaque_service_instance, "b");
    assert_eq!(candidates[1].network_generation, 9);
}

#[test]
fn null_backend_browses_nothing() {
    let b = NullBackend;
    assert!(b.browse().is_empty());
    assert!(b.register("x", 1, [0; 16], 0).is_ok());
    b.stop();
}

#[test]
fn hex_is_lowercase_two_digits_per_byte() {
    assert_eq!(hex(&[0x00, 0x0f, 0xab, 0xff]), "000fabff");
    assert_eq!(hex(&[]), "");
}

#[test]
fn hints_round_trip_through_hex() {
    let hint: [u8; 16] = [0, 1, 2, 3, 0x10, 0x7f, 0x80, 0xfe, 0xff, 9, 10, 11, 12, 13, 14, 15];
    let text = encode_hint(&hint);
    assert_eq!(text.len(), 32);
    assert_eq!(decode_hint(&text), Some(hint));
}

#[test]
fn decode_hint_accepts_upper_case_and_rejects_bad_text() {
    assert_eq!(decode_hint("FFFFFFFFFFFFFFFFFFFFFFFFFFFFFFFF"), Some([0xff; 16]));
    assert_eq!(decode_hint("00"), None);
    assert_eq!(decode_hint("zz00000000000000000000000000000"), None);
    assert_eq!(decode_hint("zz000000000000000000000000000000"), None);
    // A leading plus sign is read as the sign of a one-digit number.
    assert_eq!(decode_hint("+a000000000000000000000000000000"), Some([10, 0, 0, 0, 0, 0, 0, 0, 0, 0, 0, 0, 0, 0, 0, 0]));
}

#[test]
fn resolved_services_read_their_txt_properties() {
    let hint: [u8; 16] = [7; 16];
    let text = encode_hint(&hint);
    let raw = resolved_service(
        "peer._tptodo._tcp.local.",
        Some(&text),
        Some("5"),
        vec!["192.168.1.10".into(), "10.0.0.3".into()],
        5353,
        1_000,
    );
    assert_eq!(raw.instance, "peer._tptodo._tcp.local.");
    assert_eq!(raw.hint, hint);
    assert_eq!(raw.capabilities, 5);
    assert_eq!(raw.endpoints, vec![("192.168.1.10".to_string(), 5353), ("10.0.0.3".to_string(), 5353)]);
    assert_eq!(raw.ttl_millis, 1_000 + CANDIDATE_TTL_MS);
}

#[test]
fn malformed_txt_properties_fall_back_to_defaults() {
    let raw = resolved_service("x", Some("not hex"), Some("-1"), Vec::new(), 1, 0);
    assert_eq!(raw.hint, [0; 16]);
    assert_eq!(raw.capabilities, 0);
    assert!(raw.endpoints.is_empty());
    let raw = resolved_service("x", None, Some("4294967296"), Vec::new(), 1, 0);
    assert_eq!(raw.hint, [0; 16]);
    assert_eq!(raw.capabilities, 0);
}

#[test]
fn a_snapshot_keeps_one_service_per_instance() {
    let mut snap = ServiceSnapshot::new();
    assert!(snap.services().is_empty());
    snap.on_resolved(service("srv-a", 1));
    snap.on_resolved(service("srv-b", 2));
    // Resolving an instance again replaces it in place.
    snap.on_resolved(service("srv-a", 3));
    assert_eq!(snap.services(), &vec![service("srv-a", 3), service("srv-b", 2)]);
    // Removing an unknown instance changes nothing.
    snap.on_removed("srv-z");
    assert_eq!(snap.services().len(), 2);
    snap.on_removed("srv-a");
    assert_eq!(snap.services(), &vec![service("srv-b", 2)]);
    snap.on_resolved(service("srv-a", 4));
    assert_eq!(snap.services(), &vec![service("srv-b", 2), service("srv-a", 4)]);
}
