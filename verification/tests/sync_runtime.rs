//! Sync runtime: generation, sessions, and dial preference.

use todo_core::ids::preferred_dialer;
use todo_core::sync_runtime::SyncRuntime;

#[test]
fn network_change_bumps_generation() {
    let mut rt = SyncRuntime::new();
    assert_eq!(rt.network_generation(), 0);
    rt.on_network_change();
    assert_eq!(rt.network_generation(), 1);
    rt.on_network_change();
    assert_eq!(rt.network_generation(), 2);
}

#[test]
fn sessions_accumulate() {
    let mut rt = SyncRuntime::new();
    assert_eq!(rt.session_count(), 0);
    rt.on_session_established();
    rt.on_session_established();
    assert_eq!(rt.session_count(), 2);
}

#[test]
fn lower_device_id_is_preferred_dialer() {
    assert!(preferred_dialer(&[0x01; 32], &[0x02; 32]));
    assert!(!preferred_dialer(&[0x02; 32], &[0x01; 32]));
    assert!(!preferred_dialer(&[0x01; 32], &[0x01; 32]));
}

#[test]
fn dialer_is_decided_by_the_first_differing_byte() {
    let mut a = [0u8; 32];
    let mut b = [0u8; 32];
    a[5] = 1;
    b[5] = 2;
    a[6] = 0xff;
    assert!(preferred_dialer(&a, &b));
    assert!(!preferred_dialer(&b, &a));
}
