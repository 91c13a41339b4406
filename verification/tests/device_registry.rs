//! The hardware-device registry: roster refresh by fingerprint identity,
//! the one-in-flight rule, and completion handling.

use installer_core::devices::{DeviceError, DeviceInfo, DeviceRegistry};

#[test]
fn refresh_builds_the_roster_and_dedups_by_fingerprint() {
    let mut reg = DeviceRegistry::new();
    assert_eq!(reg.device_count(), 0);
    reg.refresh(&vec![
        DeviceInfo { kind: 1, fingerprint: 10 },
        DeviceInfo { kind: 2, fingerprint: 20 },
        DeviceInfo { kind: 3, fingerprint: 10 },
    ]);
    assert_eq!(reg.device_count(), 2);
    assert_eq!(reg.get(0).fingerprint, 10);
    assert_eq!(reg.get(0).kind, 1);
    assert_eq!(reg.get(1).fingerprint, 20);
}

#[test]
fn registration_survives_reconnection_by_fingerprint_not_position() {
    let mut reg = DeviceRegistry::new();
    reg.refresh(&vec![
        DeviceInfo { kind: 1, fingerprint: 10 },
        DeviceInfo { kind: 2, fingerprint: 20 },
    ]);
    assert_eq!(reg.begin_op(20), Ok(()));
    assert!(reg.complete_op(20, Some(5)));
    assert_eq!(reg.get(1).registered, Some(5));

    // the device list comes back in another order, one device gone
    reg.refresh(&vec![DeviceInfo { kind: 2, fingerprint: 20 }]);
    assert_eq!(reg.device_count(), 1);
    assert_eq!(reg.get(0).registered, Some(5));

    // a brand-new fingerprint starts unregistered
    reg.refresh(&vec![
        DeviceInfo { kind: 2, fingerprint: 30 },
        DeviceInfo { kind: 2, fingerprint: 20 },
    ]);
    assert_eq!(reg.get(0).registered, None);
    assert_eq!(reg.get(1).registered, Some(5));
}

#[test]
fn second_operation_on_a_busy_device_is_refused_not_queued() {
    let mut reg = DeviceRegistry::new();
    reg.refresh(&vec![DeviceInfo { kind: 1, fingerprint: 10 }]);
    assert_eq!(reg.begin_op(10), Ok(()));
    assert!(reg.is_busy(10));
    assert_eq!(reg.begin_op(10), Err(DeviceError::Busy));
    // completion releases the slot; a retry is accepted
    assert!(!reg.complete_op(10, None));
    assert!(!reg.is_busy(10));
    assert_eq!(reg.begin_op(10), Ok(()));
}

#[test]
fn operations_on_unknown_fingerprints_are_reported_disconnected() {
    let mut reg = DeviceRegistry::new();
    assert_eq!(reg.begin_op(99), Err(DeviceError::Disconnected));
    // a stray completion applies nothing
    assert!(!reg.complete_op(99, Some(1)));
}

#[test]
fn registered_fingerprints_lists_only_attested_devices_in_order() {
    let mut reg = DeviceRegistry::new();
    reg.refresh(&vec![
        DeviceInfo { kind: 1, fingerprint: 10 },
        DeviceInfo { kind: 2, fingerprint: 20 },
        DeviceInfo { kind: 3, fingerprint: 30 },
    ]);
    assert_eq!(reg.begin_op(30), Ok(()));
    assert!(reg.complete_op(30, Some(7)));
    assert_eq!(reg.begin_op(10), Ok(()));
    assert!(reg.complete_op(10, Some(8)));
    assert_eq!(reg.registered_fingerprints(), vec![10, 30]);
}

#[test]
fn find_locates_devices_by_fingerprint() {
    let mut reg = DeviceRegistry::new();
    reg.refresh(&vec![
        DeviceInfo { kind: 1, fingerprint: 10 },
        DeviceInfo { kind: 2, fingerprint: 20 },
    ]);
    assert_eq!(reg.find(20), Some(1));
    assert_eq!(reg.find(10), Some(0));
    assert_eq!(reg.find(55), None);
    let roster = reg.roster_copy();
    assert_eq!(roster.len(), 2);
    assert_eq!(roster[1].fingerprint, 20);
}
