//! The wizard state machine, driven event by event through whole install
//! scenarios.

use installer_core::bitcoind::ConnectionError;
use installer_core::devices::{DeviceError, DeviceInfo};
use installer_core::installer::{
    Action, Completion, Event, Field, InstallError, Installer, Intent, Step, WriteError,
};
use installer_core::descriptor::{render, validate, TimelockError, ValidationError};
use installer_core::installer::DescriptorMode;
use installer_core::network::Network;

fn key(prefix: &str, body: char) -> Vec<u8> {
    let mut s = String::from(prefix);
    for _ in 0..107 {
        s.push(body);
    }
    s.into_bytes()
}

fn user(i: Intent) -> Event {
    Event::User(i)
}

fn task(c: Completion) -> Event {
    Event::Task(c)
}

/// Drives a fresh wizard up to the descriptor-definition step on regtest
/// with both keys and the timelock filled in.
fn filled_define_step() -> Installer {
    let mut s = Installer::new(Network::Regtest);
    let (s2, a) = s.handle(user(Intent::SelectNetwork(Network::Regtest)));
    s = s2;
    assert!(matches!(a, Some(Action::ProbeDataDir(Network::Regtest))));
    let (s2, a) = s.handle(task(Completion::DataDirChecked(Network::Regtest, false)));
    s = s2;
    assert!(a.is_none());
    assert!(!s.snapshot().processing);
    let (s2, _) = s.handle(user(Intent::Next));
    s = s2;
    assert_eq!(s.snapshot().step, Step::DefineDescriptor);
    let (s2, _) = s.handle(user(Intent::FieldEdited(Field::OwnerKey, key("tpub", 'a'))));
    s = s2;
    let (s2, _) = s.handle(user(Intent::FieldEdited(Field::HeirKey, key("tpub", 'b'))));
    s = s2;
    let (s2, _) = s.handle(user(Intent::FieldEdited(Field::Timelock, b"144".to_vec())));
    s = s2;
    s
}

/// Drives the wizard through registration with two devices onto the node
/// step.
fn node_step() -> Installer {
    let mut s = filled_define_step();
    let (s2, _) = s.handle(user(Intent::Next));
    s = s2;
    assert_eq!(s.snapshot().step, Step::RegisterDescriptor);
    let (s2, _) = s.handle(user(Intent::Next));
    s = s2;
    assert_eq!(s.snapshot().step, Step::DefineBitcoind);
    let (s2, _) = s.handle(user(Intent::FieldEdited(
        Field::NodeAddress,
        b"127.0.0.1:18443".to_vec(),
    )));
    s = s2;
    let (s2, _) = s.handle(user(Intent::FieldEdited(
        Field::CookiePath,
        b"/data/regtest/.cookie".to_vec(),
    )));
    s = s2;
    s
}

#[test]
fn welcome_refuses_next_while_data_dir_exists() {
    let mut s = Installer::new(Network::Regtest);
    let (s2, _) = s.handle(user(Intent::SelectNetwork(Network::Regtest)));
    s = s2;
    let (s2, _) = s.handle(task(Completion::DataDirChecked(Network::Regtest, true)));
    s = s2;
    let (s2, _) = s.handle(user(Intent::Next));
    s = s2;
    assert_eq!(s.snapshot().step, Step::Welcome);
}

#[test]
fn valid_inputs_advance_to_registration_with_the_timelock_encoded() {
    let mut s = filled_define_step();
    let (s2, a) = s.handle(user(Intent::Next));
    s = s2;
    assert!(a.is_none());
    let snap = s.snapshot();
    assert_eq!(snap.step, Step::RegisterDescriptor);
    assert!(snap.last_error.is_none());
    let text = String::from_utf8(snap.descriptor_text.unwrap()).unwrap();
    assert!(text.contains("older(144)"));
}

#[test]
fn zero_timelock_fails_with_a_positive_integer_error() {
    let mut s = filled_define_step();
    let (s2, _) = s.handle(user(Intent::FieldEdited(Field::Timelock, b"0".to_vec())));
    s = s2;
    let (s2, _) = s.handle(user(Intent::Next));
    s = s2;
    let snap = s.snapshot();
    assert_eq!(snap.step, Step::DefineDescriptor);
    assert_eq!(
        snap.last_error,
        Some(InstallError::Validation(ValidationError::Timelock(
            TimelockError::NotPositive
        )))
    );
}

#[test]
fn registration_timeout_leaves_device_unregistered_and_retryable() {
    let mut s = filled_define_step();
    let (s2, _) = s.handle(user(Intent::Next));
    s = s2;
    assert_eq!(s.snapshot().step, Step::RegisterDescriptor);
    let (s2, a) = s.handle(user(Intent::Reload));
    s = s2;
    assert!(matches!(a, Some(Action::Enumerate)));
    let found = vec![
        DeviceInfo { kind: 1, fingerprint: 0xf1 },
        DeviceInfo { kind: 2, fingerprint: 0xf2 },
    ];
    let (s2, _) = s.handle(task(Completion::DevicesEnumerated(found)));
    s = s2;
    assert!(!s.snapshot().processing);
    assert_eq!(s.snapshot().devices.len(), 2);

    let (s2, a) = s.handle(user(Intent::SelectDevice(0)));
    s = s2;
    match a {
        Some(Action::Register { fingerprint, descriptor }) => {
            assert_eq!(fingerprint, 0xf1);
            assert!(!descriptor.is_empty());
        },
        _ => panic!("expected a registration action"),
    }
    assert!(s.snapshot().processing);

    let (s2, _) = s.handle(task(Completion::Registered(0xf1, Err(DeviceError::Timeout))));
    s = s2;
    let snap = s.snapshot();
    assert!(!snap.processing);
    assert_eq!(snap.step, Step::RegisterDescriptor);
    assert_eq!(snap.last_error, Some(InstallError::Device(DeviceError::Timeout)));
    assert!(snap.devices[0].registered.is_none());

    let (s2, a) = s.handle(user(Intent::SelectDevice(1)));
    s = s2;
    assert!(matches!(a, Some(Action::Register { fingerprint: 0xf2, .. })));
    let (s2, _) = s.handle(task(Completion::Registered(0xf2, Ok(77))));
    s = s2;
    let snap = s.snapshot();
    assert!(!snap.processing);
    assert!(snap.last_error.is_none());
    assert_eq!(snap.devices[1].registered, Some(77));
}

#[test]
fn unreadable_cookie_keeps_the_node_step() {
    let mut s = node_step();
    let (s2, a) = s.handle(user(Intent::Next));
    s = s2;
    assert!(matches!(a, Some(Action::NodeCheck { .. })));
    assert!(s.snapshot().processing);
    let (s2, _) = s.handle(task(Completion::NodeChecked(Err(
        ConnectionError::CookieUnreadable,
    ))));
    s = s2;
    let snap = s.snapshot();
    assert!(!snap.processing);
    assert_eq!(snap.step, Step::DefineBitcoind);
    assert_eq!(
        snap.last_error,
        Some(InstallError::Connection(ConnectionError::CookieUnreadable))
    );
}

#[test]
fn bad_address_is_rejected_before_any_probe() {
    let mut s = node_step();
    let (s2, _) = s.handle(user(Intent::FieldEdited(
        Field::NodeAddress,
        b"not an address".to_vec(),
    )));
    s = s2;
    let (s2, a) = s.handle(user(Intent::Next));
    s = s2;
    assert!(a.is_none());
    let snap = s.snapshot();
    assert!(!snap.processing);
    assert_eq!(
        snap.last_error,
        Some(InstallError::Connection(ConnectionError::AddressUnparseable))
    );
}

#[test]
fn connection_fields_with_control_bytes_never_reach_the_artifact() {
    // a newline in the cookie path would break the line-oriented artifact:
    // rejected at the advance, before any probe starts
    let mut s = node_step();
    let (s2, _) = s.handle(user(Intent::FieldEdited(
        Field::CookiePath,
        b"/tmp/\n.cookie".to_vec(),
    )));
    s = s2;
    let (s2, a) = s.handle(user(Intent::Next));
    s = s2;
    assert!(a.is_none());
    assert!(!s.snapshot().processing);
    assert_eq!(
        s.snapshot().last_error,
        Some(InstallError::Connection(ConnectionError::CookieUnreadable))
    );
    // a control byte in the host makes the address unparseable
    let (s2, _) = s.handle(user(Intent::FieldEdited(
        Field::NodeAddress,
        b"bad\nhost:8332".to_vec(),
    )));
    s = s2;
    let (s2, a) = s.handle(user(Intent::Next));
    s = s2;
    assert!(a.is_none());
    assert_eq!(
        s.snapshot().last_error,
        Some(InstallError::Connection(ConnectionError::AddressUnparseable))
    );
}

#[test]
fn double_install_performs_exactly_one_write() {
    let mut s = node_step();
    let (s2, _) = s.handle(user(Intent::Next));
    s = s2;
    let (s2, _) = s.handle(task(Completion::NodeChecked(Ok(()))));
    s = s2;
    assert_eq!(s.snapshot().step, Step::Install);

    let (s2, a) = s.handle(user(Intent::Install));
    s = s2;
    assert!(matches!(a, Some(Action::Write { .. })));
    assert!(s.snapshot().processing);

    // second install while the first write is pending: refused, no action
    let (s2, a) = s.handle(user(Intent::Install));
    s = s2;
    assert!(a.is_none());
    assert!(s.snapshot().processing);

    let (s2, a) = s.handle(task(Completion::WriteFinished(Ok(b"/data/daemon.conf".to_vec()))));
    s = s2;
    assert!(a.is_none());
    let snap = s.snapshot();
    assert!(!snap.processing);
    assert_eq!(snap.step, Step::Done);
    assert_eq!(snap.artifact_path.unwrap(), b"/data/daemon.conf".to_vec());
}

#[test]
fn failed_write_reports_and_allows_retry() {
    let mut s = node_step();
    let (s2, _) = s.handle(user(Intent::Next));
    s = s2;
    let (s2, _) = s.handle(task(Completion::NodeChecked(Ok(()))));
    s = s2;
    let (s2, _) = s.handle(user(Intent::Install));
    s = s2;
    let (s2, _) = s.handle(task(Completion::WriteFinished(Err(WriteError::DiskFull))));
    s = s2;
    let snap = s.snapshot();
    assert!(!snap.processing);
    assert_eq!(snap.step, Step::Install);
    assert_eq!(snap.last_error, Some(InstallError::Write(WriteError::DiskFull)));
    // retry succeeds
    let (s2, _) = s.handle(user(Intent::Install));
    s = s2;
    let (s2, _) = s.handle(task(Completion::WriteFinished(Ok(b"/p".to_vec()))));
    s = s2;
    assert_eq!(s.snapshot().step, Step::Done);
}

#[test]
fn previous_discards_the_stale_descriptor() {
    let mut s = filled_define_step();
    let (s2, _) = s.handle(user(Intent::Next));
    s = s2;
    assert!(s.snapshot().descriptor_text.is_some());
    let (s2, _) = s.handle(user(Intent::Previous));
    s = s2;
    let snap = s.snapshot();
    assert_eq!(snap.step, Step::DefineDescriptor);
    assert!(snap.descriptor_text.is_none());
}

#[test]
fn intents_are_refused_while_processing() {
    let mut s = Installer::new(Network::Regtest);
    let (s2, _) = s.handle(user(Intent::SelectNetwork(Network::Regtest)));
    s = s2;
    assert!(s.snapshot().processing);
    // the probe is still pending: navigation is refused
    let (s2, _) = s.handle(user(Intent::Next));
    s = s2;
    assert!(s.snapshot().processing);
    assert_eq!(s.snapshot().step, Step::Welcome);
    let (s2, _) = s.handle(task(Completion::DataDirChecked(Network::Regtest, false)));
    s = s2;
    assert!(!s.snapshot().processing);
}

#[test]
fn selecting_a_network_resets_downstream_input() {
    let mut s = filled_define_step();
    let (s2, _) = s.handle(user(Intent::Previous));
    s = s2;
    assert_eq!(s.snapshot().step, Step::Welcome);
    let (s2, _) = s.handle(user(Intent::SelectNetwork(Network::Signet)));
    s = s2;
    let (s2, _) = s.handle(task(Completion::DataDirChecked(Network::Signet, false)));
    s = s2;
    let (s2, _) = s.handle(user(Intent::Next));
    s = s2;
    assert_eq!(s.snapshot().step, Step::DefineDescriptor);
    // the old regtest keys are gone: advancing fails on the empty owner key
    let (s2, _) = s.handle(user(Intent::Next));
    s = s2;
    assert!(matches!(
        s.snapshot().last_error,
        Some(InstallError::Validation(ValidationError::OwnerKey(_)))
    ));
}

#[test]
fn hardware_key_import_fills_the_owner_field() {
    let mut s = filled_define_step();
    let (s2, a) = s.handle(user(Intent::Reload));
    s = s2;
    assert!(matches!(a, Some(Action::Enumerate)));
    let (s2, _) = s.handle(task(Completion::DevicesEnumerated(vec![DeviceInfo {
        kind: 1,
        fingerprint: 0xaa,
    }])));
    s = s2;
    let (s2, a) = s.handle(user(Intent::SelectDevice(0)));
    s = s2;
    assert!(a.is_none());
    let (s2, a) = s.handle(user(Intent::ImportHwKey(false)));
    s = s2;
    match a {
        Some(Action::ImportKey { fingerprint, heir, network }) => {
            assert_eq!(fingerprint, 0xaa);
            assert!(!heir);
            assert_eq!(network, Network::Regtest);
        },
        _ => panic!("expected a key-import action"),
    }
    assert!(s.snapshot().processing);
    let (s2, _) = s.handle(task(Completion::KeyImported(0xaa, false, Ok(key("tpub", 'c')))));
    s = s2;
    assert!(!s.snapshot().processing);
    // the imported key is now the owner key: advancing builds the descriptor
    let (s2, _) = s.handle(user(Intent::Next));
    s = s2;
    assert_eq!(s.snapshot().step, Step::RegisterDescriptor);
}

#[test]
fn import_failure_surfaces_and_clears_processing() {
    let mut s = filled_define_step();
    let (s2, _) = s.handle(user(Intent::Reload));
    s = s2;
    let (s2, _) = s.handle(task(Completion::DevicesEnumerated(vec![DeviceInfo {
        kind: 1,
        fingerprint: 0xaa,
    }])));
    s = s2;
    let (s2, _) = s.handle(user(Intent::SelectDevice(0)));
    s = s2;
    let (s2, _) = s.handle(user(Intent::ImportHwKey(true)));
    s = s2;
    let (s2, _) = s.handle(task(Completion::KeyImported(
        0xaa,
        true,
        Err(DeviceError::UserRejected),
    )));
    s = s2;
    let snap = s.snapshot();
    assert!(!snap.processing);
    assert_eq!(snap.last_error, Some(InstallError::Device(DeviceError::UserRejected)));
    // dismissing the modal clears the error
    let (s2, _) = s.handle(user(Intent::Close));
    s = s2;
    assert!(s.snapshot().last_error.is_none());
}

#[test]
fn imported_descriptor_text_advances_like_derived_input() {
    let d = validate(&key("tpub", 'a'), &key("tpub", 'b'), b"288", Network::Regtest).unwrap();
    let text = render(&d);

    let mut s = Installer::new(Network::Regtest);
    let (s2, _) = s.handle(user(Intent::SelectNetwork(Network::Regtest)));
    s = s2;
    let (s2, _) = s.handle(task(Completion::DataDirChecked(Network::Regtest, false)));
    s = s2;
    let (s2, _) = s.handle(user(Intent::Next));
    s = s2;
    let (s2, _) = s.handle(user(Intent::SelectMode(DescriptorMode::Imported)));
    s = s2;
    let (s2, _) = s.handle(user(Intent::FieldEdited(Field::ImportedDescriptor, text.clone())));
    s = s2;
    let (s2, _) = s.handle(user(Intent::Next));
    s = s2;
    let snap = s.snapshot();
    assert_eq!(snap.step, Step::RegisterDescriptor);
    assert_eq!(snap.descriptor_text.unwrap(), text);

    // the same text under the wrong network never validates
    let mut w = Installer::new(Network::Main);
    let (w2, _) = w.handle(user(Intent::SelectNetwork(Network::Main)));
    w = w2;
    let (w2, _) = w.handle(task(Completion::DataDirChecked(Network::Main, false)));
    w = w2;
    let (w2, _) = w.handle(user(Intent::Next));
    w = w2;
    let (w2, _) = w.handle(user(Intent::SelectMode(DescriptorMode::Imported)));
    w = w2;
    let (w2, _) = w.handle(user(Intent::FieldEdited(Field::ImportedDescriptor, text)));
    w = w2;
    let (w2, _) = w.handle(user(Intent::Next));
    w = w2;
    assert_eq!(w.snapshot().step, Step::DefineDescriptor);
    assert!(matches!(
        w.snapshot().last_error,
        Some(InstallError::Validation(_))
    ));
}

#[test]
fn every_reported_failure_kind_surfaces_in_the_error_slot() {
    // connectivity: refused and timed out
    let mut s = node_step();
    let (s2, _) = s.handle(user(Intent::Next));
    s = s2;
    let (s2, _) = s.handle(task(Completion::NodeChecked(Err(
        ConnectionError::ConnectionRefused,
    ))));
    s = s2;
    assert_eq!(
        s.snapshot().last_error,
        Some(InstallError::Connection(ConnectionError::ConnectionRefused))
    );
    let (s2, _) = s.handle(user(Intent::Next));
    s = s2;
    let (s2, _) = s.handle(task(Completion::NodeChecked(Err(ConnectionError::Timeout))));
    s = s2;
    assert_eq!(
        s.snapshot().last_error,
        Some(InstallError::Connection(ConnectionError::Timeout))
    );

    // device: protocol error on registration
    let mut r = filled_define_step();
    let (r2, _) = r.handle(user(Intent::Next));
    r = r2;
    let (r2, _) = r.handle(user(Intent::Reload));
    r = r2;
    let (r2, _) = r.handle(task(Completion::DevicesEnumerated(vec![DeviceInfo {
        kind: 1,
        fingerprint: 0xf1,
    }])));
    r = r2;
    let (r2, _) = r.handle(user(Intent::SelectDevice(0)));
    r = r2;
    let (r2, _) = r.handle(task(Completion::Registered(0xf1, Err(DeviceError::Protocol))));
    r = r2;
    assert_eq!(
        r.snapshot().last_error,
        Some(InstallError::Device(DeviceError::Protocol))
    );

    // persistence: unwritable path and the serialization kind
    let mut w = node_step();
    let (w2, _) = w.handle(user(Intent::Next));
    w = w2;
    let (w2, _) = w.handle(task(Completion::NodeChecked(Ok(()))));
    w = w2;
    let (w2, _) = w.handle(user(Intent::Install));
    w = w2;
    let (w2, _) = w.handle(task(Completion::WriteFinished(Err(
        WriteError::PathUnwritable,
    ))));
    w = w2;
    assert_eq!(
        w.snapshot().last_error,
        Some(InstallError::Write(WriteError::PathUnwritable))
    );
    let (w2, _) = w.handle(user(Intent::Install));
    w = w2;
    let (w2, _) = w.handle(task(Completion::WriteFinished(Err(
        WriteError::Serialization,
    ))));
    w = w2;
    assert_eq!(
        w.snapshot().last_error,
        Some(InstallError::Write(WriteError::Serialization))
    );
    assert_eq!(w.snapshot().step, Step::Install);
}

#[test]
fn mismatched_completion_clears_processing_without_effect() {
    let mut s = node_step();
    let (s2, _) = s.handle(user(Intent::Next));
    s = s2;
    assert!(s.snapshot().processing);
    // a device completion arrives while a node check is pending: discarded,
    // but the wizard is never left stuck processing
    let (s2, a) = s.handle(task(Completion::Registered(0xf1, Ok(3))));
    s = s2;
    assert!(a.is_none());
    let snap = s.snapshot();
    assert!(!snap.processing);
    assert_eq!(snap.step, Step::DefineBitcoind);
    assert!(snap.last_error.is_none());
}

#[test]
fn stray_completion_is_discarded() {
    let mut s = filled_define_step();
    let before = s.snapshot();
    let (s2, a) = s.handle(task(Completion::Registered(0xf1, Ok(9))));
    s = s2;
    assert!(a.is_none());
    let after = s.snapshot();
    assert!(!after.processing);
    assert_eq!(after.step, before.step);
    assert_eq!(after.devices.len(), before.devices.len());
}
