//! The descriptor builder: validation, canonical rendering, and the
//! import parser.

use installer_core::descriptor::{
    can_spend, parse_imported, parse_timelock, render, reparse, validate, TimelockError,
    ValidationError,
};
use installer_core::keys::KeyError;
use installer_core::network::Network;

fn key(prefix: &str, body: char) -> Vec<u8> {
    let mut s = String::from(prefix);
    for _ in 0..107 {
        s.push(body);
    }
    s.into_bytes()
}

#[test]
fn builds_descriptor_from_valid_regtest_inputs() {
    let k1 = key("tpub", 'a');
    let k2 = key("tpub", 'b');
    let d = validate(&k1, &k2, b"144", Network::Regtest).unwrap();
    assert_eq!(d.network, Network::Regtest);
    assert_eq!(d.timelock, 144);
    assert_eq!(d.owner.text().as_slice(), k1.as_slice());
    assert_eq!(d.heir.text().as_slice(), k2.as_slice());
}

#[test]
fn rendering_is_canonical_and_deterministic() {
    let k1 = key("tpub", 'a');
    let k2 = key("tpub", 'b');
    let d1 = validate(&k1, &k2, b"144", Network::Regtest).unwrap();
    let d2 = validate(&k1, &k2, b"144", Network::Regtest).unwrap();
    let t1 = render(&d1);
    let t2 = render(&d2);
    assert_eq!(t1, t2);
    let text = String::from_utf8(t1.clone()).unwrap();
    assert!(text.starts_with("wsh(or(pk(tpub"));
    assert!(text.contains("),older(144))))#"));
    assert_eq!(t1.len(), 262 + 3);
}

#[test]
fn render_then_import_round_trips() {
    let k1 = key("tpub", 'a');
    let k2 = key("tpub", 'b');
    for tl in ["1", "144", "65535"] {
        let d = validate(&k1, &k2, tl.as_bytes(), Network::Regtest).unwrap();
        let text = render(&d);
        let p = parse_imported(&text, Network::Regtest).unwrap();
        assert_eq!(p.owner.text(), d.owner.text());
        assert_eq!(p.heir.text(), d.heir.text());
        assert_eq!(p.timelock, d.timelock);
        assert_eq!(p.network, d.network);
        let q = reparse(&d);
        assert_eq!(q.timelock, d.timelock);
        assert_eq!(q.owner.text(), d.owner.text());
    }
}

#[test]
fn import_rejects_checksum_tamper() {
    let k1 = key("tpub", 'a');
    let k2 = key("tpub", 'b');
    let d = validate(&k1, &k2, b"144", Network::Regtest).unwrap();
    let mut text = render(&d);
    let last = text.len() - 1;
    text[last] = if text[last] == b'0' { b'1' } else { b'0' };
    assert_eq!(parse_imported(&text, Network::Regtest), Err(ValidationError::Checksum));
}

#[test]
fn import_rejects_malformed_shape() {
    assert_eq!(parse_imported(b"", Network::Regtest), Err(ValidationError::Structure));
    assert_eq!(
        parse_imported(b"wsh(or(pk(nonsense", Network::Regtest),
        Err(ValidationError::Structure)
    );
    let k1 = key("tpub", 'a');
    let k2 = key("tpub", 'b');
    let d = validate(&k1, &k2, b"144", Network::Regtest).unwrap();
    let mut text = render(&d);
    text[0] = b'x';
    assert_eq!(parse_imported(&text, Network::Regtest), Err(ValidationError::Structure));
}

#[test]
fn import_rejects_network_mismatch() {
    let k1 = key("tpub", 'a');
    let k2 = key("tpub", 'b');
    let d = validate(&k1, &k2, b"144", Network::Regtest).unwrap();
    let text = render(&d);
    assert_eq!(
        parse_imported(&text, Network::Main),
        Err(ValidationError::OwnerKey(KeyError::NetworkMismatch))
    );
}

#[test]
fn mainnet_key_under_test_network_is_rejected() {
    let xk = key("xpub", 'a');
    let k2 = key("tpub", 'b');
    assert_eq!(
        validate(&xk, &k2, b"144", Network::Test),
        Err(ValidationError::OwnerKey(KeyError::NetworkMismatch))
    );
    let tk = key("tpub", 'a');
    let xk2 = key("xpub", 'b');
    assert_eq!(
        validate(&xk2, &tk, b"144", Network::Main),
        Err(ValidationError::HeirKey(KeyError::NetworkMismatch))
    );
}

#[test]
fn owner_equal_heir_is_always_rejected() {
    let k1 = key("tpub", 'a');
    assert_eq!(
        validate(&k1, &k1, b"144", Network::Regtest),
        Err(ValidationError::SameKey)
    );
    assert_eq!(
        validate(&k1, &k1, b"0", Network::Regtest),
        Err(ValidationError::SameKey)
    );
    let m1 = key("xpub", 'a');
    assert_eq!(
        validate(&m1, &m1, b"9", Network::Main),
        Err(ValidationError::SameKey)
    );
}

#[test]
fn private_material_is_never_accepted() {
    let prv = key("tprv", 'a');
    let k2 = key("tpub", 'b');
    assert_eq!(
        validate(&prv, &k2, b"144", Network::Regtest),
        Err(ValidationError::OwnerKey(KeyError::PrivateMaterial))
    );
    let xprv = key("xprv", 'a');
    assert_eq!(
        validate(&xprv, &k2, b"144", Network::Main),
        Err(ValidationError::OwnerKey(KeyError::PrivateMaterial))
    );
}

#[test]
fn key_shape_errors_are_distinguished() {
    let k2 = key("tpub", 'b');
    assert_eq!(
        validate(b"tpub", &k2, b"144", Network::Regtest),
        Err(ValidationError::OwnerKey(KeyError::Length))
    );
    let bad_prefix = key("zpub", 'a');
    assert_eq!(
        validate(&bad_prefix, &k2, b"144", Network::Regtest),
        Err(ValidationError::OwnerKey(KeyError::Prefix))
    );
    let bad_char = key("tpub", 'l');
    assert_eq!(
        validate(&bad_char, &k2, b"144", Network::Regtest),
        Err(ValidationError::OwnerKey(KeyError::Character))
    );
}

#[test]
fn timelock_errors_are_distinguished() {
    assert_eq!(parse_timelock(b"144"), Ok(144));
    assert_eq!(parse_timelock(b"1"), Ok(1));
    assert_eq!(parse_timelock(b"65535"), Ok(65535));
    assert_eq!(parse_timelock(b"0"), Err(TimelockError::NotPositive));
    assert_eq!(parse_timelock(b"-5"), Err(TimelockError::NotPositive));
    assert_eq!(parse_timelock(b""), Err(TimelockError::NotANumber));
    assert_eq!(parse_timelock(b"12x"), Err(TimelockError::NotANumber));
    assert_eq!(parse_timelock(b"65536"), Err(TimelockError::TooHigh));
    assert_eq!(parse_timelock(b"999999"), Err(TimelockError::TooHigh));
}

#[test]
fn owner_spends_any_time_heir_only_after_timelock() {
    let k1 = key("tpub", 'a');
    let k2 = key("tpub", 'b');
    let d = validate(&k1, &k2, b"144", Network::Regtest).unwrap();
    assert!(can_spend(&d, true, false, 0));
    assert!(can_spend(&d, true, false, 1_000_000));
    assert!(!can_spend(&d, false, true, 0));
    assert!(!can_spend(&d, false, true, 143));
    assert!(can_spend(&d, false, true, 144));
    assert!(can_spend(&d, false, true, 145));
    assert!(!can_spend(&d, false, false, 1_000_000));
}
