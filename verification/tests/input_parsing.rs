//! Byte-level parsing and rendering: decimal fields, node addresses, and
//! the configuration artifact.

use installer_core::bitcoind::{parse_addr, BitcoindConfig};
use installer_core::bytes::{parse_u16, DecResult};
use installer_core::config::render_config;
use installer_core::descriptor::{render, validate};
use installer_core::network::Network;

fn key(prefix: &str, body: char) -> Vec<u8> {
    let mut s = String::from(prefix);
    for _ in 0..107 {
        s.push(body);
    }
    s.into_bytes()
}

#[test]
fn sixteen_bit_decimal_fields() {
    assert_eq!(parse_u16(b"0"), DecResult::Value(0));
    assert_eq!(parse_u16(b"144"), DecResult::Value(144));
    assert_eq!(parse_u16(b"65535"), DecResult::Value(65535));
    assert_eq!(parse_u16(b"65536"), DecResult::TooBig);
    assert_eq!(parse_u16(b""), DecResult::NotDigits);
    assert_eq!(parse_u16(b"1a"), DecResult::NotDigits);
    assert_eq!(parse_u16(b" 1"), DecResult::NotDigits);
}

#[test]
fn addresses_split_at_the_port_colon() {
    let (host, port) = parse_addr(b"127.0.0.1:8332").unwrap();
    assert_eq!(host, b"127.0.0.1".to_vec());
    assert_eq!(port, 8332);
    let (host, port) = parse_addr(b"node.example:18443").unwrap();
    assert_eq!(host, b"node.example".to_vec());
    assert_eq!(port, 18443);
    assert!(parse_addr(b"localhost").is_none());
    assert!(parse_addr(b"localhost:").is_none());
    assert!(parse_addr(b":8332").is_none());
    assert!(parse_addr(b"host:port").is_none());
    assert!(parse_addr(b"host:99999").is_none());
    assert!(parse_addr(b"bad\nhost:8332").is_none());
    assert!(parse_addr(b"bad\thost:8332").is_none());
}

#[test]
fn artifact_lines_are_stable_and_complete() {
    let k1 = key("tpub", 'a');
    let k2 = key("tpub", 'b');
    let d = validate(&k1, &k2, b"144", Network::Regtest).unwrap();
    let cfg = BitcoindConfig {
        host: b"127.0.0.1".to_vec(),
        port: 18443,
        cookie_path: b"/data/regtest/.cookie".to_vec(),
    };
    let fps: Vec<u32> = vec![0xf1, 0xf2];
    let out = render_config(Network::Regtest, &d, &cfg, &fps);
    let text = String::from_utf8(out).unwrap();
    let lines: Vec<&str> = text.lines().collect();
    assert_eq!(lines.len(), 6);
    assert_eq!(lines[0], "regtest");
    assert_eq!(lines[1], String::from_utf8(render(&d)).unwrap());
    assert_eq!(lines[2], "127.0.0.1:18443");
    assert_eq!(lines[3], "/data/regtest/.cookie");
    assert_eq!(lines[4], "000000f1");
    assert_eq!(lines[5], "000000f2");

    // identical state, identical artifact
    let again = render_config(Network::Regtest, &d, &cfg, &fps);
    assert_eq!(text.into_bytes(), again);
}
