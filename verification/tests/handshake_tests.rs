use siren::addr::Address;
use siren::errors::HandshakeError;
use siren::handshake::{ParseResult, parse_trojan, parse_vless};

fn id16() -> Vec<u8> {
    (1u8..=16).collect()
}

fn vless_domain_handshake(id: &[u8], domain: &[u8], port: u16) -> Vec<u8> {
    let mut b = vec![0u8];
    b.extend_from_slice(id);
    b.push(0); // no addons
    b.push(1); // connect
    b.extend_from_slice(&port.to_be_bytes());
    b.push(2); // domain
    b.push(domain.len() as u8);
    b.extend_from_slice(domain);
    b
}

fn trojan_v4_handshake(pass: &[u8], addr: [u8; 4], port: u16) -> Vec<u8> {
    let mut b = pass.to_vec();
    b.extend_from_slice(b"\r\n");
    b.push(1); // connect
    b.push(1); // ipv4
    b.extend_from_slice(&addr);
    b.extend_from_slice(&port.to_be_bytes());
    b.extend_from_slice(b"\r\n");
    b
}

#[test]
fn vless_domain_parses() {
    let id = id16();
    let b = vless_domain_handshake(&id, b"example.test", 80);
    match parse_vless(&b, &id) {
        ParseResult::Parsed { hs, consumed, early, preamble, .. } => {
            assert_eq!(consumed, b.len());
            assert_eq!(hs.port, 80);
            match hs.addr {
                Address::Domain(d) => assert_eq!(d, b"example.test".to_vec()),
                _ => panic!("wrong address kind"),
            }
            assert!(early.is_empty());
            assert_eq!(preamble, vec![0u8, 0u8]);
        }
        _ => panic!("expected a parsed handshake"),
    }
}

#[test]
fn vless_trailing_bytes_counted_once() {
    let id = id16();
    let mut b = vless_domain_handshake(&id, b"h.example", 443);
    let hs_len = b.len();
    b.extend_from_slice(b"early payload");
    match parse_vless(&b, &id) {
        ParseResult::Parsed { consumed, .. } => assert_eq!(consumed, hs_len),
        _ => panic!("expected a parsed handshake"),
    }
}

#[test]
fn vless_split_matches_one_shot() {
    let id = id16();
    let b = vless_domain_handshake(&id, b"example.test", 80);
    for cut in 0..b.len() {
        match parse_vless(&b[..cut].to_vec(), &id) {
            ParseResult::NeedMoreData => {}
            ParseResult::Invalid(e) => panic!("prefix of length {cut} rejected: {e:?}"),
            ParseResult::Parsed { consumed, .. } => assert!(consumed <= cut),
        }
    }
    assert!(matches!(parse_vless(&b, &id), ParseResult::Parsed { .. }));
}

#[test]
fn vless_wrong_uuid_rejected() {
    let id = id16();
    let mut other = id16();
    other[7] ^= 0xff;
    let b = vless_domain_handshake(&other, b"example.test", 80);
    assert!(matches!(
        parse_vless(&b, &id),
        ParseResult::Invalid(HandshakeError::AuthFailed)
    ));
}

#[test]
fn vless_udp_command_rejected() {
    let id = id16();
    let mut b = vless_domain_handshake(&id, b"example.test", 80);
    b[18] = 2; // udp
    assert!(matches!(
        parse_vless(&b, &id),
        ParseResult::Invalid(HandshakeError::UnsupportedCommand)
    ));
}

#[test]
fn vless_bad_address_kind_rejected() {
    let id = id16();
    let mut b = vless_domain_handshake(&id, b"example.test", 80);
    b[21] = 9;
    assert!(matches!(
        parse_vless(&b, &id),
        ParseResult::Invalid(HandshakeError::Malformed)
    ));
}

#[test]
fn trojan_v4_parses() {
    let pass = vec![b'a'; 56];
    let b = trojan_v4_handshake(&pass, [10, 0, 0, 1], 8080);
    match parse_trojan(&b, &pass) {
        ParseResult::Parsed { hs, consumed, .. } => {
            assert_eq!(consumed, b.len());
            assert_eq!(hs.port, 8080);
            match hs.addr {
                Address::V4(a) => assert_eq!(a, vec![10, 0, 0, 1]),
                _ => panic!("wrong address kind"),
            }
        }
        _ => panic!("expected a parsed handshake"),
    }
}

#[test]
fn trojan_wrong_password_same_length_rejected() {
    let pass = vec![b'a'; 56];
    let mut wrong = pass.clone();
    wrong[0] = b'b';
    let b = trojan_v4_handshake(&wrong, [10, 0, 0, 1], 8080);
    assert!(matches!(
        parse_trojan(&b, &pass),
        ParseResult::Invalid(HandshakeError::AuthFailed)
    ));
}

#[test]
fn trojan_missing_crlf_rejected() {
    let pass = vec![b'a'; 56];
    let mut b = trojan_v4_handshake(&pass, [10, 0, 0, 1], 8080);
    b[56] = b'x';
    assert!(matches!(
        parse_trojan(&b, &pass),
        ParseResult::Invalid(HandshakeError::Malformed)
    ));
}

#[test]
fn trojan_split_matches_one_shot() {
    let pass = vec![b'c'; 56];
    let b = trojan_v4_handshake(&pass, [1, 2, 3, 4], 443);
    for cut in 0..b.len() {
        match parse_trojan(&b[..cut].to_vec(), &pass) {
            ParseResult::NeedMoreData => {}
            ParseResult::Invalid(e) => panic!("prefix of length {cut} rejected: {e:?}"),
            ParseResult::Parsed { consumed, .. } => assert!(consumed <= cut),
        }
    }
    assert!(matches!(parse_trojan(&b, &pass), ParseResult::Parsed { .. }));
}
