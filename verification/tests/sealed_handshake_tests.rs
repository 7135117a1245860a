use aes_gcm::KeyInit;
use aes_gcm::aead::Aead;
use md5::Digest;
use siren::addr::Address;
use siren::errors::HandshakeError;
use siren::handshake::ParseResult;
use siren::shadowsocks::parse_ss;
use siren::vmess::parse_vmess;

fn md5v(data: &[u8]) -> Vec<u8> {
    md5::Md5::digest(data).to_vec()
}

fn key32(m: &[u8]) -> Vec<u8> {
    let a = md5v(m);
    let b = md5v(&a);
    [a, b].concat()
}

fn seal(key: &[u8], ctr: u64, p: &[u8]) -> Vec<u8> {
    let c = aes_gcm::Aes256Gcm::new_from_slice(key).unwrap();
    let mut n = [0u8; 12];
    n[..8].copy_from_slice(&ctr.to_le_bytes());
    let nonce = aes_gcm::aead::Nonce::<aes_gcm::Aes256Gcm>::try_from(&n[..]).unwrap();
    c.encrypt(&nonce, p).unwrap()
}

fn vmess_envelope(id: &[u8], now: u64, header: &[u8]) -> Vec<u8> {
    let ts8 = now.to_be_bytes();
    let auth = md5v(&[&ts8[..], id].concat());
    let hkey = key32(&[id, &ts8[..], &[0u8]].concat());
    let sealed = seal(&hkey, 0, header);
    let mut env = ts8.to_vec();
    env.extend_from_slice(&auth);
    env.extend_from_slice(&(sealed.len() as u16).to_be_bytes());
    env.extend_from_slice(&sealed);
    env
}

#[test]
fn vmess_domain_envelope_parses() {
    let id: Vec<u8> = (1u8..=16).collect();
    let now = 1700000000u64;
    let domain = b"example.test";
    let mut header = vec![1u8, 0u8, 2u8, domain.len() as u8];
    header.extend_from_slice(domain);
    header.extend_from_slice(&80u16.to_be_bytes());
    let env = vmess_envelope(&id, now, &header);
    match parse_vmess(&env, &id, now) {
        ParseResult::Parsed { hs, consumed, .. } => {
            assert_eq!(consumed, env.len());
            assert_eq!(hs.port, 80);
            match hs.addr {
                Address::Domain(d) => assert_eq!(d, domain.to_vec()),
                _ => panic!("wrong address kind"),
            }
        }
        other => panic!("expected a parsed handshake, got {:?}", kind(&other)),
    }
}

#[test]
fn vmess_wrong_credential_rejected() {
    let id: Vec<u8> = (1u8..=16).collect();
    let mut other = id.clone();
    other[3] ^= 0x55;
    let now = 1700000000u64;
    let header = [1u8, 0, 1, 10, 0, 0, 1, 0, 80].to_vec();
    let env = vmess_envelope(&other, now, &header);
    assert!(matches!(
        parse_vmess(&env, &id, now),
        ParseResult::Invalid(HandshakeError::AuthFailed)
    ));
}

#[test]
fn vmess_stale_timestamp_rejected() {
    let id: Vec<u8> = (1u8..=16).collect();
    let now = 1700000000u64;
    let header = [1u8, 0, 1, 10, 0, 0, 1, 0, 80].to_vec();
    let env = vmess_envelope(&id, now, &header);
    assert!(matches!(
        parse_vmess(&env, &id, now + 500),
        ParseResult::Invalid(HandshakeError::AuthFailed)
    ));
}

#[test]
fn vmess_udp_command_rejected() {
    let id: Vec<u8> = (1u8..=16).collect();
    let now = 1700000000u64;
    let header = [2u8, 0, 1, 10, 0, 0, 1, 0, 80].to_vec();
    let env = vmess_envelope(&id, now, &header);
    assert!(matches!(
        parse_vmess(&env, &id, now),
        ParseResult::Invalid(HandshakeError::UnsupportedCommand)
    ));
}

#[test]
fn shadowsocks_v4_header_with_early_payload_parses() {
    let psk = b"pre-shared-secret".to_vec();
    let salt = [9u8; 32];
    let rk = key32(&[&psk[..], &salt[..]].concat());
    let mut hdr = vec![1u8, 10, 0, 0, 1];
    hdr.extend_from_slice(&53u16.to_be_bytes());
    hdr.extend_from_slice(b"first bytes");
    let c1 = seal(&rk, 0, &(hdr.len() as u16).to_be_bytes());
    let c2 = seal(&rk, 1, &hdr);
    let buf = [&salt[..], &c1[..], &c2[..]].concat();
    match parse_ss(&buf, &psk) {
        ParseResult::Parsed { hs, consumed, early, .. } => {
            assert_eq!(consumed, buf.len());
            assert_eq!(hs.port, 53);
            match hs.addr {
                Address::V4(a) => assert_eq!(a, vec![10, 0, 0, 1]),
                _ => panic!("wrong address kind"),
            }
            assert_eq!(early, b"first bytes".to_vec());
        }
        other => panic!("expected a parsed handshake, got {:?}", kind(&other)),
    }
}

#[test]
fn shadowsocks_wrong_psk_rejected() {
    let psk = b"pre-shared-secret".to_vec();
    let salt = [9u8; 32];
    let rk = key32(&[&psk[..], &salt[..]].concat());
    let hdr = vec![1u8, 10, 0, 0, 1, 0, 53];
    let c1 = seal(&rk, 0, &(hdr.len() as u16).to_be_bytes());
    let c2 = seal(&rk, 1, &hdr);
    let buf = [&salt[..], &c1[..], &c2[..]].concat();
    let other = b"another-secret!!!".to_vec();
    assert!(matches!(
        parse_ss(&buf, &other),
        ParseResult::Invalid(HandshakeError::AuthFailed)
    ));
}

fn kind(r: &ParseResult) -> &'static str {
    match r {
        ParseResult::NeedMoreData => "NeedMoreData",
        ParseResult::Invalid(_) => "Invalid",
        ParseResult::Parsed { .. } => "Parsed",
    }
}
