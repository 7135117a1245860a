use siren::addr::Address;
use siren::errors::{CloseReason, ConnectError, HandshakeError};
use siren::session::{
    ABNORMAL_CLOSURE, Action, Event, NORMAL_CLOSURE, Session, SessionState, Variant, new_session,
};

fn id16() -> Vec<u8> {
    (1u8..=16).collect()
}

fn vless_domain_handshake(id: &[u8], domain: &[u8], port: u16) -> Vec<u8> {
    let mut b = vec![0u8];
    b.extend_from_slice(id);
    b.push(0);
    b.push(1);
    b.extend_from_slice(&port.to_be_bytes());
    b.push(2);
    b.push(domain.len() as u8);
    b.extend_from_slice(domain);
    b
}

fn relaying_vless_session() -> Session {
    let mut s = new_session(Variant::VLess, id16(), 10);
    let hs = vless_domain_handshake(&id16(), b"example.test", 80);
    let acts = s.step(Event::ClientMessage(hs), 0);
    assert_eq!(acts.len(), 1);
    let acts = s.step(Event::Connected, 0);
    assert!(acts.is_empty());
    assert_eq!(s.state, SessionState::Relaying);
    s
}

#[test]
fn vless_end_to_end_scenario() {
    let mut s = new_session(Variant::VLess, id16(), 10);
    let hs = vless_domain_handshake(&id16(), b"example.test", 80);
    let acts = s.step(Event::ClientMessage(hs), 0);
    assert_eq!(s.state, SessionState::Connecting);
    assert_eq!(acts.len(), 1);
    match &acts[0] {
        Action::Connect(Address::Domain(d), p) => {
            assert_eq!(d, &b"example.test".to_vec());
            assert_eq!(*p, 80);
        }
        _ => panic!("expected a connect action"),
    }

    let acts = s.step(Event::Connected, 0);
    assert!(acts.is_empty());
    assert_eq!(s.state, SessionState::Relaying);

    // the first outbound-direction frame carries the response preamble
    let acts = s.step(Event::OutboundData(b"destination bytes".to_vec()), 0);
    assert_eq!(acts.len(), 1);
    match &acts[0] {
        Action::SendClient(m) => {
            assert_eq!(&m[..2], &[0u8, 0u8]);
            assert_eq!(&m[2..], b"destination bytes");
        }
        _ => panic!("expected a send action"),
    }

    // the second frame has no preamble
    let acts = s.step(Event::OutboundData(b"more".to_vec()), 0);
    match &acts[0] {
        Action::SendClient(m) => assert_eq!(m, &b"more".to_vec()),
        _ => panic!("expected a send action"),
    }

    // graceful end once the destination closes
    let acts = s.step(Event::OutboundEof, 0);
    assert_eq!(s.state, SessionState::Closed);
    assert_eq!(s.close_reason, Some(CloseReason::CleanEof));
    assert_eq!(acts.len(), 2);
    assert!(matches!(acts[0], Action::CloseOutbound));
    assert!(matches!(acts[1], Action::CloseClient(NORMAL_CLOSURE)));
}

#[test]
fn trojan_wrong_hash_never_invokes_connector() {
    let pass = vec![b'a'; 56];
    let mut wrong = pass.clone();
    wrong[55] = b'b';
    let mut s = new_session(Variant::Trojan, pass, 10);
    let mut msg = wrong;
    msg.extend_from_slice(b"\r\n");
    msg.push(1);
    msg.push(1);
    msg.extend_from_slice(&[10, 0, 0, 1]);
    msg.extend_from_slice(&8080u16.to_be_bytes());
    msg.extend_from_slice(b"\r\n");
    let acts = s.step(Event::ClientMessage(msg), 0);
    assert_eq!(s.state, SessionState::Closed);
    assert_eq!(
        s.close_reason,
        Some(CloseReason::Handshake(HandshakeError::AuthFailed))
    );
    assert_eq!(acts.len(), 1);
    assert!(matches!(acts[0], Action::CloseClient(ABNORMAL_CLOSURE)));
    assert!(!acts.iter().any(|a| matches!(a, Action::Connect(..))));
}

#[test]
fn tampered_vless_credential_never_reaches_connecting() {
    let mut tampered = id16();
    tampered[0] ^= 0x80;
    let mut s = new_session(Variant::VLess, id16(), 10);
    let hs = vless_domain_handshake(&tampered, b"example.test", 80);
    let acts = s.step(Event::ClientMessage(hs), 0);
    assert_eq!(s.state, SessionState::Closed);
    assert_eq!(
        s.close_reason,
        Some(CloseReason::Handshake(HandshakeError::AuthFailed))
    );
    assert!(!acts.iter().any(|a| matches!(a, Action::Connect(..))));
}

#[test]
fn not_permitted_connect_closes_abnormally() {
    let mut s = new_session(Variant::VLess, id16(), 10);
    let hs = vless_domain_handshake(&id16(), b"blocked.example", 25);
    let _ = s.step(Event::ClientMessage(hs), 0);
    assert_eq!(s.state, SessionState::Connecting);
    let acts = s.step(Event::ConnectFailed(ConnectError::NotPermitted), 0);
    assert_eq!(s.state, SessionState::Closed);
    assert_eq!(
        s.close_reason,
        Some(CloseReason::Connect(ConnectError::NotPermitted))
    );
    assert_eq!(acts.len(), 1);
    assert!(matches!(acts[0], Action::CloseClient(ABNORMAL_CLOSURE)));
}

#[test]
fn idle_timeout_closes_within_one_cycle() {
    let mut s = relaying_vless_session();
    let acts = s.step(Event::Tick, 0);
    assert!(acts.is_empty());
    let acts = s.step(Event::Tick, 0);
    assert!(acts.is_empty());
    let mut closed_at = None;
    for i in 0..20 {
        if s.state == SessionState::Closed {
            closed_at = Some(i);
            break;
        }
        let _ = s.step(Event::Tick, 0);
    }
    assert!(closed_at.is_some());
    assert_eq!(s.close_reason, Some(CloseReason::IdleTimeout));
}

#[test]
fn activity_resets_the_idle_clock() {
    let mut s = relaying_vless_session();
    for _ in 0..9 {
        let _ = s.step(Event::Tick, 0);
    }
    assert_eq!(s.state, SessionState::Relaying);
    let _ = s.step(Event::ClientMessage(b"ping".to_vec()), 0);
    assert_eq!(s.idle, 0);
    for _ in 0..9 {
        let _ = s.step(Event::Tick, 0);
    }
    assert_eq!(s.state, SessionState::Relaying);
    let _ = s.step(Event::Tick, 0);
    assert_eq!(s.state, SessionState::Closed);
}

#[test]
fn half_close_flushes_before_closing() {
    let mut s = relaying_vless_session();
    let acts = s.step(Event::ClientMessage(b"buffered data".to_vec()), 0);
    assert!(matches!(acts[0], Action::WriteOutbound(_)));
    assert_eq!(s.inflight, 1);
    // the destination reaches EOF while that write is still in flight
    let acts = s.step(Event::OutboundEof, 0);
    assert!(acts.is_empty());
    assert_eq!(s.state, SessionState::Closing);
    // only once the write is flushed is the closure finalized
    let acts = s.step(Event::OutboundWriteDone, 0);
    assert_eq!(s.state, SessionState::Closed);
    assert_eq!(s.close_reason, Some(CloseReason::CleanEof));
    assert_eq!(acts.len(), 2);
    assert!(matches!(acts[0], Action::CloseOutbound));
    assert!(matches!(acts[1], Action::CloseClient(NORMAL_CLOSURE)));
}

#[test]
fn drain_timeout_forces_closure() {
    let mut s = relaying_vless_session();
    let _ = s.step(Event::ClientMessage(b"buffered data".to_vec()), 0);
    let _ = s.step(Event::OutboundEof, 0);
    assert_eq!(s.state, SessionState::Closing);
    let acts = s.step(Event::DrainTimeout, 0);
    assert_eq!(s.state, SessionState::Closed);
    assert_eq!(s.close_reason, Some(CloseReason::DrainTimeout));
    assert_eq!(acts.len(), 2);
    assert!(matches!(acts[0], Action::CloseOutbound));
    assert!(matches!(acts[1], Action::CloseClient(ABNORMAL_CLOSURE)));
}

#[test]
fn failed_outbound_write_is_terminal() {
    let mut s = relaying_vless_session();
    let _ = s.step(Event::ClientMessage(b"data".to_vec()), 0);
    let acts = s.step(Event::OutboundWriteFailed, 0);
    assert_eq!(s.state, SessionState::Closed);
    assert_eq!(s.close_reason, Some(CloseReason::WriteFailed));
    assert_eq!(acts.len(), 2);
    assert!(matches!(acts[0], Action::CloseOutbound));
    assert!(matches!(acts[1], Action::CloseClient(ABNORMAL_CLOSURE)));
}

#[test]
fn client_close_releases_outbound() {
    let mut s = relaying_vless_session();
    let acts = s.step(Event::ClientClosed, 0);
    assert_eq!(s.state, SessionState::Closed);
    assert_eq!(s.close_reason, Some(CloseReason::ClientGone));
    assert_eq!(acts.len(), 1);
    assert!(matches!(acts[0], Action::CloseOutbound));
}

#[test]
fn early_payload_flushed_on_connect() {
    let mut s = new_session(Variant::VLess, id16(), 10);
    let mut msg = vless_domain_handshake(&id16(), b"example.test", 80);
    msg.extend_from_slice(b"early payload");
    let _ = s.step(Event::ClientMessage(msg), 0);
    assert_eq!(s.state, SessionState::Connecting);
    let acts = s.step(Event::Connected, 0);
    assert_eq!(acts.len(), 1);
    match &acts[0] {
        Action::WriteOutbound(w) => assert_eq!(w, &b"early payload".to_vec()),
        _ => panic!("expected a write action"),
    }
    assert_eq!(s.bytes_in, 13);
}

#[test]
fn byte_counters_track_both_directions() {
    let mut s = relaying_vless_session();
    let _ = s.step(Event::ClientMessage(b"12345".to_vec()), 0);
    let _ = s.step(Event::OutboundData(b"123".to_vec()), 0);
    assert_eq!(s.bytes_in, 5);
    assert_eq!(s.bytes_out, 3);
}
