use siren::codec::{
    AeadCtx, CodecCtx, codec_round_trip_split, codec_round_trip_stream, decode_inbound,
    encode_outbound,
};
use siren::errors::CodecError;

fn key() -> Vec<u8> {
    vec![7u8; 32]
}

fn fresh_pair() -> (CodecCtx, CodecCtx) {
    let enc = CodecCtx::Aead(AeadCtx {
        send_key: key(),
        recv_key: key(),
        send_ctr: 0,
        recv_ctr: 0,
        inbuf: Vec::new(),
    });
    let dec = CodecCtx::Aead(AeadCtx {
        send_key: key(),
        recv_key: key(),
        send_ctr: 0,
        recv_ctr: 0,
        inbuf: Vec::new(),
    });
    (enc, dec)
}

#[test]
fn round_trip_whole_message() {
    let p = b"hello tunnel payload".to_vec();
    let r = codec_round_trip_split(&key(), &p, usize::MAX);
    assert_eq!(r.unwrap(), p);
}

#[test]
fn round_trip_every_early_cut() {
    let p = b"split me anywhere".to_vec();
    for cut in 0..(34 + p.len() + 1) {
        let r = codec_round_trip_split(&key(), &p, cut);
        assert_eq!(r.unwrap(), p, "cut at {cut}");
    }
}

#[test]
fn round_trip_empty_payload() {
    let p: Vec<u8> = Vec::new();
    let r = codec_round_trip_split(&key(), &p, 3);
    assert_eq!(r.unwrap(), p);
}

#[test]
fn encode_then_decode_directly() {
    let (mut enc, mut dec) = fresh_pair();
    let p = b"frame one".to_vec();
    let w = encode_outbound(&mut enc, &p);
    assert_eq!(w.len(), p.len() + 34);
    assert_ne!(&w[..], &p[..]);
    let out = decode_inbound(&mut dec, &w).unwrap();
    assert_eq!(out, p);
    let p2 = b"frame two".to_vec();
    let w2 = encode_outbound(&mut enc, &p2);
    let out2 = decode_inbound(&mut dec, &w2).unwrap();
    assert_eq!(out2, p2);
}

#[test]
fn tampered_chunk_is_terminal() {
    let (mut enc, mut dec) = fresh_pair();
    let p = b"sensitive".to_vec();
    let mut w = encode_outbound(&mut enc, &p);
    let last = w.len() - 1;
    w[last] ^= 0x41;
    let r = decode_inbound(&mut dec, &w);
    assert_eq!(r.unwrap_err(), CodecError::TamperedOrCorrupt);
}

#[test]
fn tampered_length_chunk_is_terminal() {
    let (mut enc, mut dec) = fresh_pair();
    let p = b"sensitive".to_vec();
    let mut w = encode_outbound(&mut enc, &p);
    w[0] ^= 0x01;
    let r = decode_inbound(&mut dec, &w);
    assert_eq!(r.unwrap_err(), CodecError::TamperedOrCorrupt);
}

#[test]
fn round_trip_two_frames_in_order() {
    let p1 = b"first frame".to_vec();
    let p2 = b"second frame".to_vec();
    let (o1, o2) = codec_round_trip_stream(&key(), &p1, &p2).unwrap();
    assert_eq!(o1, p1);
    assert_eq!(o2, p2);
}

#[test]
fn two_frames_packed_into_one_message() {
    let (mut enc, mut dec) = fresh_pair();
    let p1 = b"first frame".to_vec();
    let p2 = b"second frame".to_vec();
    let w1 = encode_outbound(&mut enc, &p1);
    let w2 = encode_outbound(&mut enc, &p2);
    let packed = [w1, w2].concat();
    let out = decode_inbound(&mut dec, &packed).unwrap();
    assert_eq!(out, [p1, p2].concat());
}

#[test]
fn plain_codec_is_identity() {
    let mut ctx = CodecCtx::Plain;
    let p = b"untouched".to_vec();
    let w = encode_outbound(&mut ctx, &p);
    assert_eq!(w, p);
    let out = decode_inbound(&mut ctx, &w).unwrap();
    assert_eq!(out, p);
}

#[test]
fn partial_then_rest_concatenates() {
    let (mut enc, mut dec) = fresh_pair();
    let p = b"a payload cut mid-chunk".to_vec();
    let w = encode_outbound(&mut enc, &p);
    let cut = 20;
    let first = decode_inbound(&mut dec, &w[..cut].to_vec()).unwrap();
    assert!(first.is_empty());
    let second = decode_inbound(&mut dec, &w[cut..].to_vec()).unwrap();
    assert_eq!(second, p);
}
