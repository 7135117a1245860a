use vstd::prelude::*;
use crate::addr::{AddrV, Address, clone_bytes};
use crate::codec::{AeadCtx, AeadV, CodecCtx, CodecV, subrange_vec};
use crate::crypto::{aead_open, derive_key32, key32_of, md5_digest, md5_of, nonce12, nonce_of, open_of};
use crate::errors::HandshakeError;
use crate::handshake::{Handshake, HsOut, HsV, ParseResult, bytes_eq_at, res_matches};

verus! {

/// How far, in seconds, a handshake timestamp may lie from the server's
/// clock and still authenticate.
pub const TIME_WINDOW: u64 = 120;

/// Whether a client timestamp falls inside the acceptance window.
pub open spec fn in_window(ts: u64, now: u64) -> bool {
    (if ts >= now {
        ts - now
    } else {
        now - ts
    }) <= TIME_WINDOW
}

/// The numeric value of the eight-byte big-endian timestamp.
pub open spec fn ts_of(b: Seq<u8>) -> u64
    recommends
        b.len() >= 8,
{
    ((b[0] as u64) << 56u64) | ((b[1] as u64) << 48u64) | ((b[2] as u64) << 40u64) | ((b[3] as u64)
        << 32u64) | ((b[4] as u64) << 24u64) | ((b[5] as u64) << 16u64) | ((b[6] as u64) << 8u64)
        | (b[7] as u64)
}

/// The header key of a VMess envelope: stretched from the credential and
/// the timestamp bytes under a fixed key label.
pub open spec fn vmess_hkey(id: Seq<u8>, ts8: Seq<u8>) -> Seq<u8> {
    key32_of(id + ts8 + seq![0u8])
}

/// The server-to-client stream key of a VMess envelope.
pub open spec fn vmess_skey(id: Seq<u8>, ts8: Seq<u8>) -> Seq<u8> {
    key32_of(id + ts8 + seq![1u8])
}

/// The outcome of a decrypted VMess header block: command, security
/// option, address kind, address, big-endian port, with nothing trailing.
pub open spec fn vmess_header_parse(h: Seq<u8>, consumed: int, ctxv: CodecV) -> HsOut {
    if h.len() < 3 {
        HsOut::Bad(HandshakeError::Malformed)
    } else if h[0] != 1 {
        HsOut::Bad(HandshakeError::UnsupportedCommand)
    } else if h[1] > 2 {
        HsOut::Bad(HandshakeError::Malformed)
    } else {
        let at = h[2];
        if at == 1 {
            if h.len() != 9 {
                HsOut::Bad(HandshakeError::Malformed)
            } else {
                HsOut::Done {
                    hs: HsV { addr: AddrV::V4(h.subrange(3, 7)), port: (h[7] * 256 + h[8]) as u16 },
                    consumed,
                    ctxv,
                    early: Seq::empty(),
                    preamble: Seq::empty(),
                }
            }
        } else if at == 2 {
            if h.len() < 4 {
                HsOut::Bad(HandshakeError::Malformed)
            } else {
                let dl = h[3] as int;
                if dl == 0 {
                    HsOut::Bad(HandshakeError::Malformed)
                } else if h.len() != 6 + dl {
                    HsOut::Bad(HandshakeError::Malformed)
                } else {
                    HsOut::Done {
                        hs: HsV {
                            addr: AddrV::Domain(h.subrange(4, 4 + dl)),
                            port: (h[4 + dl] * 256 + h[5 + dl]) as u16,
                        },
                        consumed,
                        ctxv,
                        early: Seq::empty(),
                        preamble: Seq::empty(),
                    }
                }
            }
        } else if at == 3 {
            if h.len() != 21 {
                HsOut::Bad(HandshakeError::Malformed)
            } else {
                HsOut::Done {
                    hs: HsV {
                        addr: AddrV::V6(h.subrange(3, 19)),
                        port: (h[19] * 256 + h[20]) as u16,
                    },
                    consumed,
                    ctxv,
                    early: Seq::empty(),
                    preamble: Seq::empty(),
                }
            }
        } else {
            HsOut::Bad(HandshakeError::Malformed)
        }
    }
}

/// The outcome the VMess envelope bytes `b` determine against credential
/// `id` at server time `now`: an eight-byte big-endian timestamp, the
/// sixteen-byte authentication digest of timestamp and credential, a
/// two-byte big-endian sealed-header length, and the sealed header.
pub open spec fn vmess_parse(b: Seq<u8>, id: Seq<u8>, now: u64) -> HsOut {
    if b.len() < 24 {
        HsOut::More
    } else if !in_window(ts_of(b.subrange(0, 8)), now) {
        HsOut::Bad(HandshakeError::AuthFailed)
    } else if b.subrange(8, 24) != md5_of(b.subrange(0, 8) + id) {
        HsOut::Bad(HandshakeError::AuthFailed)
    } else if b.len() < 26 {
        HsOut::More
    } else {
        let hlen = (b[24] * 256 + b[25]) as int;
        if b.len() < 26 + hlen {
            HsOut::More
        } else {
            let ts8 = b.subrange(0, 8);
            match open_of(vmess_hkey(id, ts8), nonce_of(0), b.subrange(26, 26 + hlen)) {
                Option::None => HsOut::Bad(HandshakeError::Malformed),
                Option::Some(h) => vmess_header_parse(
                    h,
                    26 + hlen,
                    CodecV::Aead(
                        AeadV {
                            send_key: vmess_skey(id, ts8),
                            recv_key: vmess_hkey(id, ts8),
                            send_ctr: 0,
                            recv_ctr: 2,
                            inbuf: Seq::empty(),
                        },
                    ),
                ),
            }
        }
    }
}

/// Parses a VMess envelope out of the accumulated inbound bytes against
/// the configured credential and the server clock.
pub fn parse_vmess(buf: &Vec<u8>, id: &Vec<u8>, now: u64) -> (r: ParseResult)
    requires
        id@.len() == 16,
    ensures
        res_matches(r, vmess_parse(buf@, id@, now)),
        r matches ParseResult::Parsed { consumed, .. } ==> consumed <= buf@.len(),
        r matches ParseResult::Parsed { ctx, .. } ==> crate::codec::codec_wf(
            crate::codec::codec_view(ctx),
        ),
        r matches ParseResult::Parsed { hs, .. } ==> crate::addr::addr_wf(
            crate::addr::addr_view(hs.addr),
        ),
{
    if buf.len() < 24 {
        return ParseResult::NeedMoreData;
    }
    let ts: u64 = ((buf[0] as u64) << 56u64) | ((buf[1] as u64) << 48u64) | ((buf[2] as u64)
        << 40u64) | ((buf[3] as u64) << 32u64) | ((buf[4] as u64) << 24u64) | ((buf[5] as u64)
        << 16u64) | ((buf[6] as u64) << 8u64) | (buf[7] as u64);
    proof {
        assert(ts == ts_of(buf@.subrange(0, 8)));
    }
    let skew = if ts >= now {
        ts - now
    } else {
        now - ts
    };
    if skew > TIME_WINDOW {
        return ParseResult::Invalid(HandshakeError::AuthFailed);
    }
    let mut ain = subrange_vec(buf, 0, 8);
    let mut idc = clone_bytes(id);
    ain.append(&mut idc);
    proof {
        assert(ain@ =~= buf@.subrange(0, 8) + id@);
    }
    let digest = md5_digest(&ain);
    if !bytes_eq_at(buf, 8, &digest) {
        return ParseResult::Invalid(HandshakeError::AuthFailed);
    }
    if buf.len() < 26 {
        return ParseResult::NeedMoreData;
    }
    let hlen = (buf[24] as usize) * 256 + (buf[25] as usize);
    if buf.len() < 26 + hlen {
        return ParseResult::NeedMoreData;
    }
    let mut kin = clone_bytes(id);
    let mut ts8v = subrange_vec(buf, 0, 8);
    kin.append(&mut ts8v);
    kin.push(0u8);
    proof {
        assert(kin@ =~= id@ + buf@.subrange(0, 8) + seq![0u8]);
    }
    let hkey = derive_key32(&kin);
    let sealed = subrange_vec(buf, 26, 26 + hlen);
    let nonce0 = nonce12(0);
    let h = match aead_open(&hkey, &nonce0, &sealed) {
        Some(v) => v,
        None => {
            return ParseResult::Invalid(HandshakeError::Malformed);
        },
    };
    let mut sin = clone_bytes(id);
    let mut ts8w = subrange_vec(buf, 0, 8);
    sin.append(&mut ts8w);
    sin.push(1u8);
    proof {
        assert(sin@ =~= id@ + buf@.subrange(0, 8) + seq![1u8]);
    }
    let skey = derive_key32(&sin);
    let ctx = CodecCtx::Aead(
        AeadCtx { send_key: skey, recv_key: hkey, send_ctr: 0, recv_ctr: 2, inbuf: Vec::new() },
    );
    if h.len() < 3 {
        return ParseResult::Invalid(HandshakeError::Malformed);
    }
    if h[0] != 1 {
        return ParseResult::Invalid(HandshakeError::UnsupportedCommand);
    }
    if h[1] > 2 {
        return ParseResult::Invalid(HandshakeError::Malformed);
    }
    let at = h[2];
    if at == 1 {
        if h.len() != 9 {
            return ParseResult::Invalid(HandshakeError::Malformed);
        }
        let a = subrange_vec(&h, 3, 7);
        let port = (h[7] as u16) * 256 + (h[8] as u16);
        ParseResult::Parsed {
            hs: Handshake { addr: Address::V4(a), port },
            consumed: 26 + hlen,
            ctx,
            early: Vec::new(),
            preamble: Vec::new(),
        }
    } else if at == 2 {
        if h.len() < 4 {
            return ParseResult::Invalid(HandshakeError::Malformed);
        }
        let dl = h[3] as usize;
        if dl == 0 {
            return ParseResult::Invalid(HandshakeError::Malformed);
        }
        if h.len() != 6 + dl {
            return ParseResult::Invalid(HandshakeError::Malformed);
        }
        let a = subrange_vec(&h, 4, 4 + dl);
        let port = (h[4 + dl] as u16) * 256 + (h[5 + dl] as u16);
        ParseResult::Parsed {
            hs: Handshake { addr: Address::Domain(a), port },
            consumed: 26 + hlen,
            ctx,
            early: Vec::new(),
            preamble: Vec::new(),
        }
    } else if at == 3 {
        if h.len() != 21 {
            return ParseResult::Invalid(HandshakeError::Malformed);
        }
        let a = subrange_vec(&h, 3, 19);
        let port = (h[19] as u16) * 256 + (h[20] as u16);
        ParseResult::Parsed {
            hs: Handshake { addr: Address::V6(a), port },
            consumed: 26 + hlen,
            ctx,
            early: Vec::new(),
            preamble: Vec::new(),
        }
    } else {
        ParseResult::Invalid(HandshakeError::Malformed)
    }
}

} // verus!
