use vstd::prelude::*;
use crate::addr::{AddrV, Address, clone_bytes};
use crate::codec::{AeadCtx, AeadV, CodecCtx, CodecV, subrange_vec};
use crate::crypto::{aead_open, derive_key32, key32_of, nonce12, nonce_of, open_of};
use crate::errors::HandshakeError;
use crate::handshake::{Handshake, HsOut, HsV, ParseResult, res_matches};

verus! {

/// The client-to-server stream key: stretched from the pre-shared key and
/// the connection salt.
pub open spec fn ss_rkey(psk: Seq<u8>, salt: Seq<u8>) -> Seq<u8> {
    key32_of(psk + salt)
}

/// The server-to-client stream key, stretched with the inputs swapped.
pub open spec fn ss_skey(psk: Seq<u8>, salt: Seq<u8>) -> Seq<u8> {
    key32_of(salt + psk)
}

/// The outcome the header carried inside the first decrypted chunk
/// determines: address kind, address, big-endian port; any bytes after
/// the header are the first relayed payload.
pub open spec fn ss_header_parse(pl: Seq<u8>, consumed: int, ctxv: CodecV) -> HsOut {
    if pl.len() < 1 {
        HsOut::Bad(HandshakeError::Malformed)
    } else {
        let at = pl[0];
        if at == 1 {
            if pl.len() < 7 {
                HsOut::Bad(HandshakeError::Malformed)
            } else {
                HsOut::Done {
                    hs: HsV {
                        addr: AddrV::V4(pl.subrange(1, 5)),
                        port: (pl[5] * 256 + pl[6]) as u16,
                    },
                    consumed,
                    ctxv,
                    early: pl.subrange(7, pl.len() as int),
                    preamble: Seq::empty(),
                }
            }
        } else if at == 3 {
            if pl.len() < 2 {
                HsOut::Bad(HandshakeError::Malformed)
            } else {
                let dl = pl[1] as int;
                if dl == 0 {
                    HsOut::Bad(HandshakeError::Malformed)
                } else if pl.len() < 4 + dl {
                    HsOut::Bad(HandshakeError::Malformed)
                } else {
                    HsOut::Done {
                        hs: HsV {
                            addr: AddrV::Domain(pl.subrange(2, 2 + dl)),
                            port: (pl[2 + dl] * 256 + pl[3 + dl]) as u16,
                        },
                        consumed,
                        ctxv,
                        early: pl.subrange(4 + dl, pl.len() as int),
                        preamble: Seq::empty(),
                    }
                }
            }
        } else if at == 4 {
            if pl.len() < 19 {
                HsOut::Bad(HandshakeError::Malformed)
            } else {
                HsOut::Done {
                    hs: HsV {
                        addr: AddrV::V6(pl.subrange(1, 17)),
                        port: (pl[17] * 256 + pl[18]) as u16,
                    },
                    consumed,
                    ctxv,
                    early: pl.subrange(19, pl.len() as int),
                    preamble: Seq::empty(),
                }
            }
        } else {
            HsOut::Bad(HandshakeError::Malformed)
        }
    }
}

/// The outcome the Shadowsocks opening bytes `b` determine against the
/// pre-shared key `psk`: a thirty-two byte salt, then the first sealed
/// chunk pair, whose plaintext opens with the destination header.
pub open spec fn ss_parse(b: Seq<u8>, psk: Seq<u8>) -> HsOut {
    if b.len() < 50 {
        HsOut::More
    } else {
        let salt = b.subrange(0, 32);
        let rk = ss_rkey(psk, salt);
        match open_of(rk, nonce_of(0), b.subrange(32, 50)) {
            Option::None => HsOut::Bad(HandshakeError::AuthFailed),
            Option::Some(l2) => {
                if l2.len() != 2 {
                    HsOut::Bad(HandshakeError::Malformed)
                } else {
                    let ln = (l2[0] * 256 + l2[1]) as int;
                    if b.len() < 66 + ln {
                        HsOut::More
                    } else {
                        match open_of(rk, nonce_of(1), b.subrange(50, 66 + ln)) {
                            Option::None => HsOut::Bad(HandshakeError::AuthFailed),
                            Option::Some(pl) => ss_header_parse(
                                pl,
                                66 + ln,
                                CodecV::Aead(
                                    AeadV {
                                        send_key: ss_skey(psk, salt),
                                        recv_key: rk,
                                        send_ctr: 0,
                                        recv_ctr: 2,
                                        inbuf: Seq::empty(),
                                    },
                                ),
                            ),
                        }
                    }
                }
            },
        }
    }
}

/// Parses a Shadowsocks opening out of the accumulated inbound bytes
/// against the configured pre-shared key.
pub fn parse_ss(buf: &Vec<u8>, psk: &Vec<u8>) -> (r: ParseResult)
    ensures
        res_matches(r, ss_parse(buf@, psk@)),
        r matches ParseResult::Parsed { consumed, .. } ==> consumed <= buf@.len(),
        r matches ParseResult::Parsed { ctx, .. } ==> crate::codec::codec_wf(
            crate::codec::codec_view(ctx),
        ),
        r matches ParseResult::Parsed { hs, .. } ==> crate::addr::addr_wf(
            crate::addr::addr_view(hs.addr),
        ),
{
    if buf.len() < 50 {
        return ParseResult::NeedMoreData;
    }
    let mut rin = clone_bytes(psk);
    let mut salt = subrange_vec(buf, 0, 32);
    rin.append(&mut salt);
    proof {
        assert(rin@ =~= psk@ + buf@.subrange(0, 32));
    }
    let rk = derive_key32(&rin);
    let c1 = subrange_vec(buf, 32, 50);
    let nonce0 = nonce12(0);
    let l2 = match aead_open(&rk, &nonce0, &c1) {
        Some(v) => v,
        None => {
            return ParseResult::Invalid(HandshakeError::AuthFailed);
        },
    };
    if l2.len() != 2 {
        return ParseResult::Invalid(HandshakeError::Malformed);
    }
    let ln = (l2[0] as usize) * 256 + (l2[1] as usize);
    if buf.len() < 66 + ln {
        return ParseResult::NeedMoreData;
    }
    let c2 = subrange_vec(buf, 50, 66 + ln);
    let nonce1 = nonce12(1);
    let pl = match aead_open(&rk, &nonce1, &c2) {
        Some(v) => v,
        None => {
            return ParseResult::Invalid(HandshakeError::AuthFailed);
        },
    };
    let mut sin = subrange_vec(buf, 0, 32);
    let mut pskc = clone_bytes(psk);
    sin.append(&mut pskc);
    proof {
        assert(sin@ =~= buf@.subrange(0, 32) + psk@);
    }
    let sk = derive_key32(&sin);
    let ctx = CodecCtx::Aead(
        AeadCtx { send_key: sk, recv_key: rk, send_ctr: 0, recv_ctr: 2, inbuf: Vec::new() },
    );
    if pl.len() < 1 {
        return ParseResult::Invalid(HandshakeError::Malformed);
    }
    let at = pl[0];
    if at == 1 {
        if pl.len() < 7 {
            return ParseResult::Invalid(HandshakeError::Malformed);
        }
        let a = subrange_vec(&pl, 1, 5);
        let port = (pl[5] as u16) * 256 + (pl[6] as u16);
        let early = subrange_vec(&pl, 7, pl.len());
        ParseResult::Parsed {
            hs: Handshake { addr: Address::V4(a), port },
            consumed: 66 + ln,
            ctx,
            early,
            preamble: Vec::new(),
        }
    } else if at == 3 {
        if pl.len() < 2 {
            return ParseResult::Invalid(HandshakeError::Malformed);
        }
        let dl = pl[1] as usize;
        if dl == 0 {
            return ParseResult::Invalid(HandshakeError::Malformed);
        }
        if pl.len() < 4 + dl {
            return ParseResult::Invalid(HandshakeError::Malformed);
        }
        let a = subrange_vec(&pl, 2, 2 + dl);
        let port = (pl[2 + dl] as u16) * 256 + (pl[3 + dl] as u16);
        let early = subrange_vec(&pl, 4 + dl, pl.len());
        ParseResult::Parsed {
            hs: Handshake { addr: Address::Domain(a), port },
            consumed: 66 + ln,
            ctx,
            early,
            preamble: Vec::new(),
        }
    } else if at == 4 {
        if pl.len() < 19 {
            return ParseResult::Invalid(HandshakeError::Malformed);
        }
        let a = subrange_vec(&pl, 1, 17);
        let port = (pl[17] as u16) * 256 + (pl[18] as u16);
        let early = subrange_vec(&pl, 19, pl.len());
        ParseResult::Parsed {
            hs: Handshake { addr: Address::V6(a), port },
            consumed: 66 + ln,
            ctx,
            early,
            preamble: Vec::new(),
        }
    } else {
        ParseResult::Invalid(HandshakeError::Malformed)
    }
}

} // verus!
