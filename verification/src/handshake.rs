use vstd::prelude::*;
use crate::addr::{AddrV, Address, addr_view};
use crate::codec::{CodecCtx, CodecV, codec_view};
use crate::errors::HandshakeError;

verus! {

/// The record a successful handshake yields: the requested destination.
pub struct Handshake {
    pub addr: Address,
    pub port: u16,
}

/// What a parser returns: wait for more bytes, reject terminally, or the
/// parsed handshake with the count of bytes consumed, the frame state for
/// the rest of the stream, any plaintext that travelled inside the
/// handshake itself, and the one-time response preamble owed to the client.
pub enum ParseResult {
    NeedMoreData,
    Invalid(HandshakeError),
    Parsed { hs: Handshake, consumed: usize, ctx: CodecCtx, early: Vec<u8>, preamble: Vec<u8> },
}

/// The mathematical value of a parsed handshake.
pub struct HsV {
    pub addr: AddrV,
    pub port: u16,
}

/// The mathematical value of a parser outcome.
pub enum HsOut {
    More,
    Bad(HandshakeError),
    Done { hs: HsV, consumed: int, ctxv: CodecV, early: Seq<u8>, preamble: Seq<u8> },
}

/// Whether an executable parse result carries exactly the outcome `s`.
pub open spec fn res_matches(r: ParseResult, s: HsOut) -> bool {
    match (r, s) {
        (ParseResult::NeedMoreData, HsOut::More) => true,
        (ParseResult::Invalid(e), HsOut::Bad(e2)) => e == e2,
        (
            ParseResult::Parsed { hs, consumed, ctx, early, preamble },
            HsOut::Done { hs: h2, consumed: n2, ctxv, early: e2, preamble: p2 },
        ) => addr_view(hs.addr) == h2.addr && hs.port == h2.port && consumed as int == n2
            && codec_view(ctx) == ctxv && early@ == e2 && preamble@ == p2,
        _ => false,
    }
}

/// The outcome the VLess handshake bytes `b` determine against the
/// configured credential `id` (sixteen bytes): version, credential,
/// addon block, command, big-endian port, address kind, address.
pub open spec fn vless_parse(b: Seq<u8>, id: Seq<u8>) -> HsOut {
    if b.len() < 17 {
        HsOut::More
    } else if b.subrange(1, 17) != id {
        HsOut::Bad(HandshakeError::AuthFailed)
    } else if b.len() < 18 {
        HsOut::More
    } else {
        let al = b[17] as int;
        if b.len() < 19 + al {
            HsOut::More
        } else if b[18 + al] != 1 {
            HsOut::Bad(HandshakeError::UnsupportedCommand)
        } else if b.len() < 22 + al {
            HsOut::More
        } else {
            let port = (b[19 + al] * 256 + b[20 + al]) as u16;
            let at = b[21 + al];
            if at == 1 {
                if b.len() < 26 + al {
                    HsOut::More
                } else {
                    HsOut::Done {
                        hs: HsV { addr: AddrV::V4(b.subrange(22 + al, 26 + al)), port },
                        consumed: 26 + al,
                        ctxv: CodecV::Plain,
                        early: Seq::empty(),
                        preamble: seq![b[0], 0u8],
                    }
                }
            } else if at == 2 {
                if b.len() < 23 + al {
                    HsOut::More
                } else {
                    let dl = b[22 + al] as int;
                    if dl == 0 {
                        HsOut::Bad(HandshakeError::Malformed)
                    } else if b.len() < 23 + al + dl {
                        HsOut::More
                    } else {
                        HsOut::Done {
                            hs: HsV {
                                addr: AddrV::Domain(b.subrange(23 + al, 23 + al + dl)),
                                port,
                            },
                            consumed: 23 + al + dl,
                            ctxv: CodecV::Plain,
                            early: Seq::empty(),
                            preamble: seq![b[0], 0u8],
                        }
                    }
                }
            } else if at == 3 {
                if b.len() < 38 + al {
                    HsOut::More
                } else {
                    HsOut::Done {
                        hs: HsV { addr: AddrV::V6(b.subrange(22 + al, 38 + al)), port },
                        consumed: 38 + al,
                        ctxv: CodecV::Plain,
                        early: Seq::empty(),
                        preamble: seq![b[0], 0u8],
                    }
                }
            } else {
                HsOut::Bad(HandshakeError::Malformed)
            }
        }
    }
}

/// The outcome the Trojan handshake bytes `b` determine against the
/// configured hex password digest `pass` (fifty-six bytes): password,
/// carriage return and line feed, command, address kind, address,
/// big-endian port, carriage return and line feed.
pub open spec fn trojan_parse(b: Seq<u8>, pass: Seq<u8>) -> HsOut {
    if b.len() < 56 {
        HsOut::More
    } else if b.subrange(0, 56) != pass {
        HsOut::Bad(HandshakeError::AuthFailed)
    } else if b.len() < 58 {
        HsOut::More
    } else if b[56] != 13 || b[57] != 10 {
        HsOut::Bad(HandshakeError::Malformed)
    } else if b.len() < 59 {
        HsOut::More
    } else if b[58] != 1 {
        HsOut::Bad(HandshakeError::UnsupportedCommand)
    } else if b.len() < 60 {
        HsOut::More
    } else {
        let at = b[59];
        if at == 1 {
            if b.len() < 68 {
                HsOut::More
            } else if b[66] != 13 || b[67] != 10 {
                HsOut::Bad(HandshakeError::Malformed)
            } else {
                HsOut::Done {
                    hs: HsV {
                        addr: AddrV::V4(b.subrange(60, 64)),
                        port: (b[64] * 256 + b[65]) as u16,
                    },
                    consumed: 68,
                    ctxv: CodecV::Plain,
                    early: Seq::empty(),
                    preamble: Seq::empty(),
                }
            }
        } else if at == 3 {
            if b.len() < 61 {
                HsOut::More
            } else {
                let dl = b[60] as int;
                if dl == 0 {
                    HsOut::Bad(HandshakeError::Malformed)
                } else if b.len() < 65 + dl {
                    HsOut::More
                } else if b[61 + dl + 2] != 13 || b[61 + dl + 3] != 10 {
                    HsOut::Bad(HandshakeError::Malformed)
                } else {
                    HsOut::Done {
                        hs: HsV {
                            addr: AddrV::Domain(b.subrange(61, 61 + dl)),
                            port: (b[61 + dl] * 256 + b[61 + dl + 1]) as u16,
                        },
                        consumed: 65 + dl,
                        ctxv: CodecV::Plain,
                        early: Seq::empty(),
                        preamble: Seq::empty(),
                    }
                }
            }
        } else if at == 4 {
            if b.len() < 80 {
                HsOut::More
            } else if b[78] != 13 || b[79] != 10 {
                HsOut::Bad(HandshakeError::Malformed)
            } else {
                HsOut::Done {
                    hs: HsV {
                        addr: AddrV::V6(b.subrange(60, 76)),
                        port: (b[76] * 256 + b[77]) as u16,
                    },
                    consumed: 80,
                    ctxv: CodecV::Plain,
                    early: Seq::empty(),
                    preamble: Seq::empty(),
                }
            }
        } else {
            HsOut::Bad(HandshakeError::Malformed)
        }
    }
}

/// Whether `buf[off .. off + pat.len()]` equals `pat`.
pub fn bytes_eq_at(buf: &Vec<u8>, off: usize, pat: &Vec<u8>) -> (r: bool)
    requires
        off + pat@.len() <= buf@.len(),
    ensures
        r <==> buf@.subrange(off as int, off as int + pat@.len() as int) == pat@,
{
    let bl = buf.len();
    let mut i: usize = 0;
    while i < pat.len()
        invariant
            off + pat@.len() <= buf@.len(),
            buf@.len() == bl as int,
            i <= pat@.len(),
            forall|j: int| 0 <= j < i ==> buf@[off + j] == pat@[j],
        decreases pat@.len() - i,
    {
        proof {
            assert(off + i < buf@.len());
        }
        if buf[off + i] != pat[i] {
            proof {
                assert(buf@.subrange(off as int, off as int + pat@.len() as int)[i as int]
                    == buf@[off + i]);
            }
            return false;
        }
        i = i + 1;
    }
    proof {
        assert(buf@.subrange(off as int, off as int + pat@.len() as int) =~= pat@);
    }
    true
}

/// Parses a VLess handshake out of the accumulated inbound bytes.
pub fn parse_vless(buf: &Vec<u8>, id: &Vec<u8>) -> (r: ParseResult)
    requires
        id@.len() == 16,
    ensures
        res_matches(r, vless_parse(buf@, id@)),
        r matches ParseResult::Parsed { consumed, .. } ==> consumed <= buf@.len(),
        r matches ParseResult::Parsed { ctx, .. } ==> crate::codec::codec_wf(
            crate::codec::codec_view(ctx),
        ),
        r matches ParseResult::Parsed { hs, .. } ==> crate::addr::addr_wf(
            crate::addr::addr_view(hs.addr),
        ),
{
    if buf.len() < 17 {
        return ParseResult::NeedMoreData;
    }
    if !bytes_eq_at(buf, 1, id) {
        return ParseResult::Invalid(HandshakeError::AuthFailed);
    }
    if buf.len() < 18 {
        return ParseResult::NeedMoreData;
    }
    let al = buf[17] as usize;
    if buf.len() < 19 + al {
        return ParseResult::NeedMoreData;
    }
    if buf[18 + al] != 1 {
        return ParseResult::Invalid(HandshakeError::UnsupportedCommand);
    }
    if buf.len() < 22 + al {
        return ParseResult::NeedMoreData;
    }
    let port = (buf[19 + al] as u16) * 256 + (buf[20 + al] as u16);
    let at = buf[21 + al];
    if at == 1 {
        if buf.len() < 26 + al {
            return ParseResult::NeedMoreData;
        }
        let a = crate::codec::subrange_vec(buf, 22 + al, 26 + al);
        ParseResult::Parsed {
            hs: Handshake { addr: Address::V4(a), port },
            consumed: 26 + al,
            ctx: CodecCtx::Plain,
            early: Vec::new(),
            preamble: make_preamble(buf[0]),
        }
    } else if at == 2 {
        if buf.len() < 23 + al {
            return ParseResult::NeedMoreData;
        }
        let dl = buf[22 + al] as usize;
        if dl == 0 {
            return ParseResult::Invalid(HandshakeError::Malformed);
        }
        if buf.len() < 23 + al + dl {
            return ParseResult::NeedMoreData;
        }
        let a = crate::codec::subrange_vec(buf, 23 + al, 23 + al + dl);
        ParseResult::Parsed {
            hs: Handshake { addr: Address::Domain(a), port },
            consumed: 23 + al + dl,
            ctx: CodecCtx::Plain,
            early: Vec::new(),
            preamble: make_preamble(buf[0]),
        }
    } else if at == 3 {
        if buf.len() < 38 + al {
            return ParseResult::NeedMoreData;
        }
        let a = crate::codec::subrange_vec(buf, 22 + al, 38 + al);
        ParseResult::Parsed {
            hs: Handshake { addr: Address::V6(a), port },
            consumed: 38 + al,
            ctx: CodecCtx::Plain,
            early: Vec::new(),
            preamble: make_preamble(buf[0]),
        }
    } else {
        ParseResult::Invalid(HandshakeError::Malformed)
    }
}

/// The one-time VLess response preamble: the request version and an empty
/// addon block.
fn make_preamble(ver: u8) -> (r: Vec<u8>)
    ensures
        r@ == seq![ver, 0u8],
{
    let mut v: Vec<u8> = Vec::new();
    v.push(ver);
    v.push(0u8);
    proof {
        assert(v@ =~= seq![ver, 0u8]);
    }
    v
}

/// Parses a Trojan handshake out of the accumulated inbound bytes.
pub fn parse_trojan(buf: &Vec<u8>, pass: &Vec<u8>) -> (r: ParseResult)
    requires
        pass@.len() == 56,
    ensures
        res_matches(r, trojan_parse(buf@, pass@)),
        r matches ParseResult::Parsed { consumed, .. } ==> consumed <= buf@.len(),
        r matches ParseResult::Parsed { ctx, .. } ==> crate::codec::codec_wf(
            crate::codec::codec_view(ctx),
        ),
        r matches ParseResult::Parsed { hs, .. } ==> crate::addr::addr_wf(
            crate::addr::addr_view(hs.addr),
        ),
{
    if buf.len() < 56 {
        return ParseResult::NeedMoreData;
    }
    if !bytes_eq_at(buf, 0, pass) {
        return ParseResult::Invalid(HandshakeError::AuthFailed);
    }
    if buf.len() < 58 {
        return ParseResult::NeedMoreData;
    }
    if buf[56] != 13 || buf[57] != 10 {
        return ParseResult::Invalid(HandshakeError::Malformed);
    }
    if buf.len() < 59 {
        return ParseResult::NeedMoreData;
    }
    if buf[58] != 1 {
        return ParseResult::Invalid(HandshakeError::UnsupportedCommand);
    }
    if buf.len() < 60 {
        return ParseResult::NeedMoreData;
    }
    let at = buf[59];
    if at == 1 {
        if buf.len() < 68 {
            return ParseResult::NeedMoreData;
        }
        if buf[66] != 13 || buf[67] != 10 {
            return ParseResult::Invalid(HandshakeError::Malformed);
        }
        let a = crate::codec::subrange_vec(buf, 60, 64);
        let port = (buf[64] as u16) * 256 + (buf[65] as u16);
        ParseResult::Parsed {
            hs: Handshake { addr: Address::V4(a), port },
            consumed: 68,
            ctx: CodecCtx::Plain,
            early: Vec::new(),
            preamble: Vec::new(),
        }
    } else if at == 3 {
        if buf.len() < 61 {
            return ParseResult::NeedMoreData;
        }
        let dl = buf[60] as usize;
        if dl == 0 {
            return ParseResult::Invalid(HandshakeError::Malformed);
        }
        if buf.len() < 65 + dl {
            return ParseResult::NeedMoreData;
        }
        if buf[61 + dl + 2] != 13 || buf[61 + dl + 3] != 10 {
            return ParseResult::Invalid(HandshakeError::Malformed);
        }
        let a = crate::codec::subrange_vec(buf, 61, 61 + dl);
        let port = (buf[61 + dl] as u16) * 256 + (buf[61 + dl + 1] as u16);
        ParseResult::Parsed {
            hs: Handshake { addr: Address::Domain(a), port },
            consumed: 65 + dl,
            ctx: CodecCtx::Plain,
            early: Vec::new(),
            preamble: Vec::new(),
        }
    } else if at == 4 {
        if buf.len() < 80 {
            return ParseResult::NeedMoreData;
        }
        if buf[78] != 13 || buf[79] != 10 {
            return ParseResult::Invalid(HandshakeError::Malformed);
        }
        let a = crate::codec::subrange_vec(buf, 60, 76);
        let port = (buf[76] as u16) * 256 + (buf[77] as u16);
        ParseResult::Parsed {
            hs: Handshake { addr: Address::V6(a), port },
            consumed: 80,
            ctx: CodecCtx::Plain,
            early: Vec::new(),
            preamble: Vec::new(),
        }
    } else {
        ParseResult::Invalid(HandshakeError::Malformed)
    }
}

/// Law: a VLess handshake that parses out of a buffer parses identically
/// out of any extension of that buffer, so accumulating the inbound stream
/// across arbitrary message boundaries cannot change the outcome.
pub proof fn lemma_vless_prefix_stable(b1: Seq<u8>, b2: Seq<u8>, id: Seq<u8>)
    requires
        b1.len() <= b2.len(),
        b1 == b2.subrange(0, b1.len() as int),
        vless_parse(b1, id) matches HsOut::Done { .. },
    ensures
        vless_parse(b2, id) == vless_parse(b1, id),
{
    assert(forall|i: int| 0 <= i < b1.len() ==> b1[i] == b2[i]);
    assert(b2.subrange(1, 17) =~= b1.subrange(1, 17));
    let al = b1[17] as int;
    let at = b1[21 + al];
    if at == 1 {
        assert(b2.subrange(22 + al, 26 + al) =~= b1.subrange(22 + al, 26 + al));
    } else if at == 2 {
        let dl = b1[22 + al] as int;
        assert(b2.subrange(23 + al, 23 + al + dl) =~= b1.subrange(23 + al, 23 + al + dl));
    } else {
        assert(b2.subrange(22 + al, 38 + al) =~= b1.subrange(22 + al, 38 + al));
    }
}

/// Law: a VLess handshake whose sixteen credential bytes differ from the
/// configured credential is rejected as an authentication failure,
/// whatever the rest of the bytes hold.
pub proof fn lemma_vless_tampered_credential(b: Seq<u8>, id: Seq<u8>)
    requires
        b.len() >= 17,
        b.subrange(1, 17) != id,
    ensures
        vless_parse(b, id) == HsOut::Bad(HandshakeError::AuthFailed),
{
}

/// Law: a Trojan handshake whose fifty-six password bytes differ from the
/// configured digest is rejected as an authentication failure, whatever
/// the rest of the bytes hold.
pub proof fn lemma_trojan_tampered_credential(b: Seq<u8>, pass: Seq<u8>)
    requires
        b.len() >= 56,
        b.subrange(0, 56) != pass,
    ensures
        trojan_parse(b, pass) == HsOut::Bad(HandshakeError::AuthFailed),
{
}

/// Law: a Trojan handshake that parses out of a buffer parses identically
/// out of any extension of that buffer.
pub proof fn lemma_trojan_prefix_stable(b1: Seq<u8>, b2: Seq<u8>, pass: Seq<u8>)
    requires
        b1.len() <= b2.len(),
        b1 == b2.subrange(0, b1.len() as int),
        trojan_parse(b1, pass) matches HsOut::Done { .. },
    ensures
        trojan_parse(b2, pass) == trojan_parse(b1, pass),
{
    assert(forall|i: int| 0 <= i < b1.len() ==> b1[i] == b2[i]);
    assert(b2.subrange(0, 56) =~= b1.subrange(0, 56));
    let at = b1[59];
    if at == 1 {
        assert(b2.subrange(60, 64) =~= b1.subrange(60, 64));
    } else if at == 3 {
        let dl = b1[60] as int;
        assert(b2.subrange(61, 61 + dl) =~= b1.subrange(61, 61 + dl));
    } else {
        assert(b2.subrange(60, 76) =~= b1.subrange(60, 76));
    }
}

} // verus!
