use vstd::prelude::*;
use crate::addr::clone_bytes;
use crate::crypto::{aead_open, aead_seal, chunk_lens_ok, chunks_of, len2, nonce12, nonce_of, seal_of, open_of};
use crate::errors::CodecError;

verus! {

/// Cipher state for one direction pair of an encrypted variant: the two
/// stream keys, the chunk counters, and the unconsumed tail of the
/// inbound wire stream.
pub struct AeadCtx {
    pub send_key: Vec<u8>,
    pub recv_key: Vec<u8>,
    pub send_ctr: u64,
    pub recv_ctr: u64,
    pub inbuf: Vec<u8>,
}

/// Frame state carried from the handshake into the relay: plain
/// passthrough, or sealed chunking.
pub enum CodecCtx {
    Plain,
    Aead(AeadCtx),
}

/// The mathematical value of an `AeadCtx`.
pub struct AeadV {
    pub send_key: Seq<u8>,
    pub recv_key: Seq<u8>,
    pub send_ctr: u64,
    pub recv_ctr: u64,
    pub inbuf: Seq<u8>,
}

/// The mathematical value of a `CodecCtx`.
pub enum CodecV {
    Plain,
    Aead(AeadV),
}

pub open spec fn codec_view(c: CodecCtx) -> CodecV {
    match c {
        CodecCtx::Plain => CodecV::Plain,
        CodecCtx::Aead(a) => CodecV::Aead(
            AeadV {
                send_key: a.send_key@,
                recv_key: a.recv_key@,
                send_ctr: a.send_ctr,
                recv_ctr: a.recv_ctr,
                inbuf: a.inbuf@,
            },
        ),
    }
}

/// A codec context is well formed when its keys have cipher length and the
/// retained tail is shorter than one whole chunk pair.
pub open spec fn codec_wf(c: CodecV) -> bool {
    match c {
        CodecV::Plain => true,
        CodecV::Aead(a) => a.send_key.len() == 32 && a.recv_key.len() == 32 && a.inbuf.len()
            < 65570,
    }
}

/// The value of two bytes read most significant first.
pub open spec fn be16(hi: u8, lo: u8) -> int {
    hi * 256 + lo
}

/// Copies `src[a..b]`.
pub fn subrange_vec(src: &Vec<u8>, a: usize, b: usize) -> (r: Vec<u8>)
    requires
        a <= b <= src@.len(),
    ensures
        r@ == src@.subrange(a as int, b as int),
{
    let mut out: Vec<u8> = Vec::new();
    let mut i: usize = a;
    while i < b
        invariant
            a <= i <= b <= src@.len(),
            out@ == src@.subrange(a as int, i as int),
        decreases b - i,
    {
        out.push(src[i]);
        i = i + 1;
        proof {
            assert(out@ =~= src@.subrange(a as int, i as int));
        }
    }
    out
}

/// Encodes one plaintext payload for the wire. Plain variants pass the
/// bytes through; sealed variants emit a sealed two-byte length chunk
/// followed by the sealed payload chunk, advancing the send counter by two.
pub fn encode_outbound(ctx: &mut CodecCtx, p: &Vec<u8>) -> (w: Vec<u8>)
    requires
        codec_wf(codec_view(*old(ctx))),
        p@.len() <= 65535,
        (*old(ctx)) matches CodecCtx::Aead(a) ==> a.send_ctr as int + 2 <= u64::MAX as int,
    ensures
        (*old(ctx)) matches CodecCtx::Plain ==> w@ == p@ && (*final(ctx)) matches CodecCtx::Plain,
        (*old(ctx)) matches CodecCtx::Aead(a) ==> (w@ == chunks_of(a.send_key@, a.send_ctr, p@)
            && w@.len() == 34 + p@.len() && chunk_lens_ok(a.send_key@, a.send_ctr, p@) && (
        (*final(ctx)) matches CodecCtx::Aead(b) && b.send_key@ == a.send_key@ && b.recv_key@
            == a.recv_key@ && b.send_ctr == a.send_ctr + 2 && b.recv_ctr == a.recv_ctr && b.inbuf@
            == a.inbuf@)),
        codec_wf(codec_view(*final(ctx))),
{
    match ctx {
        CodecCtx::Plain => clone_bytes(p),
        CodecCtx::Aead(a) => {
            let n = p.len();
            let mut lenv: Vec<u8> = Vec::new();
            lenv.push(((n / 256) % 256) as u8);
            lenv.push((n % 256) as u8);
            proof {
                assert(lenv@ =~= len2(p@.len() as int));
            }
            let nonce1 = nonce12(a.send_ctr);
            let mut w = aead_seal(&a.send_key, &nonce1, &lenv);
            let nonce2 = nonce12(a.send_ctr + 1);
            let mut c2 = aead_seal(&a.send_key, &nonce2, p);
            let ghost w1 = w@;
            let ghost c2g = c2@;
            w.append(&mut c2);
            proof {
                assert(w@ =~= w1 + c2g);
                assert(w@ =~= chunks_of(a.send_key@, a.send_ctr, p@));
            }
            a.send_ctr = a.send_ctr + 2;
            w
        },
    }
}

/// Drains every complete sealed chunk pair from the front of `buf` under
/// `key`, starting at chunk counter `ctr0`. Returns the concatenated
/// plaintexts, the advanced counter and the unconsumed tail, or the
/// corruption error as soon as one tag fails.
fn drain(key: &Vec<u8>, ctr0: u64, buf: &Vec<u8>) -> (r: Result<(Vec<u8>, u64, Vec<u8>), CodecError>)
    requires
        key@.len() == 32,
        ctr0 as int + buf@.len() as int <= u64::MAX as int,
    ensures
        forall|q: Seq<u8>|
            (q.len() <= 65535 && chunk_lens_ok(key@, ctr0, q) && buf@ == #[trigger] chunks_of(
                key@,
                ctr0,
                q,
            )) ==> (r matches Ok(t) && t.0@ == q && t.1 == ctr0 + 2 && t.2@.len() == 0),
        forall|q: Seq<u8>, n: int|
            #![trigger chunks_of(key@, ctr0, q).take(n)]
            (q.len() <= 65535 && chunk_lens_ok(key@, ctr0, q) && 0 <= n < 34 + q.len() && buf@
                == chunks_of(key@, ctr0, q).take(n)) ==> (r matches Ok(t) && t.0@.len() == 0 && t.1
                == ctr0 && t.2@ == buf@),
        buf@.len() < 18 ==> (r matches Ok(t) && t.0@.len() == 0 && t.1 == ctr0 && t.2@ == buf@),
        (buf@.len() >= 18 && open_of(key@, nonce_of(ctr0), buf@.subrange(0, 18)) is None) ==> (
        r matches Err(e) && e == CodecError::TamperedOrCorrupt),
        r matches Ok(t) ==> t.2@.len() < 65570 && ctr0 <= t.1 && t.1 as int <= ctr0 as int
            + buf@.len() as int,
        r matches Err(e) ==> e == CodecError::TamperedOrCorrupt,
{
    let mut out: Vec<u8> = Vec::new();
    let mut pos: usize = 0;
    let mut ctr: u64 = ctr0;
    let mut stop = false;
    while !stop
        invariant
            key@.len() == 32,
            ctr0 as int + buf@.len() as int <= u64::MAX as int,
            pos <= buf@.len(),
            ctr0 <= ctr,
            ctr as int - ctr0 as int <= pos as int,
            pos > 0 ==> open_of(key@, nonce_of(ctr0), buf@.subrange(0, 18)) is Some,
            buf@.len() < 18 ==> pos == 0 && ctr == ctr0 && out@.len() == 0,
            stop ==> buf@.len() - pos < 65569,
            stop ==> (buf@.len() < 18 || open_of(key@, nonce_of(ctr0), buf@.subrange(0, 18))
                is Some),
            stop ==> (forall|q: Seq<u8>|
                (q.len() <= 65535 && chunk_lens_ok(key@, ctr0, q) && buf@
                    == #[trigger] chunks_of(key@, ctr0, q)) ==> (pos == buf@.len() && ctr
                    == ctr0 + 2 && out@ == q)),
            forall|q: Seq<u8>|
                (q.len() <= 65535 && chunk_lens_ok(key@, ctr0, q) && buf@ == #[trigger] chunks_of(
                    key@,
                    ctr0,
                    q,
                )) ==> ((pos == 0 && ctr == ctr0 && out@.len() == 0) || (pos == buf@.len() && ctr
                    == ctr0 + 2 && out@ == q)),
            forall|q: Seq<u8>, n: int|
                #![trigger chunks_of(key@, ctr0, q).take(n)]
                (q.len() <= 65535 && chunk_lens_ok(key@, ctr0, q) && 0 <= n < 34 + q.len() && buf@
                    == chunks_of(key@, ctr0, q).take(n)) ==> (pos == 0 && ctr == ctr0 && out@.len()
                    == 0),
        decreases buf@.len() - pos, (if stop {
            0int
        } else {
            1int
        }),
    {
        let remaining = buf.len() - pos;
        if remaining < 18 {
            stop = true;
        } else {
            let c1 = subrange_vec(buf, pos, pos + 18);
            let nonce1 = nonce12(ctr);
            let l2_opt = aead_open(key, &nonce1, &c1);
            if l2_opt.is_none() {
                proof {
                    assert forall|q: Seq<u8>|
                        !(q.len() <= 65535 && chunk_lens_ok(key@, ctr0, q) && buf@
                            == #[trigger] chunks_of(key@, ctr0, q)) by {
                        if q.len() <= 65535 && chunk_lens_ok(key@, ctr0, q) && buf@ == chunks_of(
                            key@,
                            ctr0,
                            q,
                        ) {
                            assert(pos == 0);
                            assert(c1@ =~= seal_of(key@, nonce_of(ctr0), len2(q.len() as int)));
                        }
                    }
                    assert forall|q: Seq<u8>, n: int|
                        #![trigger chunks_of(key@, ctr0, q).take(n)]
                        !(q.len() <= 65535 && chunk_lens_ok(key@, ctr0, q) && 0 <= n < 34 + q.len()
                            && buf@ == chunks_of(key@, ctr0, q).take(n)) by {
                        if q.len() <= 65535 && chunk_lens_ok(key@, ctr0, q) && 0 <= n < 34 + q.len()
                            && buf@ == chunks_of(key@, ctr0, q).take(n) {
                            assert(pos == 0);
                            assert(n >= 18);
                            assert(c1@ =~= seal_of(key@, nonce_of(ctr0), len2(q.len() as int)));
                        }
                    }
                }
                return Err(CodecError::TamperedOrCorrupt);
            }
            let l2 = l2_opt.unwrap();
            let ln: usize = (l2[0] as usize) * 256 + (l2[1] as usize);
            if remaining - 18 < ln + 16 {
                proof {
                    assert forall|q: Seq<u8>|
                        (q.len() <= 65535 && chunk_lens_ok(key@, ctr0, q) && buf@
                            == #[trigger] chunks_of(key@, ctr0, q)) implies (pos == buf@.len()
                            && ctr == ctr0 + 2 && out@ == q) by {
                        assert(pos == 0);
                        assert(c1@ =~= seal_of(key@, nonce_of(ctr0), len2(q.len() as int)));
                        assert(l2@ == len2(q.len() as int));
                        assert(ln == q.len());
                        assert(false);
                    }
                }
                stop = true;
            } else {
                let c2 = subrange_vec(buf, pos + 18, pos + 18 + ln + 16);
                let nonce2 = nonce12(ctr + 1);
                let pl_opt = aead_open(key, &nonce2, &c2);
                if pl_opt.is_none() {
                    proof {
                        assert forall|q: Seq<u8>|
                            !(q.len() <= 65535 && chunk_lens_ok(key@, ctr0, q) && buf@
                                == #[trigger] chunks_of(key@, ctr0, q)) by {
                            if q.len() <= 65535 && chunk_lens_ok(key@, ctr0, q) && buf@
                                == chunks_of(key@, ctr0, q) {
                                assert(pos == 0);
                                assert(ctr == ctr0);
                                assert(c1@ =~= seal_of(key@, nonce_of(ctr0), len2(q.len() as int)));
                                assert(l2@ == len2(q.len() as int));
                                assert(ln == q.len());
                                assert(c2@ =~= seal_of(key@, nonce_of((ctr0 + 1) as u64), q));
                            }
                        }
                        assert forall|q: Seq<u8>, n: int|
                            #![trigger chunks_of(key@, ctr0, q).take(n)]
                            !(q.len() <= 65535 && chunk_lens_ok(key@, ctr0, q) && 0 <= n < 34
                                + q.len() && buf@ == chunks_of(key@, ctr0, q).take(n)) by {
                            if q.len() <= 65535 && chunk_lens_ok(key@, ctr0, q) && 0 <= n < 34
                                + q.len() && buf@ == chunks_of(key@, ctr0, q).take(n) {
                                assert(pos == 0);
                                assert(n >= 18);
                                assert(c1@ =~= seal_of(key@, nonce_of(ctr0), len2(q.len() as int)));
                                assert(l2@ == len2(q.len() as int));
                                assert(ln == q.len());
                                assert(buf@.len() == n);
                                assert(false);
                            }
                        }
                    }
                    return Err(CodecError::TamperedOrCorrupt);
                }
                let mut pl = pl_opt.unwrap();
                let ghost out_old = out@;
                let ghost plv = pl@;
                out.append(&mut pl);
                proof {
                    assert(out@ =~= out_old + plv);
                }
                ctr = ctr + 2;
                pos = pos + 18 + ln + 16;
                proof {
                    assert forall|q: Seq<u8>|
                        (q.len() <= 65535 && chunk_lens_ok(key@, ctr0, q) && buf@
                            == #[trigger] chunks_of(key@, ctr0, q)) implies (pos == buf@.len()
                            && ctr == ctr0 + 2 && out@ == q) by {
                        assert(out_old.len() == 0);
                        assert(c1@ =~= seal_of(key@, nonce_of(ctr0), len2(q.len() as int)));
                        assert(l2@ == len2(q.len() as int));
                        assert(ln == q.len());
                        assert(c2@ =~= seal_of(key@, nonce_of((ctr0 + 1) as u64), q));
                        assert(plv == q);
                        assert(out@ =~= q);
                    }
                    assert forall|q: Seq<u8>, n: int|
                        #![trigger chunks_of(key@, ctr0, q).take(n)]
                        !(q.len() <= 65535 && chunk_lens_ok(key@, ctr0, q) && 0 <= n < 34 + q.len()
                            && buf@ == chunks_of(key@, ctr0, q).take(n)) by {
                        if q.len() <= 65535 && chunk_lens_ok(key@, ctr0, q) && 0 <= n < 34 + q.len()
                            && buf@ == chunks_of(key@, ctr0, q).take(n) {
                            assert(c1@ =~= seal_of(key@, nonce_of(ctr0), len2(q.len() as int)));
                            assert(l2@ == len2(q.len() as int));
                            assert(ln == q.len());
                            assert(buf@.len() == n);
                            assert(false);
                        }
                    }
                }
            }
        }
    }
    let rest = subrange_vec(buf, pos, buf.len());
    proof {
        if pos == 0 {
            assert(rest@ =~= buf@);
        }
    }
    Ok((out, ctr, rest))
}

/// Decodes one inbound wire message into plaintext. Plain variants pass the
/// bytes through. Sealed variants append the message to the retained tail,
/// drain every complete chunk pair, and keep the rest for the next call;
/// a chunk whose tag fails verification is terminal.
pub fn decode_inbound(ctx: &mut CodecCtx, raw: &Vec<u8>) -> (r: Result<Vec<u8>, CodecError>)
    requires
        codec_wf(codec_view(*old(ctx))),
        (*old(ctx)) matches CodecCtx::Aead(a) ==> a.recv_ctr as int + a.inbuf@.len() + raw@.len()
            <= u64::MAX as int,
    ensures
        (*old(ctx)) matches CodecCtx::Plain ==> (r matches Ok(v) && v@ == raw@ && (*final(ctx))
            matches CodecCtx::Plain),
        (*old(ctx)) matches CodecCtx::Aead(a) ==> ((*final(ctx)) matches CodecCtx::Aead(b)
            && b.send_key@ == a.send_key@ && b.recv_key@ == a.recv_key@ && b.send_ctr
            == a.send_ctr),
        (*old(ctx)) matches CodecCtx::Aead(a) ==> (forall|q: Seq<u8>|
            (q.len() <= 65535 && chunk_lens_ok(a.recv_key@, a.recv_ctr, q) && a.inbuf@ + raw@
                == #[trigger] chunks_of(a.recv_key@, a.recv_ctr, q)) ==> (r matches Ok(v) && v@
                == q && ((*final(ctx)) matches CodecCtx::Aead(b) && b.recv_ctr == a.recv_ctr + 2
                && b.inbuf@.len() == 0))),
        (*old(ctx)) matches CodecCtx::Aead(a) ==> (forall|q: Seq<u8>, n: int|
            #![trigger chunks_of(a.recv_key@, a.recv_ctr, q).take(n)]
            (q.len() <= 65535 && chunk_lens_ok(a.recv_key@, a.recv_ctr, q) && 0 <= n < 34 + q.len()
                && a.inbuf@ + raw@ == chunks_of(a.recv_key@, a.recv_ctr, q).take(n)) ==> (
            r matches Ok(v) && v@.len() == 0 && ((*final(ctx)) matches CodecCtx::Aead(b)
                && b.recv_ctr == a.recv_ctr && b.inbuf@ == a.inbuf@ + raw@))),
        (*old(ctx)) matches CodecCtx::Aead(a) ==> ((a.inbuf@ + raw@).len() < 18 ==> (
        r matches Ok(v) && v@.len() == 0 && ((*final(ctx)) matches CodecCtx::Aead(b) && b.recv_ctr
            == a.recv_ctr && b.inbuf@ == a.inbuf@ + raw@))),
        (*old(ctx)) matches CodecCtx::Aead(a) ==> (((a.inbuf@ + raw@).len() >= 18 && open_of(
            a.recv_key@,
            nonce_of(a.recv_ctr),
            (a.inbuf@ + raw@).subrange(0, 18),
        ) is None) ==> (r matches Err(e) && e == CodecError::TamperedOrCorrupt)),
        r matches Ok(v) ==> codec_wf(codec_view(*final(ctx))),
        r matches Err(e) ==> e == CodecError::TamperedOrCorrupt,
{
    match ctx {
        CodecCtx::Plain => Ok(clone_bytes(raw)),
        CodecCtx::Aead(a) => {
            let mut buf = clone_bytes(&a.inbuf);
            let mut r2 = clone_bytes(raw);
            buf.append(&mut r2);
            proof {
                assert(buf@ =~= a.inbuf@ + raw@);
            }
            match drain(&a.recv_key, a.recv_ctr, &buf) {
                Ok((o, c2, rest)) => {
                    a.recv_ctr = c2;
                    a.inbuf = rest;
                    Ok(o)
                },
                Err(e) => {
                    a.inbuf = Vec::new();
                    Err(e)
                },
            }
        },
    }
}

/// Law: a payload encoded by a fresh sending context is returned intact by a
/// fresh receiving context holding the same key, however the wire bytes are
/// cut in two across message boundaries.
pub fn codec_round_trip_split(key: &Vec<u8>, p: &Vec<u8>, cut: usize) -> (r: Option<Vec<u8>>)
    requires
        key@.len() == 32,
        p@.len() <= 65535,
    ensures
        r matches Some(v) && v@ == p@,
{
    let mut enc = CodecCtx::Aead(
        AeadCtx {
            send_key: clone_bytes(key),
            recv_key: clone_bytes(key),
            send_ctr: 0,
            recv_ctr: 0,
            inbuf: Vec::new(),
        },
    );
    let w = encode_outbound(&mut enc, p);
    let c = if cut <= w.len() {
        cut
    } else {
        w.len()
    };
    let w1 = subrange_vec(&w, 0, c);
    let w2 = subrange_vec(&w, c, w.len());
    let mut dec = CodecCtx::Aead(
        AeadCtx {
            send_key: clone_bytes(key),
            recv_key: clone_bytes(key),
            send_ctr: 0,
            recv_ctr: 0,
            inbuf: Vec::new(),
        },
    );
    proof {
        assert(w1@ + w2@ =~= w@);
        assert(Seq::<u8>::empty() + w1@ =~= w1@);
        if c < w@.len() {
            assert(w1@ =~= chunks_of(key@, 0u64, p@).take(c as int));
        } else {
            assert(w1@ =~= chunks_of(key@, 0u64, p@));
        }
    }
    let r1 = decode_inbound(&mut dec, &w1);
    let mut v1 = match r1 {
        Ok(v) => v,
        Err(_) => {
            proof {
                assert(false);
            }
            return None;
        },
    };
    proof {
        if c == w@.len() {
            assert(v1@ == p@);
        }
    }
    let r2 = decode_inbound(&mut dec, &w2);
    let mut v2 = match r2 {
        Ok(v) => v,
        Err(_) => {
            proof {
                assert(false);
            }
            return None;
        },
    };
    let ghost v1g = v1@;
    let ghost v2g = v2@;
    v1.append(&mut v2);
    proof {
        assert(v1@ =~= v1g + v2g);
        if c < w@.len() {
            assert(v1@ =~= p@);
        } else {
            assert(v1@ =~= p@);
        }
    }
    Some(v1)
}

/// Law: two payloads encoded in order through one sending context are
/// decoded intact and in order by one receiving context holding the same
/// key: the chunk counters keep the stream in step across frames.
pub fn codec_round_trip_stream(key: &Vec<u8>, p1: &Vec<u8>, p2: &Vec<u8>) -> (r: Option<
    (Vec<u8>, Vec<u8>),
>)
    requires
        key@.len() == 32,
        p1@.len() <= 65535,
        p2@.len() <= 65535,
    ensures
        r matches Some(t) && t.0@ == p1@ && t.1@ == p2@,
{
    let mut enc = CodecCtx::Aead(
        AeadCtx {
            send_key: clone_bytes(key),
            recv_key: clone_bytes(key),
            send_ctr: 0,
            recv_ctr: 0,
            inbuf: Vec::new(),
        },
    );
    let w1 = encode_outbound(&mut enc, p1);
    let w2 = encode_outbound(&mut enc, p2);
    let mut dec = CodecCtx::Aead(
        AeadCtx {
            send_key: clone_bytes(key),
            recv_key: clone_bytes(key),
            send_ctr: 0,
            recv_ctr: 0,
            inbuf: Vec::new(),
        },
    );
    proof {
        assert(Seq::<u8>::empty() + w1@ =~= w1@);
        assert(Seq::<u8>::empty() + w2@ =~= w2@);
    }
    let v1 = match decode_inbound(&mut dec, &w1) {
        Ok(v) => v,
        Err(_) => {
            proof {
                assert(false);
            }
            return None;
        },
    };
    let v2 = match decode_inbound(&mut dec, &w2) {
        Ok(v) => v,
        Err(_) => {
            proof {
                assert(false);
            }
            return None;
        },
    };
    Some((v1, v2))
}

} // verus!
