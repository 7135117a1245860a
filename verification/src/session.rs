use vstd::prelude::*;
use crate::addr::{addr_view, addr_wf, clone_bytes};
use crate::codec::{AeadV, CodecCtx, CodecV, codec_view, codec_wf, decode_inbound, encode_outbound, subrange_vec};
use crate::crypto::{chunk_lens_ok, chunks_of, nonce_of, open_of};
use crate::errors::{CloseReason, CodecError, ConnectError, HandshakeError};
use crate::handshake::{HsOut, HsV, ParseResult, parse_trojan, parse_vless};
use crate::shadowsocks::{parse_ss, ss_parse};
use crate::vmess::{parse_vmess, vmess_parse};

verus! {

/// The protocol variant a session speaks, fixed at creation.
#[derive(Clone, Copy, PartialEq, Eq, Structural, Debug)]
pub enum Variant {
    VMess,
    VLess,
    Trojan,
    Shadowsocks,
}

/// Where a session stands in its lifetime.
#[derive(Clone, Copy, PartialEq, Eq, Structural, Debug)]
pub enum SessionState {
    AwaitingHandshake,
    Connecting,
    Relaying,
    Closing,
    Closed,
}

/// What the surrounding event loop reports to the session.
pub enum Event {
    ClientMessage(Vec<u8>),
    ClientClosed,
    Connected,
    ConnectFailed(ConnectError),
    OutboundData(Vec<u8>),
    OutboundWriteDone,
    OutboundWriteFailed,
    OutboundEof,
    Tick,
    DrainTimeout,
}

/// What the session instructs the surrounding event loop to do.
pub enum Action {
    Connect(crate::addr::Address, u16),
    WriteOutbound(Vec<u8>),
    SendClient(Vec<u8>),
    CloseClient(u16),
    CloseOutbound,
}

/// Close code sent on a graceful end of the tunnel.
pub const NORMAL_CLOSURE: u16 = 1000;

/// Close code sent on any rejected handshake, failed connect, corrupt
/// stream or resource limit.
pub const ABNORMAL_CLOSURE: u16 = 1011;

/// Largest accumulated handshake prefix a session will buffer.
pub const MAX_HANDSHAKE: usize = 131072;

/// Largest wire buffer a session will hold while the connector is still
/// working.
pub const MAX_STASH: usize = 1048576;

/// Chunk counter ceiling; a stream that reaches it is closed rather than
/// allowed to overflow its nonce space.
pub const CTR_LIMIT: u64 = 0x4000000000000000;

/// One tunnel connection: the configured variant and credential, the
/// lifecycle state, the resolved destination, the frame state, the
/// buffered byte streams, and the observational counters.
pub struct Session {
    pub variant: Variant,
    pub identity: Vec<u8>,
    pub state: SessionState,
    pub target: Option<crate::handshake::Handshake>,
    pub codec: CodecCtx,
    pub hsbuf: Vec<u8>,
    pub stash: Vec<u8>,
    pub early: Vec<u8>,
    pub preamble: Vec<u8>,
    pub preamble_sent: bool,
    pub inflight: u64,
    pub idle: u64,
    pub idle_limit: u64,
    pub close_reason: Option<CloseReason>,
    pub bytes_in: u64,
    pub bytes_out: u64,
}

/// The mathematical value of a session.
pub struct SessionV {
    pub variant: Variant,
    pub identity: Seq<u8>,
    pub state: SessionState,
    pub target: Option<HsV>,
    pub codec: CodecV,
    pub hsbuf: Seq<u8>,
    pub stash: Seq<u8>,
    pub early: Seq<u8>,
    pub preamble: Seq<u8>,
    pub preamble_sent: bool,
    pub inflight: u64,
    pub idle: u64,
    pub idle_limit: u64,
    pub close_reason: Option<CloseReason>,
    pub bytes_in: u64,
    pub bytes_out: u64,
}

pub open spec fn sv(s: Session) -> SessionV {
    SessionV {
        variant: s.variant,
        identity: s.identity@,
        state: s.state,
        target: match s.target {
            Option::Some(h) => Option::Some(HsV { addr: addr_view(h.addr), port: h.port }),
            Option::None => Option::None,
        },
        codec: codec_view(s.codec),
        hsbuf: s.hsbuf@,
        stash: s.stash@,
        early: s.early@,
        preamble: s.preamble@,
        preamble_sent: s.preamble_sent,
        inflight: s.inflight,
        idle: s.idle,
        idle_limit: s.idle_limit,
        close_reason: s.close_reason,
        bytes_in: s.bytes_in,
        bytes_out: s.bytes_out,
    }
}

/// The credential length each variant demands.
pub open spec fn identity_wf(v: Variant, id: Seq<u8>) -> bool {
    match v {
        Variant::VLess => id.len() == 16,
        Variant::VMess => id.len() == 16,
        Variant::Trojan => id.len() == 56,
        Variant::Shadowsocks => id.len() >= 1,
    }
}

/// Session well-formedness: the credential fits the variant, the frame
/// state is sound whenever frames may still flow, a destination exists
/// exactly from `Connecting` on, and idleness never passes its limit.
pub open spec fn session_wf(s: SessionV) -> bool {
    &&& identity_wf(s.variant, s.identity)
    &&& s.idle_limit >= 1
    &&& s.idle <= s.idle_limit
    &&& (s.state == SessionState::AwaitingHandshake ==> s.codec == CodecV::Plain
        && s.target is None)
    &&& ((s.state == SessionState::Connecting || s.state == SessionState::Relaying || s.state
        == SessionState::Closing) ==> s.target is Some)
    &&& (s.state != SessionState::Closed ==> codec_wf(s.codec))
    &&& (s.target matches Option::Some(t) ==> addr_wf(t.addr))
    &&& s.hsbuf.len() <= MAX_HANDSHAKE
    &&& s.stash.len() <= MAX_STASH
}

/// The parser each variant supplies, as one outcome-valued function.
pub open spec fn hs_outcome(v: Variant, b: Seq<u8>, id: Seq<u8>, now: u64) -> HsOut {
    match v {
        Variant::VLess => crate::handshake::vless_parse(b, id),
        Variant::Trojan => crate::handshake::trojan_parse(b, id),
        Variant::VMess => vmess_parse(b, id, now),
        Variant::Shadowsocks => ss_parse(b, id),
    }
}

/// Creates a session awaiting its handshake.
pub fn new_session(variant: Variant, identity: Vec<u8>, idle_limit: u64) -> (s: Session)
    requires
        identity_wf(variant, identity@),
        idle_limit >= 1,
    ensures
        session_wf(sv(s)),
        sv(s).variant == variant,
        sv(s).identity == identity@,
        sv(s).state == SessionState::AwaitingHandshake,
        sv(s).idle_limit == idle_limit,
        sv(s).close_reason is None,
        sv(s).bytes_in == 0 && sv(s).bytes_out == 0,
        sv(s).hsbuf.len() == 0 && sv(s).stash.len() == 0,
        sv(s).preamble_sent == false && sv(s).inflight == 0 && sv(s).idle == 0,
    {
    Session {
        variant,
        identity,
        state: SessionState::AwaitingHandshake,
        target: None,
        codec: CodecCtx::Plain,
        hsbuf: Vec::new(),
        stash: Vec::new(),
        early: Vec::new(),
        preamble: Vec::new(),
        preamble_sent: false,
        inflight: 0,
        idle: 0,
        idle_limit,
        close_reason: None,
        bytes_in: 0,
        bytes_out: 0,
    }
}

/// Saturating add, as a value.
pub open spec fn satv(a: u64, b: int) -> u64 {
    if a as int + b <= u64::MAX as int {
        (a as int + b) as u64
    } else {
        u64::MAX
    }
}

/// Saturating add on the observational byte counters.
fn sat_add(a: u64, b: u64) -> (r: u64)
    ensures
        r as int == if a as int + b as int <= u64::MAX as int {
            a as int + b as int
        } else {
            u64::MAX as int
        },
{
    if b > u64::MAX - a {
        u64::MAX
    } else {
        a + b
    }
}

fn no_acts() -> (r: Vec<Action>)
    ensures
        r@.len() == 0,
{
    Vec::new()
}

fn one_act(a: Action) -> (r: Vec<Action>)
    ensures
        r@.len() == 1,
        r@[0] == a,
{
    let mut v: Vec<Action> = Vec::new();
    v.push(a);
    v
}

fn two_acts(a: Action, b: Action) -> (r: Vec<Action>)
    ensures
        r@.len() == 2,
        r@[0] == a,
        r@[1] == b,
{
    let mut v: Vec<Action> = Vec::new();
    v.push(a);
    v.push(b);
    v
}

impl Session {
    /// Handles one inbound client message: handshake accumulation before
    /// the handshake, buffering while connecting, frame decoding after.
    fn on_client_message(&mut self, m: Vec<u8>, now: u64) -> (acts: Vec<Action>)
        requires
            session_wf(sv(*old(self))),
            m@.len() <= 0x10000000,
        ensures
            session_wf(sv(*final(self))),
            sv(*final(self)).variant == sv(*old(self)).variant,
            sv(*final(self)).identity == sv(*old(self)).identity,
            sv(*final(self)).idle_limit == sv(*old(self)).idle_limit,
            sv(*old(self)).state == SessionState::Closed ==> sv(*final(self)) == sv(*old(self))
                && acts@.len() == 0,
            sv(*old(self)).state == SessionState::AwaitingHandshake ==> {
                let nb = sv(*old(self)).hsbuf + m@;
                if nb.len() > MAX_HANDSHAKE {
                    sv(*final(self)) == (SessionV {
                        state: SessionState::Closed,
                        close_reason: Some(CloseReason::Handshake(HandshakeError::Malformed)),
                        ..sv(*old(self))
                    }) && acts@.len() == 1 && (acts@[0] matches Action::CloseClient(c) && c
                        == ABNORMAL_CLOSURE)
                } else {
                    match hs_outcome(sv(*old(self)).variant, nb, sv(*old(self)).identity, now) {
                        HsOut::More => sv(*final(self)) == (SessionV {
                            hsbuf: nb,
                            idle: 0,
                            ..sv(*old(self))
                        }) && acts@.len() == 0,
                        HsOut::Bad(e) => sv(*final(self)) == (SessionV {
                            state: SessionState::Closed,
                            close_reason: Some(CloseReason::Handshake(e)),
                            hsbuf: nb,
                            idle: 0,
                            ..sv(*old(self))
                        }) && acts@.len() == 1 && (acts@[0] matches Action::CloseClient(c) && c
                            == ABNORMAL_CLOSURE),
                        HsOut::Done { hs: h2, consumed: n2, ctxv, early: e2, preamble: p2 } => sv(
                            *final(self),
                        ) == (SessionV {
                            state: SessionState::Connecting,
                            target: Some(h2),
                            codec: ctxv,
                            hsbuf: Seq::empty(),
                            stash: nb.subrange(n2, nb.len() as int),
                            early: e2,
                            preamble: p2,
                            idle: 0,
                            ..sv(*old(self))
                        }) && acts@.len() == 1 && (acts@[0] matches Action::Connect(aa, pp)
                            && addr_view(aa) == h2.addr && pp == h2.port),
                    }
                }
            },
            sv(*old(self)).state == SessionState::Connecting ==> {
                let ns = sv(*old(self)).stash + m@;
                if ns.len() > MAX_STASH {
                    sv(*final(self)) == (SessionV {
                        state: SessionState::Closed,
                        close_reason: Some(CloseReason::BufferLimit),
                        ..sv(*old(self))
                    }) && acts@.len() == 2 && acts@[0] is CloseOutbound && (acts@[1] matches
                        Action::CloseClient(c) && c == ABNORMAL_CLOSURE)
                } else {
                    sv(*final(self)) == (SessionV { stash: ns, idle: 0, ..sv(*old(self)) })
                        && acts@.len() == 0
                }
            },
            (sv(*old(self)).state == SessionState::Relaying || sv(*old(self)).state
                == SessionState::Closing) ==> (sv(*final(self)).state == sv(*old(self)).state
                || sv(*final(self)).state == SessionState::Closed),
            ((sv(*old(self)).state == SessionState::Relaying || sv(*old(self)).state
                == SessionState::Closing) && sv(*old(self)).codec == CodecV::Plain && sv(
                *old(self),
            ).inflight < u64::MAX) ==> (if m@.len() > 0 {
                sv(*final(self)) == (SessionV {
                    idle: 0,
                    inflight: (sv(*old(self)).inflight + 1) as u64,
                    bytes_in: satv(sv(*old(self)).bytes_in, m@.len() as int),
                    ..sv(*old(self))
                }) && acts@.len() == 1 && (acts@[0] matches Action::WriteOutbound(w) && w@ == m@)
            } else {
                sv(*final(self)) == (SessionV {
                    idle: 0,
                    bytes_in: satv(sv(*old(self)).bytes_in, 0),
                    ..sv(*old(self))
                }) && acts@.len() == 0
            }),
            ((sv(*old(self)).state == SessionState::Relaying || sv(*old(self)).state
                == SessionState::Closing) && sv(*old(self)).inflight < u64::MAX) ==> (sv(
                *old(self),
            ).codec matches CodecV::Aead(a) ==> (a.recv_ctr <= CTR_LIMIT ==> {
                &&& ((a.inbuf + m@).len() >= 18 && open_of(
                    a.recv_key,
                    nonce_of(a.recv_ctr),
                    (a.inbuf + m@).subrange(0, 18),
                ) is None) ==> (sv(*final(self)).state == SessionState::Closed && sv(
                    *final(self),
                ).close_reason == Some(CloseReason::Codec(CodecError::TamperedOrCorrupt))
                    && acts@.len() == 2 && acts@[0] is CloseOutbound && (acts@[1] matches
                    Action::CloseClient(c) && c == ABNORMAL_CLOSURE))
                &&& forall|q: Seq<u8>|
                    (0 < q.len() <= 65535 && chunk_lens_ok(a.recv_key, a.recv_ctr, q) && a.inbuf
                        + m@ == #[trigger] chunks_of(a.recv_key, a.recv_ctr, q)) ==> (sv(
                        *final(self),
                    ).state == sv(*old(self)).state && acts@.len() == 1 && (acts@[0] matches
                        Action::WriteOutbound(w) && w@ == q) && (sv(*final(self)).codec matches
                        CodecV::Aead(b2) && b2.recv_ctr == a.recv_ctr + 2 && b2.inbuf.len() == 0))
            })),
    {
        match self.state {
            SessionState::Closed => no_acts(),
            SessionState::AwaitingHandshake => {
                if m.len() > MAX_HANDSHAKE - self.hsbuf.len() {
                    self.state = SessionState::Closed;
                    self.close_reason = Some(CloseReason::Handshake(HandshakeError::Malformed));
                    one_act(Action::CloseClient(ABNORMAL_CLOSURE))
                } else {
                    let mut mm = m;
                    self.hsbuf.append(&mut mm);
                    self.idle = 0;
                    let pr = match self.variant {
                        Variant::VLess => parse_vless(&self.hsbuf, &self.identity),
                        Variant::Trojan => parse_trojan(&self.hsbuf, &self.identity),
                        Variant::VMess => parse_vmess(&self.hsbuf, &self.identity, now),
                        Variant::Shadowsocks => parse_ss(&self.hsbuf, &self.identity),
                    };
                    match pr {
                        ParseResult::NeedMoreData => no_acts(),
                        ParseResult::Invalid(e) => {
                            self.state = SessionState::Closed;
                            self.close_reason = Some(CloseReason::Handshake(e));
                            one_act(Action::CloseClient(ABNORMAL_CLOSURE))
                        },
                        ParseResult::Parsed { hs, consumed, ctx, early, preamble } => {
                            let rest = subrange_vec(&self.hsbuf, consumed, self.hsbuf.len());
                            self.hsbuf = Vec::new();
                            self.stash = rest;
                            self.early = early;
                            self.preamble = preamble;
                            self.codec = ctx;
                            self.state = SessionState::Connecting;
                            let aa = crate::addr::clone_address(&hs.addr);
                            let pp = hs.port;
                            self.target = Some(hs);
                            one_act(Action::Connect(aa, pp))
                        },
                    }
                }
            },
            SessionState::Connecting => {
                if m.len() > MAX_STASH - self.stash.len() {
                    self.state = SessionState::Closed;
                    self.close_reason = Some(CloseReason::BufferLimit);
                    two_acts(Action::CloseOutbound, Action::CloseClient(ABNORMAL_CLOSURE))
                } else {
                    let mut mm = m;
                    self.stash.append(&mut mm);
                    self.idle = 0;
                    no_acts()
                }
            },
            _ => {
                if self.inflight == u64::MAX {
                    self.state = SessionState::Closed;
                    self.close_reason = Some(CloseReason::BufferLimit);
                    return two_acts(Action::CloseOutbound, Action::CloseClient(ABNORMAL_CLOSURE));
                }
                let ctr_bad = match &self.codec {
                    CodecCtx::Plain => false,
                    CodecCtx::Aead(a) => a.recv_ctr > CTR_LIMIT,
                };
                if ctr_bad {
                    self.state = SessionState::Closed;
                    self.close_reason = Some(CloseReason::CounterExhausted);
                    return two_acts(Action::CloseOutbound, Action::CloseClient(ABNORMAL_CLOSURE));
                }
                self.idle = 0;
                match decode_inbound(&mut self.codec, &m) {
                    Ok(p) => {
                        self.bytes_in = sat_add(self.bytes_in, p.len() as u64);
                        if p.len() > 0 {
                            self.inflight = self.inflight + 1;
                            one_act(Action::WriteOutbound(p))
                        } else {
                            no_acts()
                        }
                    },
                    Err(_) => {
                        self.state = SessionState::Closed;
                        self.close_reason = Some(CloseReason::Codec(CodecError::TamperedOrCorrupt));
                        two_acts(Action::CloseOutbound, Action::CloseClient(ABNORMAL_CLOSURE))
                    },
                }
            },
        }
    }

    /// Handles the connector's success: flushes any payload that arrived
    /// with or after the handshake and starts relaying.
    fn on_connected(&mut self) -> (acts: Vec<Action>)
        requires
            session_wf(sv(*old(self))),
        ensures
            session_wf(sv(*final(self))),
            sv(*final(self)).variant == sv(*old(self)).variant,
            sv(*final(self)).identity == sv(*old(self)).identity,
            sv(*final(self)).idle_limit == sv(*old(self)).idle_limit,
            sv(*old(self)).state != SessionState::Connecting ==> sv(*final(self)) == sv(
                *old(self),
            ) && acts@.len() == 0,
            sv(*old(self)).state == SessionState::Connecting ==> ((sv(*final(self)).state
                == SessionState::Relaying && sv(*final(self)).stash.len() == 0 && sv(
                *final(self),
            ).early.len() == 0) || (sv(*final(self)).state == SessionState::Closed && acts@.len()
                == 2)),
            (sv(*old(self)).state == SessionState::Connecting && sv(*old(self)).codec
                == CodecV::Plain) ==> {
                let total = sv(*old(self)).early + sv(*old(self)).stash;
                if total.len() > 0 {
                    sv(*final(self)) == (SessionV {
                        state: SessionState::Relaying,
                        stash: Seq::empty(),
                        early: Seq::empty(),
                        inflight: 1,
                        idle: 0,
                        bytes_in: satv(sv(*old(self)).bytes_in, total.len() as int),
                        ..sv(*old(self))
                    }) && acts@.len() == 1 && (acts@[0] matches Action::WriteOutbound(w) && w@
                        == total)
                } else {
                    sv(*final(self)) == (SessionV {
                        state: SessionState::Relaying,
                        stash: Seq::empty(),
                        early: Seq::empty(),
                        idle: 0,
                        bytes_in: satv(sv(*old(self)).bytes_in, 0),
                        ..sv(*old(self))
                    }) && acts@.len() == 0
                }
            },
    {
        if !(matches!(self.state, SessionState::Connecting)) {
            return no_acts();
        }
        let ctr_bad = match &self.codec {
            CodecCtx::Plain => false,
            CodecCtx::Aead(a) => a.recv_ctr > CTR_LIMIT,
        };
        if ctr_bad {
            self.state = SessionState::Closed;
            self.close_reason = Some(CloseReason::CounterExhausted);
            return two_acts(Action::CloseOutbound, Action::CloseClient(ABNORMAL_CLOSURE));
        }
        let st = clone_bytes(&self.stash);
        self.stash = Vec::new();
        match decode_inbound(&mut self.codec, &st) {
            Err(_) => {
                self.state = SessionState::Closed;
                self.close_reason = Some(CloseReason::Codec(CodecError::TamperedOrCorrupt));
                two_acts(Action::CloseOutbound, Action::CloseClient(ABNORMAL_CLOSURE))
            },
            Ok(p) => {
                let mut total = clone_bytes(&self.early);
                self.early = Vec::new();
                let mut pp = p;
                total.append(&mut pp);
                self.state = SessionState::Relaying;
                self.idle = 0;
                self.bytes_in = sat_add(self.bytes_in, total.len() as u64);
                if total.len() > 0 {
                    self.inflight = 1;
                    one_act(Action::WriteOutbound(total))
                } else {
                    no_acts()
                }
            },
        }
    }

    /// Handles bytes read from the destination: encodes them for the wire
    /// and prepends the one-time response preamble on the very first frame.
    fn on_outbound_data(&mut self, b: Vec<u8>) -> (acts: Vec<Action>)
        requires
            session_wf(sv(*old(self))),
            b@.len() <= 65535,
        ensures
            session_wf(sv(*final(self))),
            sv(*final(self)).variant == sv(*old(self)).variant,
            sv(*final(self)).identity == sv(*old(self)).identity,
            sv(*final(self)).idle_limit == sv(*old(self)).idle_limit,
            sv(*old(self)).state != SessionState::Relaying ==> sv(*final(self)) == sv(*old(self))
                && acts@.len() == 0,
            sv(*old(self)).state == SessionState::Relaying ==> {
                let pre = if !sv(*old(self)).preamble_sent {
                    sv(*old(self)).preamble
                } else {
                    Seq::<u8>::empty()
                };
                match sv(*old(self)).codec {
                    CodecV::Plain => sv(*final(self)) == (SessionV {
                        preamble_sent: true,
                        idle: 0,
                        bytes_out: satv(sv(*old(self)).bytes_out, b@.len() as int),
                        ..sv(*old(self))
                    }) && acts@.len() == 1 && (acts@[0] matches Action::SendClient(w) && w@ == pre
                        + b@),
                    CodecV::Aead(a) => (if a.send_ctr > CTR_LIMIT {
                        sv(*final(self)).state == SessionState::Closed && sv(
                            *final(self),
                        ).close_reason == Some(CloseReason::CounterExhausted) && acts@.len() == 2
                    } else {
                        sv(*final(self)) == (SessionV {
                            codec: CodecV::Aead(AeadV { send_ctr: (a.send_ctr + 2) as u64, ..a }),
                            preamble_sent: true,
                            idle: 0,
                            bytes_out: satv(sv(*old(self)).bytes_out, b@.len() as int),
                            ..sv(*old(self))
                        }) && acts@.len() == 1 && (acts@[0] matches Action::SendClient(w) && w@
                            == pre + chunks_of(a.send_key, a.send_ctr, b@))
                    }),
                }
            },
    {
        if !(matches!(self.state, SessionState::Relaying)) {
            return no_acts();
        }
        let send_bad = match &self.codec {
            CodecCtx::Plain => false,
            CodecCtx::Aead(a) => a.send_ctr > CTR_LIMIT,
        };
        if send_bad {
            self.state = SessionState::Closed;
            self.close_reason = Some(CloseReason::CounterExhausted);
            return two_acts(Action::CloseOutbound, Action::CloseClient(ABNORMAL_CLOSURE));
        }
        let w = encode_outbound(&mut self.codec, &b);
        let msg = if !self.preamble_sent {
            let mut mm = clone_bytes(&self.preamble);
            let mut ww = w;
            mm.append(&mut ww);
            mm
        } else {
            proof {
                assert(Seq::<u8>::empty() + w@ =~= w@);
            }
            w
        };
        self.preamble_sent = true;
        self.idle = 0;
        self.bytes_out = sat_add(self.bytes_out, b.len() as u64);
        one_act(Action::SendClient(msg))
    }

    /// Drives the session by one event and returns the actions the event
    /// loop must perform. Every transition the tunnel makes — accepting or
    /// rejecting a handshake, connecting, relaying frames in both
    /// directions, idling out, draining a half-closed stream, and closing —
    /// is decided here.
    pub fn step(&mut self, ev: Event, now: u64) -> (acts: Vec<Action>)
        requires
            session_wf(sv(*old(self))),
            ev matches Event::OutboundData(b) ==> b@.len() <= 65535,
            ev matches Event::ClientMessage(m) ==> m@.len() <= 0x10000000,
        ensures
            session_wf(sv(*final(self))),
            sv(*final(self)).variant == sv(*old(self)).variant,
            sv(*final(self)).identity == sv(*old(self)).identity,
            sv(*final(self)).idle_limit == sv(*old(self)).idle_limit,
            // a closed session absorbs every event
            sv(*old(self)).state == SessionState::Closed ==> sv(*final(self)) == sv(*old(self))
                && acts@.len() == 0,
            // handshake bytes arrive
            ev matches Event::ClientMessage(m) ==> (sv(*old(self)).state
                == SessionState::AwaitingHandshake ==> {
                let nb = sv(*old(self)).hsbuf + m@;
                if nb.len() > MAX_HANDSHAKE {
                    sv(*final(self)) == (SessionV {
                        state: SessionState::Closed,
                        close_reason: Some(CloseReason::Handshake(HandshakeError::Malformed)),
                        ..sv(*old(self))
                    }) && acts@.len() == 1 && (acts@[0] matches Action::CloseClient(c) && c
                        == ABNORMAL_CLOSURE)
                } else {
                    match hs_outcome(sv(*old(self)).variant, nb, sv(*old(self)).identity, now) {
                        HsOut::More => sv(*final(self)) == (SessionV {
                            hsbuf: nb,
                            idle: 0,
                            ..sv(*old(self))
                        }) && acts@.len() == 0,
                        HsOut::Bad(e) => sv(*final(self)) == (SessionV {
                            state: SessionState::Closed,
                            close_reason: Some(CloseReason::Handshake(e)),
                            hsbuf: nb,
                            idle: 0,
                            ..sv(*old(self))
                        }) && acts@.len() == 1 && (acts@[0] matches Action::CloseClient(c) && c
                            == ABNORMAL_CLOSURE),
                        HsOut::Done { hs: h2, consumed: n2, ctxv, early: e2, preamble: p2 } => sv(
                            *final(self),
                        ) == (SessionV {
                            state: SessionState::Connecting,
                            target: Some(h2),
                            codec: ctxv,
                            hsbuf: Seq::empty(),
                            stash: nb.subrange(n2, nb.len() as int),
                            early: e2,
                            preamble: p2,
                            idle: 0,
                            ..sv(*old(self))
                        }) && acts@.len() == 1 && (acts@[0] matches Action::Connect(aa, pp)
                            && addr_view(aa) == h2.addr && pp == h2.port),
                    }
                }
            }),
            // early client bytes while the connector works
            ev matches Event::ClientMessage(m) ==> (sv(*old(self)).state
                == SessionState::Connecting ==> {
                let ns = sv(*old(self)).stash + m@;
                if ns.len() > MAX_STASH {
                    sv(*final(self)) == (SessionV {
                        state: SessionState::Closed,
                        close_reason: Some(CloseReason::BufferLimit),
                        ..sv(*old(self))
                    }) && acts@.len() == 2 && acts@[0] is CloseOutbound && (acts@[1] matches
                        Action::CloseClient(c) && c == ABNORMAL_CLOSURE)
                } else {
                    sv(*final(self)) == (SessionV { stash: ns, idle: 0, ..sv(*old(self)) })
                        && acts@.len() == 0
                }
            }),
            // relayed client frames
            ev matches Event::ClientMessage(m) ==> ((sv(*old(self)).state
                == SessionState::Relaying || sv(*old(self)).state == SessionState::Closing)
                ==> (sv(*final(self)).state == sv(*old(self)).state || sv(*final(self)).state
                == SessionState::Closed)),
            ev matches Event::ClientMessage(m) ==> (((sv(*old(self)).state
                == SessionState::Relaying || sv(*old(self)).state == SessionState::Closing) && sv(
                *old(self),
            ).codec == CodecV::Plain && sv(*old(self)).inflight < u64::MAX) ==> (if m@.len() > 0 {
                sv(*final(self)) == (SessionV {
                    idle: 0,
                    inflight: (sv(*old(self)).inflight + 1) as u64,
                    bytes_in: satv(sv(*old(self)).bytes_in, m@.len() as int),
                    ..sv(*old(self))
                }) && acts@.len() == 1 && (acts@[0] matches Action::WriteOutbound(w) && w@ == m@)
            } else {
                sv(*final(self)) == (SessionV {
                    idle: 0,
                    bytes_in: satv(sv(*old(self)).bytes_in, 0),
                    ..sv(*old(self))
                }) && acts@.len() == 0
            })),
            ev matches Event::ClientMessage(m) ==> (((sv(*old(self)).state
                == SessionState::Relaying || sv(*old(self)).state == SessionState::Closing) && sv(
                *old(self),
            ).inflight < u64::MAX) ==> (sv(*old(self)).codec matches CodecV::Aead(a) ==> (
            a.recv_ctr <= CTR_LIMIT ==> {
                &&& ((a.inbuf + m@).len() >= 18 && open_of(
                    a.recv_key,
                    nonce_of(a.recv_ctr),
                    (a.inbuf + m@).subrange(0, 18),
                ) is None) ==> (sv(*final(self)).state == SessionState::Closed && sv(
                    *final(self),
                ).close_reason == Some(CloseReason::Codec(CodecError::TamperedOrCorrupt))
                    && acts@.len() == 2 && acts@[0] is CloseOutbound && (acts@[1] matches
                    Action::CloseClient(c) && c == ABNORMAL_CLOSURE))
                &&& forall|q: Seq<u8>|
                    (0 < q.len() <= 65535 && chunk_lens_ok(a.recv_key, a.recv_ctr, q) && a.inbuf
                        + m@ == #[trigger] chunks_of(a.recv_key, a.recv_ctr, q)) ==> (sv(
                        *final(self),
                    ).state == sv(*old(self)).state && acts@.len() == 1 && (acts@[0] matches
                        Action::WriteOutbound(w) && w@ == q) && (sv(*final(self)).codec matches
                        CodecV::Aead(b2) && b2.recv_ctr == a.recv_ctr + 2 && b2.inbuf.len() == 0))
            }))),
            // outbound bytes to encode toward the client
            ev matches Event::OutboundData(b) ==> (sv(*old(self)).state == SessionState::Relaying
                ==> {
                let pre = if !sv(*old(self)).preamble_sent {
                    sv(*old(self)).preamble
                } else {
                    Seq::<u8>::empty()
                };
                match sv(*old(self)).codec {
                    CodecV::Plain => sv(*final(self)) == (SessionV {
                        preamble_sent: true,
                        idle: 0,
                        bytes_out: satv(sv(*old(self)).bytes_out, b@.len() as int),
                        ..sv(*old(self))
                    }) && acts@.len() == 1 && (acts@[0] matches Action::SendClient(w) && w@ == pre
                        + b@),
                    CodecV::Aead(a) => (if a.send_ctr > CTR_LIMIT {
                        sv(*final(self)).state == SessionState::Closed && sv(
                            *final(self),
                        ).close_reason == Some(CloseReason::CounterExhausted) && acts@.len() == 2
                    } else {
                        sv(*final(self)) == (SessionV {
                            codec: CodecV::Aead(AeadV { send_ctr: (a.send_ctr + 2) as u64, ..a }),
                            preamble_sent: true,
                            idle: 0,
                            bytes_out: satv(sv(*old(self)).bytes_out, b@.len() as int),
                            ..sv(*old(self))
                        }) && acts@.len() == 1 && (acts@[0] matches Action::SendClient(w) && w@
                            == pre + chunks_of(a.send_key, a.send_ctr, b@))
                    }),
                }
            }),
            // the connector reports
            ev matches Event::ConnectFailed(e) ==> (sv(*old(self)).state
                == SessionState::Connecting ==> (sv(*final(self)) == (SessionV {
                state: SessionState::Closed,
                close_reason: Some(CloseReason::Connect(e)),
                ..sv(*old(self))
            }) && acts@.len() == 1 && (acts@[0] matches Action::CloseClient(c) && c
                == ABNORMAL_CLOSURE))),
            (sv(*old(self)).state == SessionState::Connecting && ev is Connected) ==> ((sv(
                *final(self),
            ).state == SessionState::Relaying && sv(*final(self)).stash.len() == 0 && sv(
                *final(self),
            ).early.len() == 0) || (sv(*final(self)).state == SessionState::Closed && acts@.len()
                == 2)),
            (sv(*old(self)).state == SessionState::Connecting && ev is Connected && sv(
                *old(self),
            ).codec == CodecV::Plain) ==> {
                let total = sv(*old(self)).early + sv(*old(self)).stash;
                if total.len() > 0 {
                    sv(*final(self)) == (SessionV {
                        state: SessionState::Relaying,
                        stash: Seq::empty(),
                        early: Seq::empty(),
                        inflight: 1,
                        idle: 0,
                        bytes_in: satv(sv(*old(self)).bytes_in, total.len() as int),
                        ..sv(*old(self))
                    }) && acts@.len() == 1 && (acts@[0] matches Action::WriteOutbound(w) && w@
                        == total)
                } else {
                    sv(*final(self)) == (SessionV {
                        state: SessionState::Relaying,
                        stash: Seq::empty(),
                        early: Seq::empty(),
                        idle: 0,
                        bytes_in: satv(sv(*old(self)).bytes_in, 0),
                        ..sv(*old(self))
                    }) && acts@.len() == 0
                }
            },
            // write acknowledgements and half-close draining
            (sv(*old(self)).state == SessionState::Relaying && ev is OutboundWriteDone) ==> (sv(
                *final(self),
            ) == (SessionV {
                inflight: (if sv(*old(self)).inflight > 0 {
                    (sv(*old(self)).inflight - 1) as u64
                } else {
                    0u64
                }),
                ..sv(*old(self))
            }) && acts@.len() == 0),
            (sv(*old(self)).state == SessionState::Closing && ev is OutboundWriteDone) ==> (if sv(
                *old(self),
            ).inflight <= 1 {
                sv(*final(self)) == (SessionV {
                    state: SessionState::Closed,
                    inflight: 0,
                    close_reason: Some(CloseReason::CleanEof),
                    ..sv(*old(self))
                }) && acts@.len() == 2 && acts@[0] is CloseOutbound && (acts@[1] matches
                    Action::CloseClient(c) && c == NORMAL_CLOSURE)
            } else {
                sv(*final(self)) == (SessionV {
                    inflight: (sv(*old(self)).inflight - 1) as u64,
                    ..sv(*old(self))
                }) && acts@.len() == 0
            }),
            (sv(*old(self)).state == SessionState::Relaying && ev is OutboundEof) ==> (if sv(
                *old(self),
            ).inflight > 0 {
                sv(*final(self)) == (SessionV { state: SessionState::Closing, ..sv(*old(self)) })
                    && acts@.len() == 0
            } else {
                sv(*final(self)) == (SessionV {
                    state: SessionState::Closed,
                    close_reason: Some(CloseReason::CleanEof),
                    ..sv(*old(self))
                }) && acts@.len() == 2 && acts@[0] is CloseOutbound && (acts@[1] matches
                    Action::CloseClient(c) && c == NORMAL_CLOSURE)
            }),
            (sv(*old(self)).state == SessionState::Closing && ev is DrainTimeout) ==> (sv(
                *final(self),
            ) == (SessionV {
                state: SessionState::Closed,
                close_reason: Some(CloseReason::DrainTimeout),
                ..sv(*old(self))
            }) && acts@.len() == 2 && acts@[0] is CloseOutbound && (acts@[1] matches
                Action::CloseClient(c) && c == ABNORMAL_CLOSURE)),
            // the client hangs up
            (sv(*old(self)).state == SessionState::AwaitingHandshake && ev is ClientClosed) ==> (
            sv(*final(self)) == (SessionV {
                state: SessionState::Closed,
                close_reason: Some(CloseReason::ClientGone),
                ..sv(*old(self))
            }) && acts@.len() == 0),
            ((sv(*old(self)).state == SessionState::Connecting || sv(*old(self)).state
                == SessionState::Relaying || sv(*old(self)).state == SessionState::Closing) && ev
                is ClientClosed) ==> (sv(*final(self)) == (SessionV {
                state: SessionState::Closed,
                close_reason: Some(CloseReason::ClientGone),
                ..sv(*old(self))
            }) && acts@.len() == 1 && acts@[0] is CloseOutbound),
            // idleness
            (sv(*old(self)).state != SessionState::Closed && ev is Tick) ==> (if sv(
                *old(self),
            ).idle + 1 >= sv(*old(self)).idle_limit {
                sv(*final(self)) == (SessionV {
                    state: SessionState::Closed,
                    idle: sv(*old(self)).idle_limit,
                    close_reason: Some(CloseReason::IdleTimeout),
                    ..sv(*old(self))
                }) && (if sv(*old(self)).state == SessionState::AwaitingHandshake {
                    acts@.len() == 1 && (acts@[0] matches Action::CloseClient(c) && c
                        == ABNORMAL_CLOSURE)
                } else {
                    acts@.len() == 2 && acts@[0] is CloseOutbound && (acts@[1] matches
                        Action::CloseClient(c) && c == ABNORMAL_CLOSURE)
                })
            } else {
                sv(*final(self)) == (SessionV {
                    idle: (sv(*old(self)).idle + 1) as u64,
                    ..sv(*old(self))
                }) && acts@.len() == 0
            }),
            // events that do not apply to the current state change nothing
            (ev is Connected && sv(*old(self)).state != SessionState::Connecting) ==> (sv(
                *final(self),
            ) == sv(*old(self)) && acts@.len() == 0),
            ev matches Event::ConnectFailed(e) ==> (sv(*old(self)).state
                != SessionState::Connecting ==> (sv(*final(self)) == sv(*old(self)) && acts@.len()
                == 0)),
            ev matches Event::OutboundData(b) ==> (sv(*old(self)).state != SessionState::Relaying
                ==> (sv(*final(self)) == sv(*old(self)) && acts@.len() == 0)),
            (ev is OutboundWriteDone && sv(*old(self)).state != SessionState::Relaying && sv(
                *old(self),
            ).state != SessionState::Closing) ==> (sv(*final(self)) == sv(*old(self))
                && acts@.len() == 0),
            (ev is OutboundEof && sv(*old(self)).state != SessionState::Relaying) ==> (sv(
                *final(self),
            ) == sv(*old(self)) && acts@.len() == 0),
            // a failed outbound write is terminal
            ((sv(*old(self)).state == SessionState::Relaying || sv(*old(self)).state
                == SessionState::Closing) && ev is OutboundWriteFailed) ==> (sv(*final(self)) == (
            SessionV {
                state: SessionState::Closed,
                close_reason: Some(CloseReason::WriteFailed),
                ..sv(*old(self))
            }) && acts@.len() == 2 && acts@[0] is CloseOutbound && (acts@[1] matches
                Action::CloseClient(c) && c == ABNORMAL_CLOSURE)),
            (ev is OutboundWriteFailed && sv(*old(self)).state != SessionState::Relaying && sv(
                *old(self),
            ).state != SessionState::Closing) ==> (sv(*final(self)) == sv(*old(self))
                && acts@.len() == 0),
            (ev is DrainTimeout && sv(*old(self)).state != SessionState::Closing) ==> (sv(
                *final(self),
            ) == sv(*old(self)) && acts@.len() == 0),
    {
        match ev {
            Event::ClientMessage(m) => self.on_client_message(m, now),
            Event::ClientClosed => {
                match self.state {
                    SessionState::Closed => no_acts(),
                    SessionState::AwaitingHandshake => {
                        self.state = SessionState::Closed;
                        self.close_reason = Some(CloseReason::ClientGone);
                        no_acts()
                    },
                    _ => {
                        self.state = SessionState::Closed;
                        self.close_reason = Some(CloseReason::ClientGone);
                        one_act(Action::CloseOutbound)
                    },
                }
            },
            Event::Connected => self.on_connected(),
            Event::ConnectFailed(e) => {
                if matches!(self.state, SessionState::Connecting) {
                    self.state = SessionState::Closed;
                    self.close_reason = Some(CloseReason::Connect(e));
                    one_act(Action::CloseClient(ABNORMAL_CLOSURE))
                } else {
                    no_acts()
                }
            },
            Event::OutboundData(b) => self.on_outbound_data(b),
            Event::OutboundWriteDone => {
                match self.state {
                    SessionState::Relaying => {
                        if self.inflight > 0 {
                            self.inflight = self.inflight - 1;
                        }
                        no_acts()
                    },
                    SessionState::Closing => {
                        if self.inflight <= 1 {
                            self.inflight = 0;
                            self.state = SessionState::Closed;
                            self.close_reason = Some(CloseReason::CleanEof);
                            two_acts(Action::CloseOutbound, Action::CloseClient(NORMAL_CLOSURE))
                        } else {
                            self.inflight = self.inflight - 1;
                            no_acts()
                        }
                    },
                    _ => no_acts(),
                }
            },
            Event::OutboundWriteFailed => {
                match self.state {
                    SessionState::Relaying | SessionState::Closing => {
                        self.state = SessionState::Closed;
                        self.close_reason = Some(CloseReason::WriteFailed);
                        two_acts(Action::CloseOutbound, Action::CloseClient(ABNORMAL_CLOSURE))
                    },
                    _ => no_acts(),
                }
            },
            Event::OutboundEof => {
                if matches!(self.state, SessionState::Relaying) {
                    if self.inflight > 0 {
                        self.state = SessionState::Closing;
                        no_acts()
                    } else {
                        self.state = SessionState::Closed;
                        self.close_reason = Some(CloseReason::CleanEof);
                        two_acts(Action::CloseOutbound, Action::CloseClient(NORMAL_CLOSURE))
                    }
                } else {
                    no_acts()
                }
            },
            Event::Tick => {
                match self.state {
                    SessionState::Closed => no_acts(),
                    SessionState::AwaitingHandshake => {
                        if self.idle >= self.idle_limit - 1 {
                            self.idle = self.idle_limit;
                            self.state = SessionState::Closed;
                            self.close_reason = Some(CloseReason::IdleTimeout);
                            one_act(Action::CloseClient(ABNORMAL_CLOSURE))
                        } else {
                            self.idle = self.idle + 1;
                            no_acts()
                        }
                    },
                    _ => {
                        if self.idle >= self.idle_limit - 1 {
                            self.idle = self.idle_limit;
                            self.state = SessionState::Closed;
                            self.close_reason = Some(CloseReason::IdleTimeout);
                            two_acts(Action::CloseOutbound, Action::CloseClient(ABNORMAL_CLOSURE))
                        } else {
                            self.idle = self.idle + 1;
                            no_acts()
                        }
                    },
                }
            },
            Event::DrainTimeout => {
                if matches!(self.state, SessionState::Closing) {
                    self.state = SessionState::Closed;
                    self.close_reason = Some(CloseReason::DrainTimeout);
                    two_acts(Action::CloseOutbound, Action::CloseClient(ABNORMAL_CLOSURE))
                } else {
                    no_acts()
                }
            },
        }
    }
}

} // verus!
