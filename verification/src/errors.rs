use vstd::prelude::*;

verus! {

/// Why a handshake was rejected. Any of these is terminal for the session.
#[derive(Clone, Copy, PartialEq, Eq, Structural, Debug)]
pub enum HandshakeError {
    AuthFailed,
    UnsupportedCommand,
    Malformed,
}

/// Why a payload frame was rejected. Terminal: a corrupted cipher stream
/// cannot be resynchronised.
#[derive(Clone, Copy, PartialEq, Eq, Structural, Debug)]
pub enum CodecError {
    TamperedOrCorrupt,
}

/// Why the outbound connection could not be opened.
#[derive(Clone, Copy, PartialEq, Eq, Structural, Debug)]
pub enum ConnectError {
    Timeout,
    Refused,
    UnresolvedHost,
    NotPermitted,
}

/// The reason a session reached `Closed`, recorded for the operational log.
#[derive(Clone, Copy, PartialEq, Eq, Structural, Debug)]
pub enum CloseReason {
    Handshake(HandshakeError),
    Codec(CodecError),
    Connect(ConnectError),
    IdleTimeout,
    DrainTimeout,
    ClientGone,
    WriteFailed,
    CleanEof,
    CounterExhausted,
    BufferLimit,
}

} // verus!
