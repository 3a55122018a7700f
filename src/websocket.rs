//! The WebSocket bridge: each direction forwards frames verbatim until the
//! stream ends, a read or a write fails, or a close frame has gone through.
use vstd::prelude::*;

verus! {

pub enum WsMessage {
    Text(String),
    Binary(Vec<u8>),
    Ping(Vec<u8>),
    Pong(Vec<u8>),
    Close,
}

/// What the reading side of a direction yields.
pub enum WsReceived {
    Message(WsMessage),
    ReadError,
    End,
}

pub enum WsStep {
    /// Send the frame to the other side.
    Send(WsMessage),
    /// Stop this direction.
    Stop,
}

/// Whether a direction keeps going after it sent `m` with outcome `ok`.
pub open spec fn continues_after(m: WsMessage, ok: bool) -> bool {
    ok && !(m is Close)
}

/// The step for what was read.
pub fn on_received(r: WsReceived) -> (s: WsStep)
    ensures
        match r {
            WsReceived::Message(m) => s == WsStep::Send(m),
            _ => s matches WsStep::Stop,
        },
{
    match r {
        WsReceived::Message(m) => WsStep::Send(m),
        WsReceived::ReadError => WsStep::Stop,
        WsReceived::End => WsStep::Stop,
    }
}

/// Whether to read again after sending `m`: not after a failed write, and
/// not after a close frame.
pub fn after_send(m: &WsMessage, ok: bool) -> (r: bool)
    ensures
        r == continues_after(*m, ok),
{
    match m {
        WsMessage::Close => false,
        _ => ok,
    }
}

} // verus!
