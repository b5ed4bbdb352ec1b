//! The bidirectional forwarder, as a decision function: the surrounding
//! process races "bytes from the stream's reader" against "bytes from the
//! target socket", hands each observation here, and performs the returned
//! action. The same mapping serves TCP and UDP; for UDP each datagram maps
//! one-to-one to a DATA frame, unchanged.

use vstd::prelude::*;

use crate::packet::CloseReason;

verus! {

/// Largest UDP payload: one datagram always fits one recv buffer.
pub const UDP_MAX_DATAGRAM: usize = 65507;

/// What the forwarder observed in one iteration of its race.
#[derive(Clone, Debug, PartialEq, Eq)]
pub enum ForwardEvent {
    /// Bytes arrived from the stream's reader.
    MuxData(Vec<u8>),
    /// The stream's read side ended: the peer closed, or the session is
    /// over.
    MuxEof,
    /// The stream's read side failed.
    MuxError,
    /// Bytes read from the target: for TCP a read of up to the buffer
    /// size, for UDP one whole datagram.
    SockData(Vec<u8>),
    /// The target ended the connection (a TCP read of zero bytes).
    SockEof,
    /// Reading from the target failed.
    SockError,
    /// A previous write — to the target or onto the stream — failed.
    WriteFailed,
}

/// What the forwarder must do with one observation.
#[derive(Clone, Debug, PartialEq, Eq)]
pub enum ForwardAction {
    /// Write all these bytes to the target socket, then continue the loop.
    WriteTarget(Vec<u8>),
    /// Send these bytes as one DATA frame on the stream, then continue.
    SendMux(Vec<u8>),
    /// Leave the loop, close the target socket, and close the stream with
    /// this reason.
    Stop(CloseReason),
}

/// The forwarding decision: data is copied through unchanged in either
/// direction; end-of-stream on either side is a clean stop (close
/// voluntary); any error stops with an unexpected close.
pub open spec fn spec_forward_step(event: ForwardEvent) -> ForwardAction {
    match event {
        ForwardEvent::MuxData(d) => ForwardAction::WriteTarget(d),
        ForwardEvent::SockData(d) => ForwardAction::SendMux(d),
        ForwardEvent::MuxEof => ForwardAction::Stop(CloseReason::Voluntary),
        ForwardEvent::SockEof => ForwardAction::Stop(CloseReason::Voluntary),
        ForwardEvent::MuxError => ForwardAction::Stop(CloseReason::Unexpected),
        ForwardEvent::SockError => ForwardAction::Stop(CloseReason::Unexpected),
        ForwardEvent::WriteFailed => ForwardAction::Stop(CloseReason::Unexpected),
    }
}

/// One forwarder decision, exactly [`spec_forward_step`]. In particular a
/// datagram or buffer handed through comes out byte-for-byte unchanged.
pub fn forward_step(event: ForwardEvent) -> (a: ForwardAction)
    ensures
        a == spec_forward_step(event),
        event matches ForwardEvent::MuxData(d) ==> (a matches ForwardAction::WriteTarget(w) && w@
            == d@),
        event matches ForwardEvent::SockData(d) ==> (a matches ForwardAction::SendMux(w) && w@
            == d@),
{
    match event {
        ForwardEvent::MuxData(d) => ForwardAction::WriteTarget(d),
        ForwardEvent::SockData(d) => ForwardAction::SendMux(d),
        ForwardEvent::MuxEof => ForwardAction::Stop(CloseReason::Voluntary),
        ForwardEvent::SockEof => ForwardAction::Stop(CloseReason::Voluntary),
        ForwardEvent::MuxError => ForwardAction::Stop(CloseReason::Unexpected),
        ForwardEvent::SockError => ForwardAction::Stop(CloseReason::Unexpected),
        ForwardEvent::WriteFailed => ForwardAction::Stop(CloseReason::Unexpected),
    }
}

} // verus!
