//! The transport boundary: what each message delivered by the underlying
//! message transport means to the session. Binary and text messages carry
//! one frame each — a text message counts as its bytes — while close, ping
//! and pong belong to the transport itself and never reach the codec.

use vstd::prelude::*;

verus! {

/// One message as the transport hands it over.
#[derive(Clone, Debug, PartialEq, Eq)]
pub enum TransportMessage {
    /// A binary message: one frame.
    Binary(Vec<u8>),
    /// A text message: its UTF-8 bytes are one frame.
    Text(Vec<u8>),
    /// The transport-level close: the session is over.
    Close,
    /// A transport-level keep-alive; answered by the transport, not by the
    /// session.
    Ping(Vec<u8>),
    Pong(Vec<u8>),
    /// The transport failed; the session is over.
    Failed,
}

/// What the session does with one transport message.
#[derive(Clone, Debug, PartialEq, Eq)]
pub enum TransportEvent {
    /// Decode these bytes as one frame.
    Frame(Vec<u8>),
    /// End of the session.
    EndOfSession,
    /// Nothing for the session; keep reading.
    Skip,
}

/// The boundary rule itself.
pub open spec fn spec_transport_event(m: TransportMessage) -> TransportEvent {
    match m {
        TransportMessage::Binary(b) => TransportEvent::Frame(b),
        TransportMessage::Text(t) => TransportEvent::Frame(t),
        TransportMessage::Close => TransportEvent::EndOfSession,
        TransportMessage::Ping(_) => TransportEvent::Skip,
        TransportMessage::Pong(_) => TransportEvent::Skip,
        TransportMessage::Failed => TransportEvent::EndOfSession,
    }
}

/// Classify one transport message, exactly [`spec_transport_event`]; the
/// bytes of a binary or text message come through unchanged.
pub fn transport_event(m: TransportMessage) -> (e: TransportEvent)
    ensures
        e == spec_transport_event(m),
        m matches TransportMessage::Binary(b) ==> (e matches TransportEvent::Frame(f) && f@ == b@),
        m matches TransportMessage::Text(t) ==> (e matches TransportEvent::Frame(f) && f@ == t@),
{
    match m {
        TransportMessage::Binary(b) => TransportEvent::Frame(b),
        TransportMessage::Text(t) => TransportEvent::Frame(t),
        TransportMessage::Close => TransportEvent::EndOfSession,
        TransportMessage::Ping(_) => TransportEvent::Skip,
        TransportMessage::Pong(_) => TransportEvent::Skip,
        TransportMessage::Failed => TransportEvent::EndOfSession,
    }
}

} // verus!
