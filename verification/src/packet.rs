//! The frame codec: packets as values, their fixed little-endian wire form,
//! and the proof that decoding an encoded packet gives the packet back.
//!
//! Wire form: one opcode byte, four little-endian stream-id bytes, then an
//! opcode-specific payload that fills the rest of the message.

use vstd::prelude::*;
use vstd::slice::slice_to_vec;

verus! {

pub const OP_CONNECT: u8 = 0x01;

pub const OP_DATA: u8 = 0x02;

pub const OP_CONTINUE: u8 = 0x03;

pub const OP_CLOSE: u8 = 0x04;

pub const OP_PING: u8 = 0x05;

pub const OP_PONG: u8 = 0x06;

pub const OP_INFO: u8 = 0x07;

/// Lowest opcode of the extension-reserved range.
pub const OP_EXTENSION_BASE: u8 = 0x80;

pub const REASON_VOLUNTARY: u8 = 0x02;

pub const REASON_UNEXPECTED: u8 = 0x03;

pub const REASON_INVALID_INFO: u8 = 0x41;

pub const REASON_UNREACHABLE: u8 = 0x42;

pub const REASON_TIMEOUT: u8 = 0x43;

pub const REASON_REFUSED: u8 = 0x44;

pub const REASON_BLOCKED: u8 = 0x47;

pub const STREAM_TYPE_TCP: u8 = 0x01;

pub const STREAM_TYPE_UDP: u8 = 0x02;

/// The kind of stream a CONNECT asks for.
#[derive(Clone, Copy, Debug, PartialEq, Eq, Structural)]
pub enum StreamType {
    Tcp,
    Udp,
    Other(u8),
}

/// Coded cause carried by a CLOSE frame. The general causes sit in one
/// numeric range, the server-stream causes in another.
#[derive(Clone, Copy, Debug, PartialEq, Eq, Structural)]
pub enum CloseReason {
    Voluntary,
    Unexpected,
    ServerStreamInvalidInfo,
    ServerStreamUnreachable,
    ServerStreamTimeout,
    ServerStreamConnectionRefused,
    ServerStreamBlockedAddress,
    Unknown(u8),
}

/// Payload of a CONNECT frame: stream kind, port, and the requested host as
/// UTF-8 bytes (a hostname or an IP literal).
#[derive(Clone, Debug, PartialEq, Eq)]
pub struct ConnectPayload {
    pub stream_type: StreamType,
    pub port: u16,
    pub host: Vec<u8>,
}

/// Mathematical model of a CONNECT payload.
#[verifier::ext_equal]
pub struct ConnectPayloadView {
    pub stream_type: StreamType,
    pub port: u16,
    pub host: Seq<u8>,
}

impl View for ConnectPayload {
    type V = ConnectPayloadView;

    open spec fn view(&self) -> ConnectPayloadView {
        ConnectPayloadView { stream_type: self.stream_type, port: self.port, host: self.host@ }
    }
}

/// The opcode-specific part of a packet.
#[derive(Clone, Debug, PartialEq, Eq)]
pub enum PacketBody {
    Connect(ConnectPayload),
    Data(Vec<u8>),
    Continue(u32),
    Close(CloseReason),
    Ping(Vec<u8>),
    Pong(Vec<u8>),
    Info { major: u8, minor: u8, extensions: Vec<u8> },
    Extension { id: u8, payload: Vec<u8> },
}

/// Mathematical model of a packet body.
#[verifier::ext_equal]
pub enum PacketBodyView {
    Connect(ConnectPayloadView),
    Data(Seq<u8>),
    Continue(u32),
    Close(CloseReason),
    Ping(Seq<u8>),
    Pong(Seq<u8>),
    Info { major: u8, minor: u8, extensions: Seq<u8> },
    Extension { id: u8, payload: Seq<u8> },
}

impl View for PacketBody {
    type V = PacketBodyView;

    open spec fn view(&self) -> PacketBodyView {
        match self {
            PacketBody::Connect(c) => PacketBodyView::Connect(c@),
            PacketBody::Data(d) => PacketBodyView::Data(d@),
            PacketBody::Continue(w) => PacketBodyView::Continue(*w),
            PacketBody::Close(r) => PacketBodyView::Close(*r),
            PacketBody::Ping(d) => PacketBodyView::Ping(d@),
            PacketBody::Pong(d) => PacketBodyView::Pong(d@),
            PacketBody::Info { major, minor, extensions } => PacketBodyView::Info {
                major: *major,
                minor: *minor,
                extensions: extensions@,
            },
            PacketBody::Extension { id, payload } => PacketBodyView::Extension {
                id: *id,
                payload: payload@,
            },
        }
    }
}

/// A decoded frame: the stream it addresses and its body. Stream id `0`
/// addresses the session itself.
#[derive(Clone, Debug, PartialEq, Eq)]
pub struct Packet {
    pub stream_id: u32,
    pub body: PacketBody,
}

/// Mathematical model of a packet.
#[verifier::ext_equal]
pub struct PacketView {
    pub stream_id: u32,
    pub body: PacketBodyView,
}

impl View for Packet {
    type V = PacketView;

    open spec fn view(&self) -> PacketView {
        PacketView { stream_id: self.stream_id, body: self.body@ }
    }
}

/// Why a frame was refused by the codec.
#[derive(Clone, Copy, Debug, PartialEq, Eq, Structural)]
pub enum ProtocolError {
    /// The frame is shorter than its opcode demands.
    Truncated,
    /// The opcode is neither a known one nor in the extension-reserved range.
    UnknownOpcode,
}

/// Little-endian bytes of a `u32`.
pub open spec fn spec_le32(x: u32) -> Seq<u8> {
    seq![
        (x & 0xff) as u8,
        ((x >> 8) & 0xff) as u8,
        ((x >> 16) & 0xff) as u8,
        ((x >> 24) & 0xff) as u8,
    ]
}

/// The `u32` read from four little-endian bytes.
pub open spec fn spec_le32_val(s: Seq<u8>) -> u32 {
    (s[0] as u32) | ((s[1] as u32) << 8) | ((s[2] as u32) << 16) | ((s[3] as u32) << 24)
}

/// Little-endian bytes of a `u16`.
pub open spec fn spec_le16(x: u16) -> Seq<u8> {
    seq![(x & 0xff) as u8, ((x >> 8) & 0xff) as u8]
}

/// The `u16` read from two little-endian bytes.
pub open spec fn spec_le16_val(s: Seq<u8>) -> u16 {
    (s[0] as u16) | ((s[1] as u16) << 8)
}

/// Wire byte of a stream type.
pub open spec fn spec_stream_type_byte(t: StreamType) -> u8 {
    match t {
        StreamType::Tcp => STREAM_TYPE_TCP,
        StreamType::Udp => STREAM_TYPE_UDP,
        StreamType::Other(b) => b,
    }
}

/// Stream type of a wire byte.
pub open spec fn spec_stream_type_of(b: u8) -> StreamType {
    if b == STREAM_TYPE_TCP {
        StreamType::Tcp
    } else if b == STREAM_TYPE_UDP {
        StreamType::Udp
    } else {
        StreamType::Other(b)
    }
}

/// Wire byte of a close reason.
pub open spec fn spec_reason_byte(r: CloseReason) -> u8 {
    match r {
        CloseReason::Voluntary => REASON_VOLUNTARY,
        CloseReason::Unexpected => REASON_UNEXPECTED,
        CloseReason::ServerStreamInvalidInfo => REASON_INVALID_INFO,
        CloseReason::ServerStreamUnreachable => REASON_UNREACHABLE,
        CloseReason::ServerStreamTimeout => REASON_TIMEOUT,
        CloseReason::ServerStreamConnectionRefused => REASON_REFUSED,
        CloseReason::ServerStreamBlockedAddress => REASON_BLOCKED,
        CloseReason::Unknown(b) => b,
    }
}

/// Close reason of a wire byte.
pub open spec fn spec_reason_of(b: u8) -> CloseReason {
    if b == REASON_VOLUNTARY {
        CloseReason::Voluntary
    } else if b == REASON_UNEXPECTED {
        CloseReason::Unexpected
    } else if b == REASON_INVALID_INFO {
        CloseReason::ServerStreamInvalidInfo
    } else if b == REASON_UNREACHABLE {
        CloseReason::ServerStreamUnreachable
    } else if b == REASON_TIMEOUT {
        CloseReason::ServerStreamTimeout
    } else if b == REASON_REFUSED {
        CloseReason::ServerStreamConnectionRefused
    } else if b == REASON_BLOCKED {
        CloseReason::ServerStreamBlockedAddress
    } else {
        CloseReason::Unknown(b)
    }
}

/// Opcode byte of a body.
pub open spec fn spec_opcode_of(b: PacketBodyView) -> u8 {
    match b {
        PacketBodyView::Connect(_) => OP_CONNECT,
        PacketBodyView::Data(_) => OP_DATA,
        PacketBodyView::Continue(_) => OP_CONTINUE,
        PacketBodyView::Close(_) => OP_CLOSE,
        PacketBodyView::Ping(_) => OP_PING,
        PacketBodyView::Pong(_) => OP_PONG,
        PacketBodyView::Info { .. } => OP_INFO,
        PacketBodyView::Extension { id, .. } => id,
    }
}

/// Payload bytes of a body.
pub open spec fn spec_payload_of(b: PacketBodyView) -> Seq<u8> {
    match b {
        PacketBodyView::Connect(c) => seq![spec_stream_type_byte(c.stream_type)] + spec_le16(
            c.port,
        ) + c.host,
        PacketBodyView::Data(d) => d,
        PacketBodyView::Continue(w) => spec_le32(w),
        PacketBodyView::Close(r) => seq![spec_reason_byte(r)],
        PacketBodyView::Ping(d) => d,
        PacketBodyView::Pong(d) => d,
        PacketBodyView::Info { major, minor, extensions } => seq![major, minor] + extensions,
        PacketBodyView::Extension { payload, .. } => payload,
    }
}

/// The wire bytes of a packet.
pub open spec fn spec_encode(p: PacketView) -> Seq<u8> {
    seq![spec_opcode_of(p.body)] + spec_le32(p.stream_id) + spec_payload_of(p.body)
}

/// The packet read from wire bytes, or the protocol error.
pub open spec fn spec_decode(b: Seq<u8>) -> Result<PacketView, ProtocolError> {
    if b.len() < 5 {
        Err(ProtocolError::Truncated)
    } else {
        let op = b[0];
        let id = spec_le32_val(b.subrange(1, 5));
        let pl = b.skip(5);
        if op == OP_CONNECT {
            if pl.len() < 3 {
                Err(ProtocolError::Truncated)
            } else {
                Ok(PacketView {
                    stream_id: id,
                    body: PacketBodyView::Connect(ConnectPayloadView {
                        stream_type: spec_stream_type_of(pl[0]),
                        port: spec_le16_val(pl.subrange(1, 3)),
                        host: pl.skip(3),
                    }),
                })
            }
        } else if op == OP_DATA {
            Ok(PacketView { stream_id: id, body: PacketBodyView::Data(pl) })
        } else if op == OP_CONTINUE {
            if pl.len() != 4 {
                Err(ProtocolError::Truncated)
            } else {
                Ok(PacketView { stream_id: id, body: PacketBodyView::Continue(spec_le32_val(pl)) })
            }
        } else if op == OP_CLOSE {
            if pl.len() != 1 {
                Err(ProtocolError::Truncated)
            } else {
                Ok(PacketView { stream_id: id, body: PacketBodyView::Close(spec_reason_of(pl[0])) })
            }
        } else if op == OP_PING {
            Ok(PacketView { stream_id: id, body: PacketBodyView::Ping(pl) })
        } else if op == OP_PONG {
            Ok(PacketView { stream_id: id, body: PacketBodyView::Pong(pl) })
        } else if op == OP_INFO {
            if pl.len() < 2 {
                Err(ProtocolError::Truncated)
            } else {
                Ok(PacketView {
                    stream_id: id,
                    body: PacketBodyView::Info {
                        major: pl[0],
                        minor: pl[1],
                        extensions: pl.skip(2),
                    },
                })
            }
        } else if op >= OP_EXTENSION_BASE {
            Ok(PacketView { stream_id: id, body: PacketBodyView::Extension { id: op, payload: pl } })
        } else {
            Err(ProtocolError::UnknownOpcode)
        }
    }
}

/// A packet whose wire form decodes back to itself: extension ids lie in the
/// extension-reserved range, and catch-all variants do not shadow a named
/// wire value.
pub open spec fn well_formed(p: PacketView) -> bool {
    match p.body {
        PacketBodyView::Connect(c) => match c.stream_type {
            StreamType::Other(b) => b != STREAM_TYPE_TCP && b != STREAM_TYPE_UDP,
            _ => true,
        },
        PacketBodyView::Close(r) => match r {
            CloseReason::Unknown(b) => b != REASON_VOLUNTARY && b != REASON_UNEXPECTED && b
                != REASON_INVALID_INFO && b != REASON_UNREACHABLE && b != REASON_TIMEOUT && b
                != REASON_REFUSED && b != REASON_BLOCKED,
            _ => true,
        },
        PacketBodyView::Extension { id, .. } => id >= OP_EXTENSION_BASE,
        _ => true,
    }
}

proof fn lemma_le32_round(x: u32)
    ensures
        spec_le32_val(spec_le32(x)) == x,
{
    assert((((x & 0xff) as u8) as u32) | ((((x >> 8) & 0xff) as u8) as u32) << 8 | ((((x >> 16)
        & 0xff) as u8) as u32) << 16 | ((((x >> 24) & 0xff) as u8) as u32) << 24 == x)
        by (bit_vector);
}

proof fn lemma_le16_round(x: u16)
    ensures
        spec_le16_val(spec_le16(x)) == x,
{
    assert((((x & 0xff) as u8) as u16) | ((((x >> 8) & 0xff) as u8) as u16) << 8 == x)
        by (bit_vector);
}

/// Append the little-endian bytes of `x`.
fn push_le32(out: &mut Vec<u8>, x: u32)
    ensures
        final(out)@ == old(out)@ + spec_le32(x),
{
    out.push((x & 0xff) as u8);
    out.push(((x >> 8) & 0xff) as u8);
    out.push(((x >> 16) & 0xff) as u8);
    out.push(((x >> 24) & 0xff) as u8);
    proof {
        assert(out@ =~= old(out)@ + spec_le32(x));
    }
}

/// Append the little-endian bytes of `x`.
fn push_le16(out: &mut Vec<u8>, x: u16)
    ensures
        final(out)@ == old(out)@ + spec_le16(x),
{
    out.push((x & 0xff) as u8);
    out.push(((x >> 8) & 0xff) as u8);
    proof {
        assert(out@ =~= old(out)@ + spec_le16(x));
    }
}

/// Read a `u32` from four little-endian bytes.
fn read_le32(s: &[u8]) -> (r: u32)
    requires
        s@.len() == 4,
    ensures
        r == spec_le32_val(s@),
{
    (s[0] as u32) | ((s[1] as u32) << 8) | ((s[2] as u32) << 16) | ((s[3] as u32) << 24)
}

/// Read a `u16` from two little-endian bytes.
fn read_le16(s: &[u8]) -> (r: u16)
    requires
        s@.len() == 2,
    ensures
        r == spec_le16_val(s@),
{
    (s[0] as u16) | ((s[1] as u16) << 8)
}

/// Encode a packet into its wire bytes, exactly [`spec_encode`].
pub fn encode(p: &Packet) -> (r: Vec<u8>)
    ensures
        r@ == spec_encode(p@),
{
    let mut out: Vec<u8> = Vec::new();
    match &p.body {
        PacketBody::Connect(_) => out.push(OP_CONNECT),
        PacketBody::Data(_) => out.push(OP_DATA),
        PacketBody::Continue(_) => out.push(OP_CONTINUE),
        PacketBody::Close(_) => out.push(OP_CLOSE),
        PacketBody::Ping(_) => out.push(OP_PING),
        PacketBody::Pong(_) => out.push(OP_PONG),
        PacketBody::Info { .. } => out.push(OP_INFO),
        PacketBody::Extension { id, .. } => out.push(*id),
    }
    push_le32(&mut out, p.stream_id);
    match &p.body {
        PacketBody::Connect(c) => {
            match c.stream_type {
                StreamType::Tcp => out.push(STREAM_TYPE_TCP),
                StreamType::Udp => out.push(STREAM_TYPE_UDP),
                StreamType::Other(b) => out.push(b),
            }
            push_le16(&mut out, c.port);
            out.extend_from_slice(c.host.as_slice());
        },
        PacketBody::Data(d) => {
            out.extend_from_slice(d.as_slice());
        },
        PacketBody::Continue(w) => {
            push_le32(&mut out, *w);
        },
        PacketBody::Close(r) => {
            match r {
                CloseReason::Voluntary => out.push(REASON_VOLUNTARY),
                CloseReason::Unexpected => out.push(REASON_UNEXPECTED),
                CloseReason::ServerStreamInvalidInfo => out.push(REASON_INVALID_INFO),
                CloseReason::ServerStreamUnreachable => out.push(REASON_UNREACHABLE),
                CloseReason::ServerStreamTimeout => out.push(REASON_TIMEOUT),
                CloseReason::ServerStreamConnectionRefused => out.push(REASON_REFUSED),
                CloseReason::ServerStreamBlockedAddress => out.push(REASON_BLOCKED),
                CloseReason::Unknown(b) => out.push(*b),
            }
        },
        PacketBody::Ping(d) => {
            out.extend_from_slice(d.as_slice());
        },
        PacketBody::Pong(d) => {
            out.extend_from_slice(d.as_slice());
        },
        PacketBody::Info { major, minor, extensions } => {
            out.push(*major);
            out.push(*minor);
            out.extend_from_slice(extensions.as_slice());
        },
        PacketBody::Extension { payload, .. } => {
            out.extend_from_slice(payload.as_slice());
        },
    }
    proof {
        assert(out@ =~= spec_encode(p@));
    }
    out
}

/// Decode wire bytes into a packet, exactly [`spec_decode`].
pub fn decode(b: &[u8]) -> (r: Result<Packet, ProtocolError>)
    ensures
        match r {
            Ok(p) => spec_decode(b@) == Ok::<PacketView, ProtocolError>(p@),
            Err(e) => spec_decode(b@) == Err::<PacketView, ProtocolError>(e),
        },
{
    if b.len() < 5 {
        return Err(ProtocolError::Truncated);
    }
    let op = b[0];
    let id_bytes = &b[1..5];
    let id = read_le32(id_bytes);
    let pl = &b[5..b.len()];
    proof {
        assert(pl@ =~= b@.skip(5));
    }
    if op == OP_CONNECT {
        if pl.len() < 3 {
            Err(ProtocolError::Truncated)
        } else {
            let tb = pl[0];
            let stream_type = if tb == STREAM_TYPE_TCP {
                StreamType::Tcp
            } else if tb == STREAM_TYPE_UDP {
                StreamType::Udp
            } else {
                StreamType::Other(tb)
            };
            let port_bytes = &pl[1..3];
            let port = read_le16(port_bytes);
            let host_bytes = &pl[3..pl.len()];
            let host = slice_to_vec(host_bytes);
            proof {
                assert(pl@.skip(3) =~= host_bytes@);
            }
            Ok(Packet { stream_id: id, body: PacketBody::Connect(ConnectPayload { stream_type, port, host }) })
        }
    } else if op == OP_DATA {
        Ok(Packet { stream_id: id, body: PacketBody::Data(slice_to_vec(pl)) })
    } else if op == OP_CONTINUE {
        if pl.len() != 4 {
            Err(ProtocolError::Truncated)
        } else {
            Ok(Packet { stream_id: id, body: PacketBody::Continue(read_le32(pl)) })
        }
    } else if op == OP_CLOSE {
        if pl.len() != 1 {
            Err(ProtocolError::Truncated)
        } else {
            let rb = pl[0];
            let reason = if rb == REASON_VOLUNTARY {
                CloseReason::Voluntary
            } else if rb == REASON_UNEXPECTED {
                CloseReason::Unexpected
            } else if rb == REASON_INVALID_INFO {
                CloseReason::ServerStreamInvalidInfo
            } else if rb == REASON_UNREACHABLE {
                CloseReason::ServerStreamUnreachable
            } else if rb == REASON_TIMEOUT {
                CloseReason::ServerStreamTimeout
            } else if rb == REASON_REFUSED {
                CloseReason::ServerStreamConnectionRefused
            } else if rb == REASON_BLOCKED {
                CloseReason::ServerStreamBlockedAddress
            } else {
                CloseReason::Unknown(rb)
            };
            Ok(Packet { stream_id: id, body: PacketBody::Close(reason) })
        }
    } else if op == OP_PING {
        Ok(Packet { stream_id: id, body: PacketBody::Ping(slice_to_vec(pl)) })
    } else if op == OP_PONG {
        Ok(Packet { stream_id: id, body: PacketBody::Pong(slice_to_vec(pl)) })
    } else if op == OP_INFO {
        if pl.len() < 2 {
            Err(ProtocolError::Truncated)
        } else {
            let major = pl[0];
            let minor = pl[1];
            let ext_bytes = &pl[2..pl.len()];
            let extensions = slice_to_vec(ext_bytes);
            proof {
                assert(pl@.skip(2) =~= ext_bytes@);
            }
            Ok(Packet { stream_id: id, body: PacketBody::Info { major, minor, extensions } })
        }
    } else if op >= OP_EXTENSION_BASE {
        Ok(Packet { stream_id: id, body: PacketBody::Extension { id: op, payload: slice_to_vec(pl) } })
    } else {
        Err(ProtocolError::UnknownOpcode)
    }
}

/// Round trip of the codec: a well-formed packet decodes from its own wire
/// bytes unchanged.
pub proof fn lemma_codec_round_trip(p: PacketView)
    requires
        well_formed(p),
    ensures
        spec_decode(spec_encode(p)) == Ok::<PacketView, ProtocolError>(p),
{
    let e = spec_encode(p);
    let pre = seq![spec_opcode_of(p.body)] + spec_le32(p.stream_id);
    assert(pre.len() == 5);
    assert(e.len() >= 5);
    assert(e[0] == spec_opcode_of(p.body));
    assert(e.subrange(1, 5) =~= spec_le32(p.stream_id));
    assert(e.skip(5) =~= spec_payload_of(p.body));
    lemma_le32_round(p.stream_id);
    let pl = e.skip(5);
    match p.body {
        PacketBodyView::Connect(c) => {
            assert(pl[0] == spec_stream_type_byte(c.stream_type));
            assert(pl.subrange(1, 3) =~= spec_le16(c.port));
            assert(pl.skip(3) =~= c.host);
            lemma_le16_round(c.port);
            assert(spec_stream_type_of(spec_stream_type_byte(c.stream_type)) == c.stream_type);
            assert(spec_decode(e).unwrap() =~= p);
        },
        PacketBodyView::Data(d) => {
            assert(spec_decode(e).unwrap() =~= p);
        },
        PacketBodyView::Continue(w) => {
            assert(pl =~= spec_le32(w));
            lemma_le32_round(w);
            assert(spec_decode(e).unwrap() =~= p);
        },
        PacketBodyView::Close(r) => {
            assert(pl[0] == spec_reason_byte(r));
            assert(spec_reason_of(spec_reason_byte(r)) == r);
            assert(spec_decode(e).unwrap() =~= p);
        },
        PacketBodyView::Ping(d) => {
            assert(spec_decode(e).unwrap() =~= p);
        },
        PacketBodyView::Pong(d) => {
            assert(spec_decode(e).unwrap() =~= p);
        },
        PacketBodyView::Info { major, minor, extensions } => {
            assert(pl[0] == major && pl[1] == minor);
            assert(pl.skip(2) =~= extensions);
            assert(spec_decode(e).unwrap() =~= p);
        },
        PacketBodyView::Extension { id, payload } => {
            assert(id >= OP_EXTENSION_BASE);
            assert(id != OP_CONNECT && id != OP_DATA && id != OP_CONTINUE && id != OP_CLOSE && id
                != OP_PING && id != OP_PONG && id != OP_INFO);
            assert(spec_decode(e).unwrap() =~= p);
        },
    }
}

} // verus!
