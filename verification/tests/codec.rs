use wisp_core::packet::CloseReason;
use wisp_core::packet::ConnectPayload;
use wisp_core::packet::Packet;
use wisp_core::packet::PacketBody;
use wisp_core::packet::ProtocolError;
use wisp_core::packet::StreamType;
use wisp_core::packet::decode;
use wisp_core::packet::encode;

fn round_trip(p: Packet) {
    let bytes = encode(&p);
    let back = decode(&bytes).expect("well-formed packet must decode");
    assert_eq!(back, p);
}

#[test]
fn round_trip_connect() {
    round_trip(Packet {
        stream_id: 1,
        body: PacketBody::Connect(ConnectPayload {
            stream_type: StreamType::Tcp,
            port: 443,
            host: b"example.com".to_vec(),
        }),
    });
    round_trip(Packet {
        stream_id: 7,
        body: PacketBody::Connect(ConnectPayload {
            stream_type: StreamType::Udp,
            port: 53,
            host: b"dns.example".to_vec(),
        }),
    });
    round_trip(Packet {
        stream_id: 9,
        body: PacketBody::Connect(ConnectPayload {
            stream_type: StreamType::Other(9),
            port: 0,
            host: Vec::new(),
        }),
    });
}

#[test]
fn round_trip_data() {
    round_trip(Packet { stream_id: 3, body: PacketBody::Data(vec![0, 1, 2, 254, 255]) });
    round_trip(Packet { stream_id: 0xFFFF_FFFF, body: PacketBody::Data(Vec::new()) });
}

#[test]
fn round_trip_continue_close() {
    round_trip(Packet { stream_id: 0, body: PacketBody::Continue(0xDEAD_BEEF) });
    for reason in [
        CloseReason::Voluntary,
        CloseReason::Unexpected,
        CloseReason::ServerStreamInvalidInfo,
        CloseReason::ServerStreamUnreachable,
        CloseReason::ServerStreamTimeout,
        CloseReason::ServerStreamConnectionRefused,
        CloseReason::ServerStreamBlockedAddress,
        CloseReason::Unknown(0x01),
        CloseReason::Unknown(0x99),
    ] {
        round_trip(Packet { stream_id: 4, body: PacketBody::Close(reason) });
    }
}

#[test]
fn round_trip_ping_pong_info_extension() {
    round_trip(Packet { stream_id: 0, body: PacketBody::Ping(vec![1, 2, 3]) });
    round_trip(Packet { stream_id: 0, body: PacketBody::Pong(Vec::new()) });
    round_trip(Packet {
        stream_id: 0,
        body: PacketBody::Info { major: 2, minor: 0, extensions: vec![1, 2] },
    });
    round_trip(Packet {
        stream_id: 5,
        body: PacketBody::Extension { id: 0x80, payload: vec![9, 9] },
    });
    round_trip(Packet { stream_id: 5, body: PacketBody::Extension { id: 0xFF, payload: Vec::new() } });
}

#[test]
fn encode_exact_bytes() {
    // DATA, stream id 1, one payload byte: opcode then four little-endian id
    // bytes then the payload
    let bytes = encode(&Packet { stream_id: 1, body: PacketBody::Data(vec![0xAA]) });
    assert_eq!(bytes, vec![0x02, 0x01, 0x00, 0x00, 0x00, 0xAA]);

    // CONTINUE advertising 1024 on stream 0x01020304
    let bytes = encode(&Packet { stream_id: 0x01020304, body: PacketBody::Continue(1024) });
    assert_eq!(bytes, vec![0x03, 0x04, 0x03, 0x02, 0x01, 0x00, 0x04, 0x00, 0x00]);

    // CONNECT: kind byte, little-endian port, then the host bytes
    let bytes = encode(&Packet {
        stream_id: 2,
        body: PacketBody::Connect(ConnectPayload {
            stream_type: StreamType::Tcp,
            port: 0x1F90,
            host: b"a".to_vec(),
        }),
    });
    assert_eq!(bytes, vec![0x01, 0x02, 0x00, 0x00, 0x00, 0x01, 0x90, 0x1F, b'a']);
}

#[test]
fn decode_truncated() {
    assert_eq!(decode(&[]), Err(ProtocolError::Truncated));
    assert_eq!(decode(&[0x02, 0x01, 0x00, 0x00]), Err(ProtocolError::Truncated));
    // CONNECT payload shorter than kind + port
    assert_eq!(decode(&[0x01, 1, 0, 0, 0, 1, 80]), Err(ProtocolError::Truncated));
    // CONTINUE payload must be exactly four bytes
    assert_eq!(decode(&[0x03, 1, 0, 0, 0, 1, 2, 3]), Err(ProtocolError::Truncated));
    // CLOSE payload must be exactly one byte
    assert_eq!(decode(&[0x04, 1, 0, 0, 0]), Err(ProtocolError::Truncated));
    // INFO payload needs major and minor
    assert_eq!(decode(&[0x07, 0, 0, 0, 0, 2]), Err(ProtocolError::Truncated));
}

#[test]
fn decode_unknown_opcode() {
    assert_eq!(decode(&[0x10, 1, 0, 0, 0]), Err(ProtocolError::UnknownOpcode));
    assert_eq!(decode(&[0x00, 1, 0, 0, 0]), Err(ProtocolError::UnknownOpcode));
}

#[test]
fn decode_extension_reserved() {
    let p = decode(&[0x80, 1, 0, 0, 0, 7]).expect("extension frames decode");
    assert_eq!(p, Packet { stream_id: 1, body: PacketBody::Extension { id: 0x80, payload: vec![7] } });
}

#[test]
fn udp_max_datagram_round_trip() {
    // a maximum-size datagram survives the codec unfragmented
    let payload = vec![0x5Au8; wisp_core::forward::UDP_MAX_DATAGRAM];
    let p = Packet { stream_id: 3, body: PacketBody::Data(payload.clone()) };
    let bytes = encode(&p);
    assert_eq!(bytes.len(), 5 + 65507);
    let back = decode(&bytes).unwrap();
    assert_eq!(back, p);
}
