use wisp_core::mux::HandshakeError;
use wisp_core::mux::MuxAction;
use wisp_core::mux::SendOutcome;
use wisp_core::mux::Session;
use wisp_core::mux::UNKNOWN_STREAM_REASON;
use wisp_core::mux::WISP_VERSION_MAJOR;
use wisp_core::mux::WISP_VERSION_MINOR;
use wisp_core::packet::CloseReason;
use wisp_core::packet::ConnectPayload;
use wisp_core::packet::Packet;
use wisp_core::packet::PacketBody;
use wisp_core::packet::StreamType;

fn fresh_session(window: u32) -> Session {
    let mut s = Session::new(window, Vec::new(), Vec::new());
    s.handle_peer_info(&Vec::new()).expect("no required extensions");
    s
}

fn connect_frame(id: u32, host: &[u8], port: u16) -> Packet {
    Packet {
        stream_id: id,
        body: PacketBody::Connect(ConnectPayload {
            stream_type: StreamType::Tcp,
            port,
            host: host.to_vec(),
        }),
    }
}

fn data_frame(id: u32, bytes: Vec<u8>) -> Packet {
    Packet { stream_id: id, body: PacketBody::Data(bytes) }
}

#[test]
fn handshake_info_and_required_extensions() {
    let s = Session::new(1024, vec![1, 2], Vec::new());
    let info = s.server_info();
    assert_eq!(
        info,
        Packet {
            stream_id: 0,
            body: PacketBody::Info {
                major: WISP_VERSION_MAJOR,
                minor: WISP_VERSION_MINOR,
                extensions: vec![1, 2],
            },
        }
    );

    let mut s = Session::new(1024, Vec::new(), vec![2]);
    assert_eq!(s.handle_peer_info(&vec![1]), Err(HandshakeError::HandshakeFailed));
    assert_eq!(s.handle_peer_info(&vec![1, 2]), Ok(()));
    assert_eq!(s.extension_ids(), &vec![1, 2]);
}

#[test]
fn connect_allocates_and_duplicates_are_refused() {
    let mut s = fresh_session(1024);
    let acts = s.handle_frame(connect_frame(1, b"example.com", 80));
    assert_eq!(acts.len(), 1);
    match &acts[0] {
        MuxAction::NewStream { stream_id, payload } => {
            assert_eq!(*stream_id, 1);
            assert_eq!(payload.host, b"example.com".to_vec());
        }
        other => panic!("expected a new stream, got {:?}", other),
    }

    // same live id again: refused, stream untouched
    let acts = s.handle_frame(connect_frame(1, b"elsewhere.example", 81));
    assert_eq!(
        acts,
        vec![MuxAction::Send(Packet {
            stream_id: 1,
            body: PacketBody::Close(CloseReason::ServerStreamInvalidInfo),
        })]
    );

    // id 0 is the session, never a stream
    let acts = s.handle_frame(connect_frame(0, b"example.com", 80));
    assert_eq!(
        acts,
        vec![MuxAction::Send(Packet {
            stream_id: 0,
            body: PacketBody::Close(CloseReason::ServerStreamInvalidInfo),
        })]
    );
}

#[test]
fn data_is_delivered_in_arrival_order() {
    let mut s = fresh_session(1024);
    s.handle_frame(connect_frame(1, b"example.com", 80));
    let first = s.handle_frame(data_frame(1, b"hi".to_vec()));
    assert_eq!(first, vec![MuxAction::Deliver { stream_id: 1, bytes: b"hi".to_vec() }]);
    let second = s.handle_frame(data_frame(1, b" there".to_vec()));
    assert_eq!(second, vec![MuxAction::Deliver { stream_id: 1, bytes: b" there".to_vec() }]);
}

#[test]
fn flow_control_violation_ends_session() {
    // window 1024: a 1024-byte frame is delivered, one more byte is a
    // protocol violation
    let mut s = fresh_session(1024);
    s.handle_frame(connect_frame(1, b"example.com", 80));
    let acts = s.handle_frame(data_frame(1, vec![0u8; 1024]));
    assert_eq!(acts.len(), 1);
    assert!(matches!(acts[0], MuxAction::Deliver { stream_id: 1, .. }));
    let acts = s.handle_frame(data_frame(1, vec![0u8; 1]));
    assert_eq!(acts, vec![MuxAction::EndSession]);
    assert!(s.ended);
}

#[test]
fn data_for_unknown_stream_is_answered_with_close() {
    let mut s = fresh_session(1024);
    let acts = s.handle_frame(data_frame(999, b"hi".to_vec()));
    assert_eq!(
        acts,
        vec![MuxAction::Send(Packet {
            stream_id: 999,
            body: PacketBody::Close(CloseReason::Unknown(UNKNOWN_STREAM_REASON)),
        })]
    );
    assert!(!s.ended);
}

#[test]
fn send_respects_both_windows() {
    let mut s = fresh_session(8);
    s.handle_frame(connect_frame(1, b"example.com", 80));

    // fits both the stream window and the session window
    let r = s.stream_send(1, b"abcd".to_vec());
    assert_eq!(
        r,
        SendOutcome::Sent(Packet { stream_id: 1, body: PacketBody::Data(b"abcd".to_vec()) })
    );

    // 5 more bytes exceed the remaining credit of 4: backpressure
    assert_eq!(s.stream_send(1, b"efghi".to_vec()), SendOutcome::WindowFull);

    // a CONTINUE for the stream alone does not help: the session window is
    // also down to 4
    s.handle_frame(Packet { stream_id: 1, body: PacketBody::Continue(1000) });
    assert_eq!(s.stream_send(1, b"efghi".to_vec()), SendOutcome::WindowFull);

    // session credit restores sending
    s.handle_frame(Packet { stream_id: 0, body: PacketBody::Continue(1000) });
    assert_eq!(
        s.stream_send(1, b"efghi".to_vec()),
        SendOutcome::Sent(Packet { stream_id: 1, body: PacketBody::Data(b"efghi".to_vec()) })
    );
}

#[test]
fn consume_credits_back_past_half_window() {
    let mut s = fresh_session(1024);
    s.handle_frame(connect_frame(1, b"example.com", 80));
    s.handle_frame(data_frame(1, vec![0u8; 600]));

    // 100 drained bytes: below half the window, no credit yet
    assert_eq!(s.stream_consume(1, 100), Vec::new());
    // 500 more cross the threshold: one CONTINUE with the new absolute
    // window 424 + 600 = 1024
    let acts = s.stream_consume(1, 500);
    assert_eq!(
        acts,
        vec![MuxAction::Send(Packet { stream_id: 1, body: PacketBody::Continue(1024) })]
    );
}

#[test]
fn close_handshake_and_tombstone() {
    let mut s = fresh_session(1024);
    s.handle_frame(connect_frame(4, b"example.com", 80));

    // we close first: CLOSE goes out once
    let p = s.stream_close_local(4, CloseReason::Voluntary);
    assert_eq!(
        p,
        Some(Packet { stream_id: 4, body: PacketBody::Close(CloseReason::Voluntary) })
    );
    // a second local close emits nothing
    assert_eq!(s.stream_close_local(4, CloseReason::Voluntary), None);

    // data after our close is dropped silently
    assert_eq!(s.handle_frame(data_frame(4, b"late".to_vec())), Vec::new());

    // the peer's close completes the handshake; the reader sees EOF
    let acts = s.handle_frame(Packet { stream_id: 4, body: PacketBody::Close(CloseReason::Voluntary) });
    assert_eq!(acts, vec![MuxAction::DeliverEof { stream_id: 4 }]);

    // the stream is now fully closed: nothing is ever emitted for it again
    assert_eq!(s.handle_frame(data_frame(4, b"x".to_vec())), Vec::new());
    assert_eq!(s.stream_send(4, b"x".to_vec()), SendOutcome::NotWritable);
    assert_eq!(s.stream_consume(4, 1), Vec::new());
    assert_eq!(s.stream_close_local(4, CloseReason::Voluntary), None);
    // and a CONNECT reusing the id is dropped
    assert_eq!(s.handle_frame(connect_frame(4, b"example.com", 80)), Vec::new());
}

#[test]
fn transport_drop_emits_no_close() {
    let mut s = fresh_session(1024);
    s.handle_frame(connect_frame(4, b"example.com", 80));
    s.transport_ended();
    // the forwarder still winds the stream down, but no frame can go out
    assert_eq!(s.stream_close_local(4, CloseReason::Voluntary), None);
    assert_eq!(s.stream_send(4, b"x".to_vec()), SendOutcome::NotWritable);
    assert_eq!(s.session_close(), None);
}

#[test]
fn session_close_emits_once() {
    let mut s = fresh_session(1024);
    assert_eq!(
        s.session_close(),
        Some(Packet { stream_id: 0, body: PacketBody::Close(CloseReason::Voluntary) })
    );
    assert_eq!(s.session_close(), None);
}

#[test]
fn ping_is_answered_with_identical_pong() {
    let mut s = fresh_session(1024);
    let acts = s.handle_frame(Packet { stream_id: 0, body: PacketBody::Ping(vec![1, 2, 3]) });
    assert_eq!(
        acts,
        vec![MuxAction::Send(Packet { stream_id: 0, body: PacketBody::Pong(vec![1, 2, 3]) })]
    );
    assert_eq!(
        s.handle_frame(Packet { stream_id: 0, body: PacketBody::Pong(vec![1, 2, 3]) }),
        Vec::new()
    );
}

#[test]
fn info_after_handshake_is_a_protocol_error() {
    let mut s = fresh_session(1024);
    let acts = s.handle_frame(Packet {
        stream_id: 0,
        body: PacketBody::Info { major: 2, minor: 0, extensions: Vec::new() },
    });
    assert_eq!(acts, vec![MuxAction::EndSession]);
    assert!(s.ended);
}

#[test]
fn extension_frames_are_forwarded() {
    let mut s = fresh_session(1024);
    let acts = s.handle_frame(Packet {
        stream_id: 7,
        body: PacketBody::Extension { id: 0x80, payload: vec![9] },
    });
    assert_eq!(acts, vec![MuxAction::ExtensionFrame { id: 0x80, stream_id: 7, payload: vec![9] }]);
}

#[test]
fn session_window_spans_streams() {
    // window 8: the second stream has fresh per-stream credit, but the
    // session-level window is already nearly spent
    let mut s = fresh_session(8);
    s.handle_frame(connect_frame(1, b"example.com", 80));
    s.handle_frame(connect_frame(2, b"example.com", 81));
    let acts = s.handle_frame(data_frame(1, vec![0u8; 5]));
    assert!(matches!(acts[0], MuxAction::Deliver { stream_id: 1, .. }));
    let acts = s.handle_frame(data_frame(2, vec![0u8; 5]));
    assert_eq!(acts, vec![MuxAction::EndSession]);
    assert!(s.ended);
}

#[test]
fn session_consume_credits_back_past_half_window() {
    let mut s = fresh_session(1024);
    s.handle_frame(connect_frame(1, b"example.com", 80));
    s.handle_frame(data_frame(1, vec![0u8; 600]));
    // 100 bytes: below half the window, no session credit yet
    assert_eq!(s.session_consume(100), Vec::new());
    // 500 more cross the threshold: one session-level CONTINUE with the
    // new absolute window 424 + 600 = 1024
    let acts = s.session_consume(500);
    assert_eq!(
        acts,
        vec![MuxAction::Send(Packet { stream_id: 0, body: PacketBody::Continue(1024) })]
    );
}
