//! The multiplexor core: per-stream lifecycle, window-based flow control,
//! and the driver dispatch that turns inbound frames into deliveries, new
//! streams, and reply frames.
//!
//! The transport lives outside this crate. The surrounding process feeds
//! every inbound frame to [`Session::handle_frame`], performs the returned
//! [`MuxAction`]s, and calls the send-side functions on behalf of the
//! per-stream forwarders. All observable behaviour — which frames go out,
//! which bytes are delivered, and in what order — is fixed here.

use vstd::prelude::*;

use crate::packet::CloseReason;
use crate::packet::ConnectPayload;
use crate::packet::Packet;
use crate::packet::PacketBody;
use crate::packet::PacketBodyView;
use crate::packet::PacketView;
use crate::packet::StreamType;

verus! {

/// Protocol version advertised in the INFO handshake.
pub const WISP_VERSION_MAJOR: u8 = 2;

pub const WISP_VERSION_MINOR: u8 = 0;

/// Wire byte of the close reason used for frames addressed to a stream that
/// was never established.
pub const UNKNOWN_STREAM_REASON: u8 = 0x01;

/// Lifecycle of one stream, as seen by the server.
#[derive(Clone, Copy, Debug, PartialEq, Eq, Structural)]
pub enum StreamState {
    /// Both sides may send.
    Open,
    /// We sent CLOSE; we may not send data, inbound data is dropped.
    LocalClosed,
    /// The peer sent CLOSE; we may still send, reads yield end-of-stream.
    RemoteClosed,
    /// Both directions closed. The entry stays as a tombstone so that no
    /// frame is ever emitted for the id again.
    Closed,
}

/// One stream slot.
#[derive(Clone, Copy, Debug, PartialEq, Eq, Structural)]
pub struct StreamEntry {
    /// The id the peer chose; unique within the session, never reused.
    pub id: u32,
    /// The kind the CONNECT asked for.
    pub stream_type: StreamType,
    pub state: StreamState,
    /// Credit the peer granted us: we may send this many bytes.
    pub send_window: u32,
    /// Credit we granted the peer: it may send this many bytes.
    pub recv_window: u32,
    /// Bytes we sent since the last credit we received.
    pub sent_since_continue: u32,
    /// The window value of the most recent CONTINUE we received for this
    /// stream, or the initial window.
    pub last_advertised: u32,
    /// Bytes the consumer drained since the last CONTINUE we emitted.
    pub drained: u32,
}

/// What the driver asks the surrounding process to do with one frame.
#[derive(Clone, Debug, PartialEq, Eq)]
pub enum MuxAction {
    /// Write this frame to the transport.
    Send(Packet),
    /// Hand these bytes to the reader of the stream.
    Deliver { stream_id: u32, bytes: Vec<u8> },
    /// Announce end-of-stream to the reader of the stream.
    DeliverEof { stream_id: u32 },
    /// A new inbound stream was established: hand it to the acceptor.
    NewStream { stream_id: u32, payload: ConnectPayload },
    /// An extension-reserved frame: hand it to extension handling.
    ExtensionFrame { id: u8, stream_id: u32, payload: Vec<u8> },
    /// A protocol violation: the session is over.
    EndSession,
}

/// One session: the stream table, the session-level window, and the
/// handshake state.
pub struct Session {
    /// Initial window granted to each new stream, in both directions.
    pub init_window: u32,
    /// The stream slots, one per id ever established; closed entries stay
    /// as tombstones.
    pub streams: Vec<StreamEntry>,
    /// Whether the transport or the session is over: nothing is emitted any
    /// more.
    pub ended: bool,
    /// Whether the INFO exchange has completed.
    pub handshaken: bool,
    /// Extension ids we advertise.
    pub local_extensions: Vec<u8>,
    /// Extension ids the peer must offer, else the handshake fails.
    pub required_extensions: Vec<u8>,
    /// Extension ids the peer offered.
    pub peer_extensions: Vec<u8>,
    /// Session-level send credit, consumed by every outbound data frame.
    pub session_send_window: u32,
    /// Bytes sent against the session window since the last session credit.
    pub session_sent: u32,
    /// The most recent session-level credit.
    pub session_advertised: u32,
    /// Session-level receive credit: inbound data on any stream consumes
    /// it; only delivered data is charged, and each session-level CONTINUE
    /// we emit carries the new absolute window.
    pub session_recv_window: u32,
    /// Bytes consumed by the readers since the last session-level CONTINUE
    /// we emitted.
    pub session_drained: u32,
    /// History of the bytes delivered to each stream's reader, in delivery
    /// order.
    pub delivered: Ghost<Map<u32, Seq<u8>>>,
}

/// The first index holding `id`, or `ss.len()` when none does.
pub open spec fn stream_index(ss: Seq<StreamEntry>, id: u32) -> int
    decreases ss.len(),
{
    if ss.len() == 0 {
        0
    } else if ss[0].id == id {
        0
    } else {
        1 + stream_index(ss.skip(1), id)
    }
}

proof fn lemma_stream_index_at(ss: Seq<StreamEntry>, id: u32, i: int)
    requires
        0 <= i <= ss.len(),
        forall|j: int| 0 <= j < i ==> ss[j].id != id,
        i < ss.len() ==> ss[i].id == id,
    ensures
        stream_index(ss, id) == i,
    decreases ss.len(),
{
    if i == 0 {
    } else {
        assert forall|j: int| 0 <= j < i - 1 implies ss.skip(1)[j].id != id by {
            assert(ss.skip(1)[j] == ss[j + 1]);
        }
        if i - 1 < ss.skip(1).len() {
            assert(ss.skip(1)[i - 1] == ss[i]);
        }
        lemma_stream_index_at(ss.skip(1), id, i - 1);
    }
}

pub proof fn lemma_stream_index_le_len(ss: Seq<StreamEntry>, id: u32)
    ensures
        0 <= stream_index(ss, id) <= ss.len(),
        stream_index(ss, id) < ss.len() ==> ss[stream_index(ss, id)].id == id,
    decreases ss.len(),
{
    if ss.len() == 0 {
    } else if ss[0].id == id {
    } else {
        lemma_stream_index_le_len(ss.skip(1), id);
    }
}

impl Session {
    /// Whether some slot holds `id`.
    pub open spec fn has_stream(self, id: u32) -> bool {
        stream_index(self.streams@, id) < self.streams@.len()
    }

    /// The slot holding `id`.
    pub open spec fn stream_at(self, id: u32) -> StreamEntry {
        self.streams@[stream_index(self.streams@, id)]
    }

    /// A slot exists and is not a tombstone.
    pub open spec fn is_live(self, id: u32) -> bool {
        self.has_stream(id) && self.stream_at(id).state != StreamState::Closed
    }

    /// A slot exists and both directions are closed.
    pub open spec fn is_closed(self, id: u32) -> bool {
        self.has_stream(id) && self.stream_at(id).state == StreamState::Closed
    }

    /// Flow-control bookkeeping of one slot: what we sent since the last
    /// credit plus what we may still send equals the credit; and the credit
    /// we owe the peer never exceeds the initial window.
    pub open spec fn entry_inv(self, e: StreamEntry) -> bool {
        &&& e.sent_since_continue + e.send_window == e.last_advertised
        &&& e.recv_window + e.drained <= self.init_window
        &&& e.id != 0
    }

    /// Well-formedness: ids unique, never `0`, and every slot keeps its
    /// flow-control bookkeeping; the session-level window keeps the same
    /// bookkeeping.
    pub open spec fn wf(self) -> bool {
        &&& forall|i: int, j: int|
            0 <= i < j < self.streams@.len() ==> self.streams@[i].id != self.streams@[j].id
        &&& forall|i: int|
            0 <= i < self.streams@.len() ==> self.entry_inv(#[trigger] self.streams@[i])
        &&& self.session_sent + self.session_send_window == self.session_advertised
        &&& self.session_recv_window + self.session_drained <= self.init_window
    }

    /// Everything that is configuration rather than stream state.
    pub open spec fn same_config(self, other: Session) -> bool {
        &&& other.init_window == self.init_window
        &&& other.handshaken == self.handshaken
        &&& other.local_extensions@ == self.local_extensions@
        &&& other.required_extensions@ == self.required_extensions@
        &&& other.peer_extensions@ == self.peer_extensions@
    }

    /// A fresh session around a transport that just connected. The INFO
    /// handshake has not happened yet.
    pub fn new(init_window: u32, local_extensions: Vec<u8>, required_extensions: Vec<u8>) -> (s:
        Session)
        ensures
            s.wf(),
            !s.handshaken,
            !s.ended,
            s.init_window == init_window,
            s.streams@.len() == 0,
            s.local_extensions@ == local_extensions@,
            s.required_extensions@ == required_extensions@,
            s.peer_extensions@.len() == 0,
            s.session_send_window == init_window,
            s.session_recv_window == init_window,
            s.session_drained == 0,
            s.delivered@ == Map::<u32, Seq<u8>>::new(|id: u32| true, |id: u32| Seq::empty()),
    {
        Session {
            init_window,
            streams: Vec::new(),
            ended: false,
            handshaken: false,
            local_extensions,
            required_extensions,
            peer_extensions: Vec::new(),
            session_send_window: init_window,
            session_sent: 0,
            session_advertised: init_window,
            session_recv_window: init_window,
            session_drained: 0,
            delivered: Ghost(Map::new(|id: u32| true, |id: u32| Seq::empty())),
        }
    }

    /// Find the slot index of `id`, exactly [`stream_index`].
    fn find_stream(&self, id: u32) -> (r: Option<usize>)
        ensures
            match r {
                Some(i) => i == stream_index(self.streams@, id) && i < self.streams@.len()
                    && self.streams@[i as int].id == id,
                None => stream_index(self.streams@, id) == self.streams@.len(),
            },
    {
        let mut i: usize = 0;
        while i < self.streams.len()
            invariant
                0 <= i <= self.streams@.len(),
                forall|j: int| 0 <= j < i ==> self.streams@[j].id != id,
            decreases self.streams@.len() - i,
        {
            if self.streams[i].id == id {
                proof {
                    lemma_stream_index_at(self.streams@, id, i as int);
                }
                return Some(i);
            }
            i = i + 1;
        }
        proof {
            lemma_stream_index_at(self.streams@, id, self.streams@.len() as int);
        }
        None
    }
}

/// True when `v` holds `b`.
fn contains_byte(v: &Vec<u8>, b: u8) -> (r: bool)
    ensures
        r == v@.contains(b),
{
    let mut i: usize = 0;
    while i < v.len()
        invariant
            0 <= i <= v@.len(),
            forall|j: int| 0 <= j < i ==> v@[j] != b,
        decreases v@.len() - i,
    {
        if v[i] == b {
            return true;
        }
        i = i + 1;
    }
    false
}

/// Why the INFO exchange failed.
#[derive(Clone, Copy, Debug, PartialEq, Eq, Structural)]
pub enum HandshakeError {
    /// The peer's INFO does not offer every required extension.
    HandshakeFailed,
}

impl Session {
    /// The INFO frame the server sends first: version and the extension ids
    /// it supports, on stream id `0`.
    pub fn server_info(&self) -> (p: Packet)
        ensures
            p@ == (PacketView {
                stream_id: 0,
                body: PacketBodyView::Info {
                    major: WISP_VERSION_MAJOR,
                    minor: WISP_VERSION_MINOR,
                    extensions: self.local_extensions@,
                },
            }),
    {
        Packet {
            stream_id: 0,
            body: PacketBody::Info {
                major: WISP_VERSION_MAJOR,
                minor: WISP_VERSION_MINOR,
                extensions: self.local_extensions.clone(),
            },
        }
    }

    /// Complete the handshake with the peer's INFO. Succeeds exactly when
    /// every required extension is among the offered ids; the offered ids
    /// are then recorded.
    pub fn handle_peer_info(&mut self, extensions: &Vec<u8>) -> (r: Result<(), HandshakeError>)
        requires
            old(self).wf(),
            !old(self).handshaken,
        ensures
            final(self).wf(),
            r is Ok <==> forall|i: int|
                0 <= i < old(self).required_extensions@.len() ==> extensions@.contains(
                    #[trigger] old(self).required_extensions@[i],
                ),
            r is Ok ==> ({
                &&& final(self).handshaken
                &&& final(self).peer_extensions@ == extensions@
                &&& final(self).streams@ == old(self).streams@
                &&& final(self).ended == old(self).ended
                &&& final(self).init_window == old(self).init_window
                &&& final(self).local_extensions@ == old(self).local_extensions@
                &&& final(self).required_extensions@ == old(self).required_extensions@
                &&& final(self).session_send_window == old(self).session_send_window
                &&& final(self).session_sent == old(self).session_sent
                &&& final(self).session_advertised == old(self).session_advertised
                &&& final(self).session_recv_window == old(self).session_recv_window
                &&& final(self).session_drained == old(self).session_drained
                &&& final(self).delivered@ == old(self).delivered@
            }),
            r is Err ==> *final(self) == *old(self),
    {
        let mut i: usize = 0;
        while i < self.required_extensions.len()
            invariant
                0 <= i <= self.required_extensions@.len(),
                forall|j: int| 0 <= j < i ==> extensions@.contains(
                    #[trigger] self.required_extensions@[j],
                ),
                *self == *old(self),
                self.wf(),
            decreases self.required_extensions@.len() - i,
        {
            if !contains_byte(extensions, self.required_extensions[i]) {
                return Err(HandshakeError::HandshakeFailed);
            }
            i = i + 1;
        }
        self.handshaken = true;
        self.peer_extensions = extensions.clone();
        Ok(())
    }

    /// The extension ids the peer offered.
    pub fn extension_ids(&self) -> (r: &Vec<u8>)
        ensures
            r@ == self.peer_extensions@,
    {
        &self.peer_extensions
    }

    /// The transport ended: the session is over, nothing is emitted any
    /// more, every reader sees end-of-stream.
    pub fn transport_ended(&mut self)
        ensures
            *final(self) == (Session { ended: true, ..*old(self) }),
    {
        self.ended = true;
    }

    /// Shut the session down: emit the session-level CLOSE once, unless the
    /// transport is already gone.
    pub fn session_close(&mut self) -> (r: Option<Packet>)
        requires
            old(self).wf(),
        ensures
            final(self).wf(),
            *final(self) == (Session { ended: true, ..*old(self) }),
            match r {
                Some(p) => !old(self).ended && p@ == close_packet(0, CloseReason::Voluntary),
                None => old(self).ended,
            },
    {
        if self.ended {
            None
        } else {
            self.ended = true;
            Some(Packet { stream_id: 0, body: PacketBody::Close(CloseReason::Voluntary) })
        }
    }
}

/// How one dispatch may move the stream table: untouched, one fresh slot
/// appended, or one slot of a not-fully-closed stream updated in place with
/// its id kept. Closed slots are in particular never touched.
pub open spec fn tame_update(pre: Session, post: Session) -> bool {
    ||| post.streams@ == pre.streams@
    ||| (exists|e: StreamEntry| post.streams@ == pre.streams@.push(e) && !pre.has_stream(e.id))
    ||| (exists|idx: int, e: StreamEntry|
        0 <= idx < pre.streams@.len() && post.streams@ == pre.streams@.update(idx, e) && e.id
            == pre.streams@[idx].id && pre.streams@[idx].state != StreamState::Closed)
}

/// Full contract of the CONNECT dispatch: what the table, the session
/// counters and the returned actions are for each kind of id.
pub open spec fn connect_step(
    pre: Session,
    post: Session,
    stream_id: u32,
    payload: ConnectPayload,
    acts: Seq<MuxAction>,
) -> bool {
    &&& post.ended == pre.ended
    &&& post.delivered@ == pre.delivered@
    &&& post.session_send_window == pre.session_send_window
    &&& post.session_sent == pre.session_sent
    &&& post.session_advertised == pre.session_advertised
    &&& post.session_recv_window == pre.session_recv_window
    &&& post.session_drained == pre.session_drained
    &&& (stream_id != 0 && !pre.has_stream(stream_id) ==> ({
        &&& post.streams@ == pre.streams@.push(pre.fresh_entry(stream_id, payload.stream_type))
        &&& post.has_stream(stream_id)
        &&& post.stream_at(stream_id) == pre.fresh_entry(stream_id, payload.stream_type)
        &&& acts.len() == 1
        &&& (acts[0] matches MuxAction::NewStream { stream_id: sid, payload: pl } && sid
            == stream_id && pl@ == payload@)
    }))
    &&& (stream_id == 0 || pre.is_live(stream_id) ==> ({
        &&& post.streams@ == pre.streams@
        &&& acts.len() == 1
        &&& (acts[0] matches MuxAction::Send(p) && p@ == close_packet(
            stream_id,
            CloseReason::ServerStreamInvalidInfo,
        ))
    }))
    &&& (pre.is_closed(stream_id) ==> post.streams@ == pre.streams@ && acts.len() == 0)
}

/// Full contract of the DATA dispatch: delivery within both windows,
/// session end past either, silent drop after a close, a CLOSE reply for
/// an unknown id.
pub open spec fn data_step(
    pre: Session,
    post: Session,
    stream_id: u32,
    d: Seq<u8>,
    acts: Seq<MuxAction>,
) -> bool {
    &&& post.session_send_window == pre.session_send_window
    &&& post.session_sent == pre.session_sent
    &&& post.session_advertised == pre.session_advertised
    &&& post.session_drained == pre.session_drained
    &&& (pre.has_stream(stream_id) && pre.stream_at(stream_id).state == StreamState::Open
        && d.len() <= pre.stream_at(stream_id).recv_window && d.len()
        <= pre.session_recv_window ==> ({
        let idx = stream_index(pre.streams@, stream_id);
        let e = pre.streams@[idx];
        &&& post.streams@ == pre.streams@.update(
            idx,
            StreamEntry { recv_window: (e.recv_window - d.len()) as u32, ..e },
        )
        &&& post.stream_at(stream_id) == (StreamEntry {
            recv_window: (e.recv_window - d.len()) as u32,
            ..e
        })
        &&& post.has_stream(stream_id)
        &&& !post.ended
        &&& post.session_recv_window == pre.session_recv_window - d.len()
        &&& post.delivered@ == pre.delivered@.insert(
            stream_id,
            pre.delivered@[stream_id] + d,
        )
        &&& acts.len() == 1
        &&& (acts[0] matches MuxAction::Deliver { stream_id: sid, bytes } && sid == stream_id
            && bytes@ == d)
    }))
    &&& (pre.has_stream(stream_id) && pre.stream_at(stream_id).state == StreamState::Open
        && (d.len() > pre.stream_at(stream_id).recv_window || d.len()
        > pre.session_recv_window) ==> ({
        &&& post.streams@ == pre.streams@
        &&& post.ended
        &&& post.delivered@ == pre.delivered@
        &&& post.session_recv_window == pre.session_recv_window
        &&& acts.len() == 1
        &&& acts[0] == MuxAction::EndSession
    }))
    &&& (pre.has_stream(stream_id) && pre.stream_at(stream_id).state != StreamState::Open
        ==> ({
        &&& post.streams@ == pre.streams@
        &&& post.ended == pre.ended
        &&& post.delivered@ == pre.delivered@
        &&& post.session_recv_window == pre.session_recv_window
        &&& acts.len() == 0
    }))
    &&& (!pre.has_stream(stream_id) ==> ({
        &&& post.streams@ == pre.streams@
        &&& post.ended == pre.ended
        &&& post.delivered@ == pre.delivered@
        &&& post.session_recv_window == pre.session_recv_window
        &&& acts.len() == 1
        &&& (acts[0] matches MuxAction::Send(p) && p@ == close_packet(
            stream_id,
            CloseReason::Unknown(UNKNOWN_STREAM_REASON),
        ))
    }))
}

/// Full contract of the CONTINUE dispatch: the advertised value becomes
/// the new send credit, of the session on id `0`, else of the addressed
/// live stream; anything else is ignored. Nothing is emitted.
pub open spec fn continue_step(
    pre: Session,
    post: Session,
    stream_id: u32,
    window: u32,
    acts: Seq<MuxAction>,
) -> bool {
    &&& acts.len() == 0
    &&& post.ended == pre.ended
    &&& post.delivered@ == pre.delivered@
    &&& post.session_recv_window == pre.session_recv_window
    &&& post.session_drained == pre.session_drained
    &&& (stream_id == 0 ==> ({
        &&& post.streams@ == pre.streams@
        &&& post.session_send_window == window
        &&& post.session_sent == 0
        &&& post.session_advertised == window
    }))
    &&& (stream_id != 0 ==> ({
        &&& post.session_send_window == pre.session_send_window
        &&& post.session_sent == pre.session_sent
        &&& post.session_advertised == pre.session_advertised
    }))
    &&& (stream_id != 0 && pre.is_live(stream_id) ==> ({
        let idx = stream_index(pre.streams@, stream_id);
        let e = pre.streams@[idx];
        &&& post.streams@ == pre.streams@.update(
            idx,
            StreamEntry {
                send_window: window,
                sent_since_continue: 0,
                last_advertised: window,
                ..e
            },
        )
        &&& post.stream_at(stream_id) == (StreamEntry {
            send_window: window,
            sent_since_continue: 0,
            last_advertised: window,
            ..e
        })
    }))
    &&& (stream_id != 0 && !pre.is_live(stream_id) ==> post.streams@ == pre.streams@)
}

/// Full contract of the CLOSE dispatch: the close handshake advances and
/// the reader is told end-of-stream; duplicates and unknown ids are
/// ignored. Nothing is emitted.
pub open spec fn close_step(
    pre: Session,
    post: Session,
    stream_id: u32,
    acts: Seq<MuxAction>,
) -> bool {
    &&& post.ended == pre.ended
    &&& post.delivered@ == pre.delivered@
    &&& post.session_send_window == pre.session_send_window
    &&& post.session_sent == pre.session_sent
    &&& post.session_advertised == pre.session_advertised
    &&& post.session_recv_window == pre.session_recv_window
    &&& post.session_drained == pre.session_drained
    &&& (pre.has_stream(stream_id) && pre.stream_at(stream_id).state == StreamState::Open
        ==> ({
        let idx = stream_index(pre.streams@, stream_id);
        let e = pre.streams@[idx];
        &&& post.streams@ == pre.streams@.update(
            idx,
            StreamEntry { state: StreamState::RemoteClosed, ..e },
        )
        &&& post.stream_at(stream_id) == (StreamEntry { state: StreamState::RemoteClosed, ..e })
        &&& acts.len() == 1
        &&& (acts[0] matches MuxAction::DeliverEof { stream_id: sid } && sid == stream_id)
    }))
    &&& (pre.has_stream(stream_id) && pre.stream_at(stream_id).state == StreamState::LocalClosed
        ==> ({
        let idx = stream_index(pre.streams@, stream_id);
        let e = pre.streams@[idx];
        &&& post.streams@ == pre.streams@.update(
            idx,
            StreamEntry { state: StreamState::Closed, ..e },
        )
        &&& post.stream_at(stream_id) == (StreamEntry { state: StreamState::Closed, ..e })
        &&& acts.len() == 1
        &&& (acts[0] matches MuxAction::DeliverEof { stream_id: sid } && sid == stream_id)
    }))
    &&& (pre.has_stream(stream_id) && (pre.stream_at(stream_id).state
        == StreamState::RemoteClosed || pre.stream_at(stream_id).state == StreamState::Closed)
        ==> post.streams@ == pre.streams@ && acts.len() == 0)
    &&& (!pre.has_stream(stream_id) ==> post.streams@ == pre.streams@ && acts.len() == 0)
}

impl Session {
    /// A fresh slot for a newly established stream: open, with the initial
    /// window granted in both directions.
    pub open spec fn fresh_entry(self, id: u32, t: StreamType) -> StreamEntry {
        StreamEntry {
            id,
            stream_type: t,
            state: StreamState::Open,
            send_window: self.init_window,
            recv_window: self.init_window,
            sent_since_continue: 0,
            last_advertised: self.init_window,
            drained: 0,
        }
    }

    /// Driver dispatch of an inbound CONNECT: a fresh id is allocated a slot
    /// and handed to the acceptor; id `0` or a live id is answered with
    /// CLOSE(invalid) and leaves the table untouched; the id of a closed
    /// stream is dropped silently, so nothing is ever emitted for it again.
    pub fn handle_connect(&mut self, stream_id: u32, payload: ConnectPayload) -> (acts: Vec<
        MuxAction,
    >)
        requires
            old(self).wf(),
            old(self).handshaken,
            !old(self).ended,
        ensures
            final(self).wf(),
            old(self).same_config(*final(self)),
            tame_update(*old(self), *final(self)),
            connect_step(*old(self), *final(self), stream_id, payload, acts@),
    {
        let mut acts: Vec<MuxAction> = Vec::new();
        if stream_id == 0 {
            proof {
                // no slot ever holds id 0
                lemma_stream_index_le_len(self.streams@, 0);
                if self.has_stream(0) {
                    assert(self.entry_inv(self.streams@[stream_index(self.streams@, 0)]));
                }
            }
            acts.push(
                MuxAction::Send(
                    Packet {
                        stream_id,
                        body: PacketBody::Close(CloseReason::ServerStreamInvalidInfo),
                    },
                ),
            );
            return acts;
        }
        match self.find_stream(stream_id) {
            Some(i) => {
                if matches!(self.streams[i].state, StreamState::Closed) {
                    // an id is never reused: drop silently
                } else {
                    acts.push(
                        MuxAction::Send(
                            Packet {
                                stream_id,
                                body: PacketBody::Close(CloseReason::ServerStreamInvalidInfo),
                            },
                        ),
                    );
                }
                acts
            },
            None => {
                proof {
                    lemma_stream_index_all(self.streams@, stream_id);
                }
                let entry = StreamEntry {
                    id: stream_id,
                    stream_type: payload.stream_type,
                    state: StreamState::Open,
                    send_window: self.init_window,
                    recv_window: self.init_window,
                    sent_since_continue: 0,
                    last_advertised: self.init_window,
                    drained: 0,
                };
                let ghost pre_streams = self.streams@;
                self.streams.push(entry);
                proof {
                    lemma_push_found(pre_streams, entry);
                }
                acts.push(MuxAction::NewStream { stream_id, payload });
                acts
            },
        }
    }

    /// Driver dispatch of an inbound DATA frame. On an open stream with
    /// enough granted credit — the stream's own window and the session
    /// window both cover the payload — the bytes are appended, in arrival
    /// order, to what the stream's reader observes, and both windows are
    /// charged. Data beyond either granted window is a protocol violation
    /// and ends the session. Data for a locally or fully closed stream is
    /// dropped silently, uncharged (each credit we emit carries an absolute
    /// window, so the accounts cannot drift apart); data for an id that was
    /// never established is answered with a CLOSE.
    pub fn handle_data(&mut self, stream_id: u32, d: Vec<u8>) -> (acts: Vec<MuxAction>)
        requires
            old(self).wf(),
            old(self).handshaken,
            !old(self).ended,
        ensures
            final(self).wf(),
            old(self).same_config(*final(self)),
            tame_update(*old(self), *final(self)),
            data_step(*old(self), *final(self), stream_id, d@, acts@),
    {
        let mut acts: Vec<MuxAction> = Vec::new();
        match self.find_stream(stream_id) {
            Some(i) => {
                let e = self.streams[i];
                match e.state {
                    StreamState::Open => {
                        if d.len() <= e.recv_window as usize && d.len()
                            <= self.session_recv_window as usize {
                            let ghost old_streams = self.streams@;
                            let updated = StreamEntry {
                                recv_window: e.recv_window - d.len() as u32,
                                ..e
                            };
                            self.streams.set(i, updated);
                            self.session_recv_window = self.session_recv_window - d.len() as u32;
                            proof {
                                lemma_update_keeps_lookup(old_streams, i as int, updated, stream_id);
                                self.delivered@ = self.delivered@.insert(
                                    stream_id,
                                    self.delivered@[stream_id] + d@,
                                );
                                assert forall|k: int|
                                    0 <= k < self.streams@.len() implies self.entry_inv(
                                    #[trigger] self.streams@[k],
                                ) by {
                                    assert(old(self).entry_inv(old_streams[k]));
                                }
                            }
                            acts.push(MuxAction::Deliver { stream_id, bytes: d });
                        } else {
                            self.ended = true;
                            acts.push(MuxAction::EndSession);
                        }
                        acts
                    },
                    _ => {
                        // dropped silently: our CLOSE is already on the way,
                        // or the stream is gone
                        acts
                    },
                }
            },
            None => {
                acts.push(
                    MuxAction::Send(
                        Packet {
                            stream_id,
                            body: PacketBody::Close(CloseReason::Unknown(UNKNOWN_STREAM_REASON)),
                        },
                    ),
                );
                acts
            },
        }
    }
}

impl Session {
    /// Driver dispatch of an inbound CONTINUE: the advertised value becomes
    /// the new send credit — for the session window on id `0`, else for the
    /// addressed live stream. A credit for a closed or unknown id is
    /// ignored. No frame is emitted.
    pub fn handle_continue(&mut self, stream_id: u32, window: u32) -> (acts: Vec<MuxAction>)
        requires
            old(self).wf(),
            old(self).handshaken,
            !old(self).ended,
        ensures
            final(self).wf(),
            old(self).same_config(*final(self)),
            tame_update(*old(self), *final(self)),
            continue_step(*old(self), *final(self), stream_id, window, acts@),
    {
        let acts: Vec<MuxAction> = Vec::new();
        if stream_id == 0 {
            self.session_send_window = window;
            self.session_sent = 0;
            self.session_advertised = window;
            return acts;
        }
        match self.find_stream(stream_id) {
            Some(i) => {
                let e = self.streams[i];
                if matches!(e.state, StreamState::Closed) {
                    return acts;
                }
                let ghost old_streams = self.streams@;
                let updated = StreamEntry {
                    send_window: window,
                    sent_since_continue: 0,
                    last_advertised: window,
                    ..e
                };
                self.streams.set(i, updated);
                proof {
                    lemma_update_keeps_lookup(old_streams, i as int, updated, stream_id);
                    assert forall|k: int|
                        0 <= k < self.streams@.len() implies self.entry_inv(
                        #[trigger] self.streams@[k],
                    ) by {
                        assert(old(self).entry_inv(old_streams[k]));
                    }
                }
                acts
            },
            None => acts,
        }
    }

    /// Driver dispatch of an inbound CLOSE: an open stream becomes
    /// remote-closed, a locally closed one fully closed; the reader is told
    /// end-of-stream. A duplicate close, a closed id, or an unknown id is
    /// ignored. No frame is emitted.
    pub fn handle_close(&mut self, stream_id: u32) -> (acts: Vec<MuxAction>)
        requires
            old(self).wf(),
            old(self).handshaken,
            !old(self).ended,
        ensures
            final(self).wf(),
            old(self).same_config(*final(self)),
            tame_update(*old(self), *final(self)),
            close_step(*old(self), *final(self), stream_id, acts@),
    {
        let mut acts: Vec<MuxAction> = Vec::new();
        match self.find_stream(stream_id) {
            Some(i) => {
                let e = self.streams[i];
                let new_state = match e.state {
                    StreamState::Open => StreamState::RemoteClosed,
                    StreamState::LocalClosed => StreamState::Closed,
                    StreamState::RemoteClosed => {
                        return acts;
                    },
                    StreamState::Closed => {
                        return acts;
                    },
                };
                let ghost old_streams = self.streams@;
                let updated = StreamEntry { state: new_state, ..e };
                self.streams.set(i, updated);
                proof {
                    lemma_update_keeps_lookup(old_streams, i as int, updated, stream_id);
                    assert forall|k: int|
                        0 <= k < self.streams@.len() implies self.entry_inv(
                        #[trigger] self.streams@[k],
                    ) by {
                        assert(old(self).entry_inv(old_streams[k]));
                    }
                }
                acts.push(MuxAction::DeliverEof { stream_id });
                acts
            },
            None => acts,
        }
    }
}

proof fn lemma_stream_index_same_ids(a: Seq<StreamEntry>, b: Seq<StreamEntry>, id: u32)
    requires
        a.len() == b.len(),
        forall|j: int| 0 <= j < a.len() ==> a[j].id == b[j].id,
    ensures
        stream_index(a, id) == stream_index(b, id),
    decreases a.len(),
{
    if a.len() == 0 {
    } else {
        assert forall|j: int| 0 <= j < a.skip(1).len() implies a.skip(1)[j].id == b.skip(1)[j].id
            by {
            assert(a.skip(1)[j] == a[j + 1] && b.skip(1)[j] == b[j + 1]);
        }
        lemma_stream_index_same_ids(a.skip(1), b.skip(1), id);
    }
}

proof fn lemma_stream_index_push_other(ss: Seq<StreamEntry>, e: StreamEntry, id: u32)
    requires
        stream_index(ss, id) < ss.len(),
    ensures
        stream_index(ss.push(e), id) == stream_index(ss, id),
    decreases ss.len(),
{
    lemma_stream_index_le_len(ss, id);
    if ss.len() == 0 {
    } else if ss[0].id == id {
        assert(ss.push(e)[0] == ss[0]);
    } else {
        assert(ss.push(e)[0] == ss[0]);
        assert(ss.push(e).skip(1) =~= ss.skip(1).push(e));
        lemma_stream_index_push_other(ss.skip(1), e, id);
    }
}

/// Updating a slot in place, with its id kept, changes no lookup.
proof fn lemma_update_keeps_lookup(ss: Seq<StreamEntry>, i: int, e: StreamEntry, id: u32)
    requires
        0 <= i < ss.len(),
        e.id == ss[i].id,
    ensures
        stream_index(ss.update(i, e), id) == stream_index(ss, id),
{
    lemma_stream_index_same_ids(ss, ss.update(i, e), id);
}

/// Appending a fresh slot makes it the one its id finds.
proof fn lemma_push_found(ss: Seq<StreamEntry>, e: StreamEntry)
    requires
        stream_index(ss, e.id) == ss.len(),
    ensures
        stream_index(ss.push(e), e.id) == ss.len(),
{
    lemma_stream_index_all(ss, e.id);
    assert forall|j: int| 0 <= j < ss.len() implies ss.push(e)[j].id != e.id by {
        assert(ss.push(e)[j] == ss[j]);
    }
    lemma_stream_index_at(ss.push(e), e.id, ss.len() as int);
}

proof fn lemma_stream_index_all(ss: Seq<StreamEntry>, id: u32)
    requires
        stream_index(ss, id) == ss.len(),
    ensures
        forall|j: int| 0 <= j < ss.len() ==> ss[j].id != id,
    decreases ss.len(),
{
    if ss.len() == 0 {
    } else {
        lemma_stream_index_all(ss.skip(1), id);
        assert forall|j: int| 0 <= j < ss.len() implies ss[j].id != id by {
            if j > 0 {
                assert(ss.skip(1)[j - 1] == ss[j]);
            }
        }
    }
}

/// True when the action does not address a fully closed stream with data,
/// credit, a close, or a delivery.
pub open spec fn no_output_for_closed(s: Session, a: MuxAction) -> bool {
    match a {
        MuxAction::Send(pk) => (pk@.body is Data || pk@.body is Continue || pk@.body is Close)
            ==> !s.is_closed(pk.stream_id),
        MuxAction::Deliver { stream_id, .. } => !s.is_closed(stream_id),
        MuxAction::DeliverEof { stream_id } => !s.is_closed(stream_id),
        _ => true,
    }
}

impl Session {
    /// Driver dispatch of one inbound frame, after the handshake. Each
    /// opcode's whole behaviour is pinned, case by case:
    ///
    /// - CONNECT, DATA, CONTINUE and CLOSE exactly as [`connect_step`],
    ///   [`data_step`], [`continue_step`] and [`close_step`] say;
    /// - PING is answered with a PONG carrying the identical payload, and
    ///   nothing else changes;
    /// - PONG is ignored;
    /// - INFO after the handshake is a protocol error: the session ends;
    /// - an extension-reserved frame is handed to extension handling,
    ///   untouched.
    ///
    /// Two session-wide guarantees hold of every dispatch: no data, credit,
    /// close, or delivery is ever produced for a stream that is fully
    /// closed, whose slot also stays untouched; and the bytes already
    /// delivered to any reader are only ever appended to, never retracted
    /// or reordered.
    pub fn handle_frame(&mut self, p: Packet) -> (acts: Vec<MuxAction>)
        requires
            old(self).wf(),
            old(self).handshaken,
            !old(self).ended,
        ensures
            final(self).wf(),
            old(self).same_config(*final(self)),
            (p.body matches PacketBody::Connect(c) ==> connect_step(
                *old(self),
                *final(self),
                p.stream_id,
                c,
                acts@,
            )),
            (p.body matches PacketBody::Data(d) ==> data_step(
                *old(self),
                *final(self),
                p.stream_id,
                d@,
                acts@,
            )),
            (p.body matches PacketBody::Continue(w) ==> continue_step(
                *old(self),
                *final(self),
                p.stream_id,
                w,
                acts@,
            )),
            (p.body is Close ==> close_step(*old(self), *final(self), p.stream_id, acts@)),
            (p.body matches PacketBody::Ping(pl) ==> ({
                &&& acts@.len() == 1
                &&& (acts@[0] matches MuxAction::Send(pk) && pk@ == pong_packet(
                    p.stream_id,
                    pl@,
                ))
                &&& *final(self) == *old(self)
            })),
            (p.body is Pong ==> acts@.len() == 0 && *final(self) == *old(self)),
            (p.body is Info ==> ({
                &&& *final(self) == (Session { ended: true, ..*old(self) })
                &&& acts@.len() == 1
                &&& acts@[0] == MuxAction::EndSession
            })),
            (p.body matches PacketBody::Extension { id: eid, payload: pl } ==> ({
                &&& acts@.len() == 1
                &&& (acts@[0] matches MuxAction::ExtensionFrame {
                    id: aid,
                    stream_id: sid,
                    payload: apl,
                } && aid == eid && sid == p.stream_id && apl@ == pl@)
                &&& *final(self) == *old(self)
            })),
            forall|i: int|
                0 <= i < acts@.len() ==> no_output_for_closed(*old(self), #[trigger] acts@[i]),
            forall|id: u32|
                old(self).is_closed(id) ==> final(self).is_closed(id) && final(self).stream_at(id)
                    == old(self).stream_at(id),
            forall|id: u32|
                (#[trigger] old(self).delivered@[id]).is_prefix_of(final(self).delivered@[id]),
    {
        let ghost pre = *self;
        let acts: Vec<MuxAction> = match p.body {
            PacketBody::Connect(c) => self.handle_connect(p.stream_id, c),
            PacketBody::Data(d) => self.handle_data(p.stream_id, d),
            PacketBody::Continue(w) => self.handle_continue(p.stream_id, w),
            PacketBody::Close(_) => self.handle_close(p.stream_id),
            PacketBody::Ping(payload) => {
                let mut acts: Vec<MuxAction> = Vec::new();
                acts.push(
                    MuxAction::Send(Packet { stream_id: p.stream_id, body: PacketBody::Pong(payload) }),
                );
                acts
            },
            PacketBody::Pong(_) => Vec::new(),
            PacketBody::Info { .. } => {
                self.ended = true;
                let mut acts: Vec<MuxAction> = Vec::new();
                acts.push(MuxAction::EndSession);
                acts
            },
            PacketBody::Extension { id, payload } => {
                let mut acts: Vec<MuxAction> = Vec::new();
                acts.push(MuxAction::ExtensionFrame { id, stream_id: p.stream_id, payload });
                acts
            },
        };
        proof {
            lemma_closed_stable(pre, *self);
            assert forall|id: u32|
                (#[trigger] pre.delivered@[id]).is_prefix_of(self.delivered@[id]) by {
                let a = pre.delivered@[id];
                let b = self.delivered@[id];
                if a == b {
                    assert(a =~= b.subrange(0, a.len() as int));
                } else {
                    assert(a =~= b.subrange(0, a.len() as int));
                }
            }
        }
        acts
    }
}

/// Between the states before and after one dispatch, every closed slot is
/// untouched.
proof fn lemma_closed_stable(pre: Session, post: Session)
    requires
        pre.wf(),
        tame_update(pre, post),
    ensures
        forall|id: u32|
            pre.is_closed(id) ==> post.is_closed(id) && post.stream_at(id) == pre.stream_at(id),
{
    assert forall|id: u32| pre.is_closed(id) implies post.is_closed(id) && post.stream_at(id)
        == pre.stream_at(id) by {
        lemma_stream_index_le_len(pre.streams@, id);
        let i = stream_index(pre.streams@, id);
        if post.streams@ == pre.streams@ {
        } else if exists|e: StreamEntry|
            post.streams@ == pre.streams@.push(e) && !pre.has_stream(e.id) {
            let e = choose|e: StreamEntry|
                post.streams@ == pre.streams@.push(e) && !pre.has_stream(e.id);
            lemma_stream_index_push_other(pre.streams@, e, id);
        } else {
            let (idx, e) = choose|idx: int, e: StreamEntry|
                0 <= idx < pre.streams@.len() && post.streams@ == pre.streams@.update(idx, e)
                    && e.id == pre.streams@[idx].id && pre.streams@[idx].state
                    != StreamState::Closed;
            assert forall|j: int|
                0 <= j < pre.streams@.len() implies pre.streams@[j].id == post.streams@[j].id by {}
            lemma_stream_index_same_ids(pre.streams@, post.streams@, id);
            assert(i != idx);
        }
    }
}

/// What became of an attempt to send data on a stream.
#[derive(Clone, Debug, PartialEq, Eq)]
pub enum SendOutcome {
    /// Credit sufficed: emit this DATA frame.
    Sent(Packet),
    /// The stream or session window is too small: keep the bytes and wait
    /// for a CONTINUE. Backpressure, not an error.
    WindowFull,
    /// The stream may not send (closed locally, gone, unknown) or the
    /// session is over.
    NotWritable,
}

impl Session {
    /// Try to send `d` on the stream. Data goes out only while the stream
    /// is open or remote-closed and only within both the stream credit and
    /// the session credit, which the frame then consumes; so the bytes sent
    /// since a credit never exceed that credit.
    pub fn stream_send(&mut self, stream_id: u32, d: Vec<u8>) -> (r: SendOutcome)
        requires
            old(self).wf(),
            old(self).handshaken,
        ensures
            final(self).wf(),
            old(self).same_config(*final(self)),
            final(self).ended == old(self).ended,
            final(self).delivered@ == old(self).delivered@,
            final(self).session_recv_window == old(self).session_recv_window,
            final(self).session_drained == old(self).session_drained,
            tame_update(*old(self), *final(self)),
            old(self).ended ==> r == SendOutcome::NotWritable && final(self).streams@ == old(
                self,
            ).streams@,
            ({
                let writable = !old(self).ended && old(self).has_stream(stream_id) && (old(
                    self,
                ).stream_at(stream_id).state == StreamState::Open || old(self).stream_at(
                    stream_id,
                ).state == StreamState::RemoteClosed);
                let e = old(self).stream_at(stream_id);
                let idx = stream_index(old(self).streams@, stream_id);
                &&& (!writable && !old(self).ended ==> ({
                    &&& r == SendOutcome::NotWritable
                    &&& final(self).streams@ == old(self).streams@
                    &&& final(self).session_sent == old(self).session_sent
                }))
                &&& (writable && d@.len() <= e.send_window && d@.len() <= old(
                    self,
                ).session_send_window ==> ({
                    &&& (r matches SendOutcome::Sent(p) && p@ == data_packet(stream_id, d@))
                    &&& final(self).streams@ == old(self).streams@.update(
                        idx,
                        StreamEntry {
                            send_window: (e.send_window - d@.len()) as u32,
                            sent_since_continue: (e.sent_since_continue + d@.len()) as u32,
                            ..e
                        },
                    )
                    &&& final(self).stream_at(stream_id) == (StreamEntry {
                        send_window: (e.send_window - d@.len()) as u32,
                        sent_since_continue: (e.sent_since_continue + d@.len()) as u32,
                        ..e
                    })
                    &&& final(self).session_send_window == old(self).session_send_window
                        - d@.len()
                    &&& final(self).session_sent == old(self).session_sent + d@.len()
                    &&& final(self).session_advertised == old(self).session_advertised
                }))
                &&& (writable && (d@.len() > e.send_window || d@.len() > old(
                    self,
                ).session_send_window) ==> r == SendOutcome::WindowFull && final(self).streams@
                    == old(self).streams@ && final(self).session_sent == old(self).session_sent)
            }),
    {
        if self.ended {
            return SendOutcome::NotWritable;
        }
        match self.find_stream(stream_id) {
            Some(i) => {
                let e = self.streams[i];
                match e.state {
                    StreamState::Open | StreamState::RemoteClosed => {
                        if d.len() <= e.send_window as usize && d.len()
                            <= self.session_send_window as usize {
                            let n = d.len() as u32;
                            let ghost old_streams = self.streams@;
                            let updated = StreamEntry {
                                send_window: e.send_window - n,
                                sent_since_continue: e.sent_since_continue + n,
                                ..e
                            };
                            self.streams.set(i, updated);
                            self.session_send_window = self.session_send_window - n;
                            self.session_sent = self.session_sent + n;
                            proof {
                                lemma_update_keeps_lookup(old_streams, i as int, updated, stream_id);
                                assert forall|k: int|
                                    0 <= k < self.streams@.len() implies self.entry_inv(
                                    #[trigger] self.streams@[k],
                                ) by {
                                    assert(old(self).entry_inv(old_streams[k]));
                                }
                            }
                            SendOutcome::Sent(
                                Packet { stream_id, body: PacketBody::Data(d) },
                            )
                        } else {
                            SendOutcome::WindowFull
                        }
                    },
                    _ => SendOutcome::NotWritable,
                }
            },
            None => SendOutcome::NotWritable,
        }
    }

    /// The reader consumed `n` more bytes of the stream. Past half the
    /// initial window the drained count is credited back to the peer in one
    /// CONTINUE frame carrying the new absolute window, which amortises
    /// control frames. Nothing happens on a closed or unknown stream or
    /// after the session ended.
    pub fn stream_consume(&mut self, stream_id: u32, n: u32) -> (acts: Vec<MuxAction>)
        requires
            old(self).wf(),
            old(self).handshaken,
            old(self).is_live(stream_id) ==> n + old(self).stream_at(stream_id).drained + old(
                self,
            ).stream_at(stream_id).recv_window <= old(self).init_window,
        ensures
            final(self).wf(),
            old(self).same_config(*final(self)),
            final(self).ended == old(self).ended,
            final(self).delivered@ == old(self).delivered@,
            final(self).session_send_window == old(self).session_send_window,
            final(self).session_sent == old(self).session_sent,
            final(self).session_advertised == old(self).session_advertised,
            final(self).session_recv_window == old(self).session_recv_window,
            final(self).session_drained == old(self).session_drained,
            tame_update(*old(self), *final(self)),
            old(self).ended || !old(self).is_live(stream_id) ==> final(self).streams@ == old(
                self,
            ).streams@ && acts@.len() == 0,
            !old(self).ended && old(self).is_live(stream_id) ==> ({
                let e = old(self).stream_at(stream_id);
                let idx = stream_index(old(self).streams@, stream_id);
                let dr = e.drained + n;
                if dr >= old(self).init_window / 2 {
                    &&& final(self).streams@ == old(self).streams@.update(
                        idx,
                        StreamEntry {
                            recv_window: (e.recv_window + dr) as u32,
                            drained: 0,
                            ..e
                        },
                    )
                    &&& final(self).stream_at(stream_id) == (StreamEntry {
                        recv_window: (e.recv_window + dr) as u32,
                        drained: 0,
                        ..e
                    })
                    &&& acts@.len() == 1
                    &&& (acts@[0] matches MuxAction::Send(p) && p@ == continue_packet(
                        stream_id,
                        (e.recv_window + dr) as u32,
                    ))
                } else {
                    &&& final(self).streams@ == old(self).streams@.update(
                        idx,
                        StreamEntry { drained: dr as u32, ..e },
                    )
                    &&& final(self).stream_at(stream_id) == (StreamEntry {
                        drained: dr as u32,
                        ..e
                    })
                    &&& acts@.len() == 0
                }
            }),
    {
        let mut acts: Vec<MuxAction> = Vec::new();
        if self.ended {
            return acts;
        }
        match self.find_stream(stream_id) {
            Some(i) => {
                let e = self.streams[i];
                if matches!(e.state, StreamState::Closed) {
                    return acts;
                }
                let ghost old_streams = self.streams@;
                let dr = e.drained + n;
                if dr >= self.init_window / 2 {
                    let new_window = e.recv_window + dr;
                    let updated = StreamEntry { recv_window: new_window, drained: 0, ..e };
                    self.streams.set(i, updated);
                    proof {
                        lemma_update_keeps_lookup(old_streams, i as int, updated, stream_id);
                    }
                    acts.push(
                        MuxAction::Send(
                            Packet { stream_id, body: PacketBody::Continue(new_window) },
                        ),
                    );
                } else {
                    let updated = StreamEntry { drained: dr, ..e };
                    self.streams.set(i, updated);
                    proof {
                        lemma_update_keeps_lookup(old_streams, i as int, updated, stream_id);
                    }
                }
                proof {
                    assert forall|k: int|
                        0 <= k < self.streams@.len() implies self.entry_inv(
                        #[trigger] self.streams@[k],
                    ) by {
                        assert(old(self).entry_inv(old_streams[k]));
                    }
                }
                acts
            },
            None => acts,
        }
    }

    /// The readers of all streams together consumed `n` more bytes. Past
    /// half the initial window the drained total is credited back to the
    /// peer in one session-level CONTINUE carrying the new absolute session
    /// window. Nothing happens once the session ended.
    pub fn session_consume(&mut self, n: u32) -> (acts: Vec<MuxAction>)
        requires
            old(self).wf(),
            old(self).handshaken,
            n + old(self).session_drained + old(self).session_recv_window <= old(
                self,
            ).init_window,
        ensures
            final(self).wf(),
            old(self).same_config(*final(self)),
            final(self).ended == old(self).ended,
            final(self).delivered@ == old(self).delivered@,
            final(self).streams@ == old(self).streams@,
            final(self).session_send_window == old(self).session_send_window,
            final(self).session_sent == old(self).session_sent,
            final(self).session_advertised == old(self).session_advertised,
            tame_update(*old(self), *final(self)),
            old(self).ended ==> ({
                &&& final(self).session_recv_window == old(self).session_recv_window
                &&& final(self).session_drained == old(self).session_drained
                &&& acts@.len() == 0
            }),
            !old(self).ended ==> ({
                let dr = old(self).session_drained + n;
                if dr >= old(self).init_window / 2 {
                    &&& final(self).session_recv_window == (old(self).session_recv_window
                        + dr) as u32
                    &&& final(self).session_drained == 0
                    &&& acts@.len() == 1
                    &&& (acts@[0] matches MuxAction::Send(p) && p@ == continue_packet(
                        0,
                        (old(self).session_recv_window + dr) as u32,
                    ))
                } else {
                    &&& final(self).session_recv_window == old(self).session_recv_window
                    &&& final(self).session_drained == dr as u32
                    &&& acts@.len() == 0
                }
            }),
    {
        let mut acts: Vec<MuxAction> = Vec::new();
        if self.ended {
            return acts;
        }
        let dr = self.session_drained + n;
        if dr >= self.init_window / 2 {
            let new_window = self.session_recv_window + dr;
            self.session_recv_window = new_window;
            self.session_drained = 0;
            acts.push(
                MuxAction::Send(Packet { stream_id: 0, body: PacketBody::Continue(new_window) }),
            );
        } else {
            self.session_drained = dr;
        }
        acts
    }

    /// Close our direction of the stream with `reason`. The CLOSE frame is
    /// emitted at most once per stream — a later call, or one for an
    /// unknown id, emits nothing — and not at all once the transport is
    /// gone.
    pub fn stream_close_local(&mut self, stream_id: u32, reason: CloseReason) -> (r: Option<
        Packet,
    >)
        requires
            old(self).wf(),
            old(self).handshaken,
        ensures
            final(self).wf(),
            old(self).same_config(*final(self)),
            final(self).ended == old(self).ended,
            final(self).delivered@ == old(self).delivered@,
            final(self).session_send_window == old(self).session_send_window,
            final(self).session_sent == old(self).session_sent,
            final(self).session_advertised == old(self).session_advertised,
            final(self).session_recv_window == old(self).session_recv_window,
            final(self).session_drained == old(self).session_drained,
            tame_update(*old(self), *final(self)),
            ({
                let e = old(self).stream_at(stream_id);
                let idx = stream_index(old(self).streams@, stream_id);
                &&& (old(self).has_stream(stream_id) && e.state == StreamState::Open ==> ({
                    &&& final(self).streams@ == old(self).streams@.update(
                        idx,
                        StreamEntry { state: StreamState::LocalClosed, ..e },
                    )
                    &&& final(self).stream_at(stream_id) == (StreamEntry {
                        state: StreamState::LocalClosed,
                        ..e
                    })
                    &&& r == if !old(self).ended {
                        Some(Packet { stream_id, body: PacketBody::Close(reason) })
                    } else {
                        None::<Packet>
                    }
                }))
                &&& (old(self).has_stream(stream_id) && e.state == StreamState::RemoteClosed
                    ==> ({
                    &&& final(self).streams@ == old(self).streams@.update(
                        idx,
                        StreamEntry { state: StreamState::Closed, ..e },
                    )
                    &&& final(self).stream_at(stream_id) == (StreamEntry {
                        state: StreamState::Closed,
                        ..e
                    })
                    &&& r == if !old(self).ended {
                        Some(Packet { stream_id, body: PacketBody::Close(reason) })
                    } else {
                        None::<Packet>
                    }
                }))
                &&& (old(self).has_stream(stream_id) && (e.state == StreamState::LocalClosed
                    || e.state == StreamState::Closed) ==> final(self).streams@ == old(
                    self,
                ).streams@ && r is None)
                &&& (!old(self).has_stream(stream_id) ==> final(self).streams@ == old(
                    self,
                ).streams@ && r is None)
            }),
    {
        match self.find_stream(stream_id) {
            Some(i) => {
                let e = self.streams[i];
                let new_state = match e.state {
                    StreamState::Open => StreamState::LocalClosed,
                    StreamState::RemoteClosed => StreamState::Closed,
                    StreamState::LocalClosed => {
                        return None;
                    },
                    StreamState::Closed => {
                        return None;
                    },
                };
                let ghost old_streams = self.streams@;
                let updated = StreamEntry { state: new_state, ..e };
                self.streams.set(i, updated);
                proof {
                    lemma_update_keeps_lookup(old_streams, i as int, updated, stream_id);
                    assert forall|k: int|
                        0 <= k < self.streams@.len() implies self.entry_inv(
                        #[trigger] self.streams@[k],
                    ) by {
                        assert(old(self).entry_inv(old_streams[k]));
                    }
                }
                if self.ended {
                    None
                } else {
                    Some(Packet { stream_id, body: PacketBody::Close(reason) })
                }
            },
            None => None,
        }
    }
}

/// Delivery keeps arrival order: handling a data frame appends its bytes to
/// the reader's history, so after two frames on one stream the first
/// frame's bytes stand wholly before the second's, and nothing already
/// delivered moves.
pub proof fn lemma_delivery_order(d0: Seq<u8>, d1: Seq<u8>, d2: Seq<u8>, a: Seq<u8>, b: Seq<u8>)
    requires
        d1 == d0 + a,
        d2 == d1 + b,
    ensures
        d2 == d0 + a + b,
        d2.subrange(d0.len() as int, (d0.len() + a.len()) as int) == a,
        d2.subrange((d0.len() + a.len()) as int, d2.len() as int) == b,
        d0.is_prefix_of(d1) && d1.is_prefix_of(d2),
{
    assert(d2 =~= d0 + a + b);
    assert(d2.subrange(d0.len() as int, (d0.len() + a.len()) as int) =~= a);
    assert(d2.subrange((d0.len() + a.len()) as int, d2.len() as int) =~= b);
    assert(d0 =~= d1.subrange(0, d0.len() as int));
    assert(d1 =~= d2.subrange(0, d1.len() as int));
}

/// The window is respected: in a well-formed session the bytes any stream
/// sent since its last credit never exceed the window value that credit
/// advertised (or the initial window), and the same holds of the
/// session-level window.
pub proof fn lemma_window_respected(s: Session)
    requires
        s.wf(),
    ensures
        forall|i: int|
            0 <= i < s.streams@.len() ==> (#[trigger] s.streams@[i]).sent_since_continue
                <= s.streams@[i].last_advertised,
        s.session_sent <= s.session_advertised,
{
}

/// The view of a CLOSE frame for `id` with `reason`.
pub open spec fn close_packet(id: u32, reason: CloseReason) -> PacketView {
    PacketView { stream_id: id, body: PacketBodyView::Close(reason) }
}

/// The view of a DATA frame for `id` carrying `bytes`.
pub open spec fn data_packet(id: u32, bytes: Seq<u8>) -> PacketView {
    PacketView { stream_id: id, body: PacketBodyView::Data(bytes) }
}

/// The view of a PONG frame echoing `payload` on `id`.
pub open spec fn pong_packet(id: u32, payload: Seq<u8>) -> PacketView {
    PacketView { stream_id: id, body: PacketBodyView::Pong(payload) }
}

/// The view of a CONTINUE frame for `id` advertising `window`.
pub open spec fn continue_packet(id: u32, window: u32) -> PacketView {
    PacketView { stream_id: id, body: PacketBodyView::Continue(window) }
}

} // verus!
