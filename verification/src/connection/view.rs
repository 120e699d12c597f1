//! What the operations of a connection do to its state.
use vstd::prelude::*;

use crate::codec::length_delimited::{Builder, LengthDelimitedCodec};
use crate::codec::Codec;
use crate::config::ServiceConfig;
use crate::connection::pending::PendingView;
use crate::connection::PingStep;
use crate::error::{ConnectionError, OperationError, StreamError, StreamErrorInner};
use crate::frame::data::{DataFlags, DataView};
use crate::frame::go_away::GoAwayView;
use crate::frame::headers::{BlockView, Fields, HeadersView};
use crate::frame::ping::PingView;
use crate::frame::pseudo::PseudoView;
use crate::frame::{
    self, FrameView, Reason, Reset, Settings, StreamId, WindowSize, WindowUpdate,
};
use crate::hpack::{encoder, Encoder};
use crate::http;
use crate::message::{EofView, KindView, MessageView};
use crate::stream::{Capacity, ContentLength, HalfState, StreamFlags, StreamRef, StreamState};
use crate::window::Window;

verus! {

/// What a connection asks its owner to do.
#[verifier::ext_equal]
pub enum ActionView {
    /// Write the connection preface.
    Preface,
    /// Write a frame.
    Send(FrameView),
    /// Close the transport.
    Close,
    /// Wake up the task that waits for send capacity of a stream.
    WakeSend(StreamRef),
    /// Wake up the task that waits for the reset of a stream.
    WakeReset(StreamRef),
    /// Wake up a task that waits for a new stream.
    Ready(u64),
    /// Tell a task that waits for a new stream that there will be none.
    Gone(u64),
    /// Call the capacity callback: streams may be opened now, or never more.
    Capacity,
    /// Start or restart the capacity timer of a stream, in seconds.
    TimerStart(StreamRef, u16),
    /// Stop the capacity timer of a stream.
    TimerStop(StreamRef),
}

/// A stream that frames are dispatched to.
#[derive(Debug, Copy, Clone, PartialEq, Eq, Structural)]
pub struct Entry {
    pub slot: usize,
    pub remote: bool,
}

#[derive(Debug, Copy, Clone, PartialEq, Eq, Structural)]
pub struct ConnectionFlags {
    pub settings_processed: bool,
    pub unknown_streams: bool,
    pub disconnect_when_ready: bool,
    pub secure: bool,
    pub stream_refused: bool,
    pub recv_pong: bool,
}

/// Windows, counters, limits and flags of a connection.
#[derive(Debug, Copy, Clone)]
pub struct ConnectionState {
    pub send_window: Window,
    pub recv_window: Window,
    pub next_stream_id: StreamId,
    pub active_remote_streams: u32,
    pub active_local_streams: u32,
    /// Streams that are counted as active before they are opened
    pub reserved_streams: u32,
    pub rst_count: u32,
    pub streams_count: u32,
    pub pings_count: u16,
    // Local config
    pub is_server: bool,
    pub config: ServiceConfig,
    /// Maximum number of locally initiated streams
    pub local_max_concurrent_streams: Option<u32>,
    /// Initial window size of remote initiated streams
    pub remote_window_sz: WindowSize,
    /// Max frame size
    pub remote_frame_size: u32,
    /// protocol level error
    pub error: Option<OperationError>,
    /// connection state flags
    pub flags: ConnectionFlags,
    /// The transport is closed
    pub closed: bool,
    /// Current time, in milliseconds
    pub now: u64,
}

/// The state of a connection.
#[verifier::ext_equal]
pub struct ConView {
    pub codec: Codec,
    pub state: ConnectionState,
    /// The states of all streams that are referred to.
    pub slots: Seq<StreamState>,
    /// Slots that nothing refers to any more.
    pub free: Seq<usize>,
    /// The streams that frames are dispatched to, by identifier.
    pub streams: Map<u32, Entry>,
    /// The tasks that wait for a new stream, first come first.
    pub readiness: Seq<u64>,
    /// Streams that have been closed a short while ago.
    pub pending: PendingView,
    /// What is to be done, first to last.
    pub actions: Seq<ActionView>,
}

/// The tasks that wait, but for one.
pub open spec fn waiters_without(waiters: Seq<u64>, waiter: u64) -> Seq<u64>
    decreases waiters.len(),
{
    if waiters.len() == 0 {
        Seq::empty()
    } else {
        let rest = waiters_without(waiters.drop_last(), waiter);
        if waiters.last() == waiter {
            rest
        } else {
            rest.push(waiters.last())
        }
    }
}

/// How many streams of one side are among the registered ones.
pub open spec fn count(streams: Map<u32, Entry>, remote: bool) -> nat {
    streams.dom().filter(|id: u32| streams[id].remote == remote).len()
}

/// Each active local stream is registered or reserved, and the registered ones have
/// identifiers below the next one.
#[verifier::opaque]
pub open spec fn tally(
    streams: Map<u32, Entry>,
    next_id: StreamId,
    active: u32,
    reserved: u32,
) -> bool {
    &&& active == count(streams, false) + reserved
    &&& forall|id: u32| #[trigger]
        streams.dom().contains(id) && !streams[id].remote ==> id < next_id.0
}

// ===== Invariant =====

impl ConView {
    /// The receive window that streams are brought up to.
    pub open spec fn base(self) -> int {
        if !self.state.flags.settings_processed && self.state.config.window_sz
            < frame::DEFAULT_INITIAL_WINDOW_SIZE {
            frame::DEFAULT_INITIAL_WINDOW_SIZE as int
        } else {
            self.state.config.window_sz as int
        }
    }

    pub open spec fn state_wf(self) -> bool {
        &&& self.codec.wf()
        &&& self.state.config.wf()
        &&& self.state.recv_window.window_size + self.state.config.connection_window_sz_threshold
            >= self.state.config.connection_window_sz
        &&& self.state.next_stream_id.wf()
        &&& self.state.next_stream_id.0 != 0
        &&& self.state.remote_window_sz <= frame::MAX_INITIAL_WINDOW_SIZE
        &&& self.state.remote_frame_size == self.codec.encoder_max_frame_size
        &&& frame::DEFAULT_MAX_FRAME_SIZE <= self.state.remote_frame_size
            <= frame::MAX_MAX_FRAME_SIZE
        &&& self.pending.wf()
    }

    /// An identifier refers to the stream that has it.
    pub open spec fn entry_wf(self, id: u32) -> bool {
        let e = self.streams[id];
        &&& e.slot < self.slots.len()
        &&& self.slots[e.slot as int].id.0 == id
        &&& self.slots[e.slot as int].flags.remote == e.remote
        &&& self.slots[e.slot as int].send_window.window_size - self.state.remote_window_sz
            >= -i32::MAX
    }

    /// Whether frames are dispatched to a slot.
    pub open spec fn registered(self, slot: int) -> bool {
        let id = self.slots[slot].id.0;
        self.streams.dom().contains(id) && self.streams[id].slot == slot
    }

    pub open spec fn table_wf(self) -> bool {
        &&& self.streams.dom().finite()
        &&& forall|id: u32| #[trigger] self.streams.dom().contains(id) ==> self.entry_wf(id)
        &&& forall|k: int|
            0 <= k < self.free.len() ==> #[trigger] self.free[k] < self.slots.len()
                && !self.registered(self.free[k] as int)
        &&& self.free.no_duplicates()
    }

    pub open spec fn slots_wf(self) -> bool {
        forall|i: int| 0 <= i < self.slots.len() ==> (#[trigger] self.slots[i]).wf(self.base())
    }

    /// No more streams are registered or reserved than the counters say, and no fewer
    /// local ones as long as the connection has not failed.
    pub open spec fn counts_wf(self) -> bool {
        &&& count(self.streams, true) <= self.state.active_remote_streams
        &&& count(self.streams, false) + self.state.reserved_streams
            <= self.state.active_local_streams
        &&& self.state.error is None ==> self.tallied()
    }

    pub open spec fn tallied(self) -> bool {
        tally(
            self.streams,
            self.state.next_stream_id,
            self.state.active_local_streams,
            self.state.reserved_streams,
        )
    }

    pub open spec fn wf(self) -> bool {
        &&& self.state_wf()
        &&& self.table_wf()
        &&& self.slots_wf()
        &&& self.counts_wf()
    }

    /// A stream that can be referred to.
    pub open spec fn has(self, s: StreamRef) -> bool {
        s.0 < self.slots.len()
    }
}

// ===== Streams =====

impl ConView {
    pub open spec fn act(self, a: ActionView) -> ConView {
        ConView { actions: self.actions.push(a), ..self }
    }

    pub open spec fn send(self, f: FrameView) -> ConView {
        self.act(ActionView::Send(f))
    }

    pub open spec fn reset_frame(self, id: StreamId, reason: Reason) -> ConView {
        self.send(FrameView::Reset(Reset { stream_id: id, error_code: reason }))
    }

    pub open spec fn slot(self, s: StreamRef) -> StreamState {
        self.slots[s.0 as int]
    }

    pub open spec fn with_slot(self, s: StreamRef, st: StreamState) -> ConView {
        ConView { slots: self.slots.update(s.0 as int, st), ..self }
    }

    pub open spec fn with_state(self, state: ConnectionState) -> ConView {
        ConView { state, ..self }
    }

    pub open spec fn close(self) -> ConView {
        self.with_state(ConnectionState { closed: true, ..self.state }).act(
            ActionView::Close,
        ).act(ActionView::Capacity)
    }

    /// The first task that waits for a new stream is woken up.
    pub open spec fn notify(self) -> ConView {
        if self.readiness.len() > 0 {
            ConView { readiness: self.readiness.skip(1), ..self }.act(
                ActionView::Ready(self.readiness[0]),
            )
        } else {
            self
        }
    }

    /// One local stream less is active: the first task that waits for one is
    /// woken up, where there was none left.
    pub open spec fn local_released(self) -> ConView {
        let next = self.with_state(
            ConnectionState {
                active_local_streams: (self.state.active_local_streams - 1) as u32,
                ..self.state
            },
        );
        if self.state.local_max_concurrent_streams == Some(self.state.active_local_streams) {
            next.notify().act(ActionView::Capacity)
        } else {
            next.act(ActionView::Capacity)
        }
    }

    /// The stream is not registered any more, and the counter of its side knows.
    pub open spec fn unregister(self, id: u32) -> ConView {
        if self.streams.dom().contains(id) {
            let rest = ConView { streams: self.streams.remove(id), ..self };
            if self.streams[id].remote {
                rest.with_state(
                    ConnectionState {
                        active_remote_streams: (self.state.active_remote_streams - 1) as u32,
                        ..self.state
                    },
                )
            } else {
                rest.local_released()
            }
        } else {
            self
        }
    }

    /// No stream is open and none is reserved.
    pub open spec fn idle(self) -> bool {
        self.streams.dom().len() == 0 && self.state.reserved_streams == 0
    }

    /// The identifier is kept for a while, so that late frames are recognized.
    pub open spec fn remember(self, id: u32) -> ConView {
        ConView {
            pending: self.pending.add(
                id,
                self.state.now,
                self.state.config.reset_duration * 1000,
                self.state.config.reset_max as nat,
            ),
            ..self
        }
    }

    /// Nothing but the registration of streams has changed, and what follows from
    /// it.
    pub open spec fn keeps(self, next: ConView) -> bool {
        &&& next.codec == self.codec
        &&& next.slots == self.slots
        &&& next.free == self.free
        &&& next.state == (ConnectionState {
            active_remote_streams: next.state.active_remote_streams,
            active_local_streams: next.state.active_local_streams,
            closed: next.state.closed,
            ..self.state
        })
    }

    /// The streams hold the same capacity.
    pub open spec fn same_capacity(self, next: ConView) -> bool {
        &&& next.slots.len() == self.slots.len()
        &&& forall|i: int|
            0 <= i < self.slots.len() ==> (#[trigger] next.slots[i]).recv_size
                == self.slots[i].recv_size
    }

    /// A stream is dropped. Where it was the last one of a connection that is to
    /// be closed, this closes the connection.
    #[verifier::opaque]
    pub open spec fn drop_stream(self, id: u32) -> ConView {
        let next = self.unregister(id);
        if next.idle() && next.state.flags.disconnect_when_ready {
            next.close()
        } else if next.state.flags.unknown_streams {
            next.remember(id)
        } else {
            next
        }
    }

    /// A stream is dropped as soon as both of its directions are closed.
    pub open spec fn settle(self, s: StreamRef) -> ConView {
        let st = self.slot(s);
        if st.recv is Closed {
            let next = self.act(ActionView::WakeReset(s));
            if st.send is Closed {
                next.act(ActionView::WakeSend(s)).drop_stream(st.id.0)
            } else {
                next
            }
        } else {
            self
        }
    }

    pub open spec fn send_close(self, s: StreamRef, reason: Option<Reason>) -> ConView {
        self.with_slot(s, StreamState { send: HalfState::Closed(reason), ..self.slot(s) }).act(
            ActionView::WakeSend(s),
        ).settle(s)
    }

    pub open spec fn recv_close(self, s: StreamRef, reason: Option<Reason>) -> ConView {
        self.with_slot(
            s,
            StreamState { recv: HalfState::Closed(reason), ..self.slot(s) },
        ).settle(s)
    }

    /// The stream has been reset from this side.
    pub open spec fn local_reset(self, s: StreamRef, reason: Reason) -> ConView {
        self.with_slot(
            s,
            StreamState {
                recv: HalfState::Closed(Some(reason)),
                send: HalfState::Closed(None),
                error: Some(OperationError::LocalReset(reason)),
                ..self.slot(s)
            },
        ).settle(s)
    }

    /// The stream has been reset from the peer.
    pub open spec fn remote_reset(self, s: StreamRef, reason: Reason) -> ConView {
        self.with_slot(
            s,
            StreamState {
                recv: HalfState::Closed(None),
                send: HalfState::Closed(Some(reason)),
                error: Some(OperationError::RemoteReset(reason)),
                ..self.slot(s)
            },
        ).settle(s)
    }

    /// What is left of a direction after a failure.
    pub open spec fn shut(half: HalfState) -> HalfState {
        if half is Closed {
            half
        } else {
            HalfState::Closed(None)
        }
    }

    pub open spec fn failed(self, s: StreamRef, err: OperationError) -> ConView {
        let st = self.slot(s);
        self.with_slot(
            s,
            StreamState {
                recv: ConView::shut(st.recv),
                send: ConView::shut(st.send),
                error: Some(err),
                flags: StreamFlags { failed: true, ..st.flags },
                ..st
            },
        ).settle(s)
    }

    /// A stream is reset from this side, unless it is closed already.
    pub open spec fn reset(self, s: StreamRef, reason: Reason) -> ConView {
        if self.slot(s).closed() {
            self
        } else {
            self.reset_frame(self.slot(s).id, reason).local_reset(s, reason)
        }
    }
}

impl ConView {
    /// The owner of a stream gives it up.
    pub open spec fn give_up(self, s: StreamRef) -> ConView {
        if self.slot(s).flags.reset_on_drop {
            self.reset(s, Reason::CANCEL)
        } else {
            self
        }
    }

    /// The connection is closed as soon as no stream is open or reserved.
    pub open spec fn disconnect_when_ready(self) -> ConView {
        if self.idle() {
            self.close()
        } else {
            self.with_state(
                ConnectionState {
                    flags: ConnectionFlags { disconnect_when_ready: true, ..self.state.flags },
                    ..self.state
                },
            )
        }
    }

    /// A stream is canceled, and takes its connection along where it is to.
    pub open spec fn cancel(self, s: StreamRef) -> ConView {
        let next = self.reset(s, Reason::CANCEL);
        if next.slot(s).flags.disconnect_on_drop {
            next.disconnect_when_ready()
        } else {
            next
        }
    }
}

// ===== Receive windows =====

impl ConView {
    /// Bytes have come on the connection. Its window is announced again as soon
    /// as enough of it is gone.
    pub open spec fn con_received(self, size: int) -> ConView {
        let config = self.state.config;
        let window = Window {
            window_size: (self.state.recv_window.window_size - size) as i32,
        };
        match window.increment(
            0,
            config.connection_window_sz as int,
            config.connection_window_sz_threshold as int,
        ) {
            Some(n) => self.send(
                FrameView::WindowUpdate(
                    WindowUpdate { stream_id: StreamId(0), size_increment: n as u32 },
                ),
            ).with_state(
                ConnectionState {
                    recv_window: Window { window_size: (window.window_size + n) as i32 },
                    ..self.state
                },
            ),
            None => self.with_state(ConnectionState { recv_window: window, ..self.state }),
        }
    }

    /// The counters of a stream can take `size` more bytes.
    pub open spec fn fits(self, s: StreamRef, size: int) -> bool {
        let st = self.slot(s);
        &&& st.recv_size + size <= i32::MAX
        &&& self.base() - (st.recv_window.window_size - size) <= i32::MAX
        &&& self.state.config.connection_window_sz - (self.state.recv_window.window_size - size)
            <= i32::MAX
    }

    /// Bytes have come on a stream.
    #[verifier::opaque]
    pub open spec fn received(self, s: StreamRef, size: int) -> ConView {
        let st = self.slot(s);
        self.with_slot(
            s,
            StreamState {
                recv_size: (st.recv_size + size) as u32,
                recv_window: Window { window_size: (st.recv_window.window_size - size) as i32 },
                ..st
            },
        ).con_received(size)
    }

    /// Bytes of a stream have been consumed. Its window is announced again as
    /// soon as enough of it can be reclaimed.
    #[verifier::opaque]
    pub open spec fn consumed(self, s: StreamRef, size: int) -> ConView {
        let st = StreamState {
            recv_size: (self.slot(s).recv_size - size) as u32,
            ..self.slot(s)
        };
        let config = self.state.config;
        match st.recv_window.increment(
            st.recv_size as int,
            config.window_sz as int,
            config.window_sz_threshold as int,
        ) {
            Some(n) => self.with_slot(
                s,
                StreamState {
                    recv_window: Window { window_size: (st.recv_window.window_size + n) as i32 },
                    ..st
                },
            ).send(
                FrameView::WindowUpdate(
                    WindowUpdate { stream_id: st.id, size_increment: n as u32 },
                ),
            ),
            None => self.with_slot(s, st),
        }
    }
}

// ===== Frames of a stream =====

/// The number that decimal digits make up.
pub open spec fn digits_value(s: Seq<u8>) -> nat
    decreases s.len(),
{
    if s.len() == 0 {
        0
    } else {
        digits_value(s.drop_last()) * 10 + (s.last() - 0x30) as nat
    }
}

/// The number that up to 19 bytes stand for, where all of them are digits.
pub open spec fn number_of(s: Seq<u8>) -> Option<u64> {
    if s.len() <= 19 && forall|i: int| 0 <= i < s.len() ==> 0x30 <= #[trigger] s[i] <= 0x39 {
        Some(digits_value(s) as u64)
    } else {
        None
    }
}

/// What becomes of a frame of a stream: a message, or an error of the stream.
pub type Delivered = Result<Option<MessageView>, StreamError>;

impl ConView {
    /// HEADERS of a stream: a message as long as nothing has come, then trailers.
    #[verifier::opaque]
    pub open spec fn stream_headers(self, s: StreamRef, hdrs: HeadersView) -> (ConView, Delivered) {
        let st = self.slot(s);
        let eof = hdrs.flags.end_stream();
        match st.recv {
            HalfState::Idle => {
                let next = if eof {
                    self.recv_close(s, None)
                } else {
                    self.with_slot(s, StreamState { recv: HalfState::Payload, ..st })
                };
                let name = http::text_bytes("content-length"@);
                let msg = MessageView {
                    stream: s,
                    kind: KindView::Headers {
                        pseudo: hdrs.block.pseudo,
                        headers: hdrs.block.fields,
                        eof,
                    },
                };
                if st.content_length != ContentLength::Head && hdrs.block.fields.dom().contains(
                    name,
                ) {
                    match number_of(hdrs.block.fields[name][0].0) {
                        Some(v) => (
                            next.with_slot(
                                s,
                                StreamState {
                                    content_length: ContentLength::Remaining(v),
                                    ..next.slot(s)
                                },
                            ),
                            Ok(Some(msg)),
                        ),
                        None => (next, Err(StreamError::InvalidContentLength)),
                    }
                } else {
                    (next, Ok(Some(msg)))
                }
            },
            HalfState::Payload => if eof {
                (
                    self.recv_close(s, None),
                    Ok(
                        Some(
                            MessageView {
                                stream: s,
                                kind: KindView::Eof(EofView::Trailers(hdrs.block.fields)),
                            },
                        ),
                    ),
                )
            } else {
                (self, Err(StreamError::TrailersWithoutEos))
            },
            HalfState::Closed(_) => (self, Err(StreamError::Closed)),
        }
    }

    /// The capacity of a payload, once it is received.
    pub open spec fn taken(self, s: StreamRef, size: int) -> ConView {
        if size != 0 {
            self.received(s, size)
        } else {
            self
        }
    }

    /// The capacity of a payload, once it is dropped.
    pub open spec fn released(self, s: StreamRef, size: int) -> ConView {
        if size != 0 {
            self.consumed(s, size)
        } else {
            self
        }
    }

    /// What a payload leaves of the announced length, unless it is not the
    /// announced one.
    pub open spec fn length_left(length: ContentLength, size: int) -> Result<
        ContentLength,
        StreamError,
    > {
        match length {
            ContentLength::Remaining(rem) => if rem < size {
                Err(StreamError::WrongPayloadLength)
            } else {
                Ok(ContentLength::Remaining((rem - size) as u64))
            },
            ContentLength::Head => if size > 0 {
                Err(StreamError::NonEmptyPayload)
            } else {
                Ok(length)
            },
            ContentLength::Omitted => Ok(length),
        }
    }

    /// The announced length after a payload, and whether the payload was not the
    /// announced one.
    pub open spec fn length_checked(self, s: StreamRef, size: int, eof: bool) -> (
        ConView,
        Option<StreamError>,
    ) {
        let st = self.slot(s);
        match ConView::length_left(st.content_length, size) {
            Err(e) => (self, Some(e)),
            Ok(left) => (
                self.with_slot(s, StreamState { content_length: left, ..st }),
                if eof && left is Remaining && left->Remaining_0 != 0 {
                    Some(StreamError::WrongPayloadLength)
                } else {
                    None
                },
            ),
        }
    }

    /// DATA of a stream. The capacity goes with the message, unless there is no
    /// message to take it or nothing can follow.
    #[verifier::opaque]
    pub open spec fn stream_data(self, s: StreamRef, data: DataView) -> (ConView, Delivered) {
        let eof = data.flags.end_stream();
        let size = data.data.len() as int;
        let next = self.taken(s, size);
        match self.slot(s).recv {
            HalfState::Payload => match next.length_checked(s, size, eof) {
                (next, Some(e)) => (next.released(s, size), Err(e)),
                (next, None) => if eof {
                    (
                        next.recv_close(s, None).released(s, size),
                        Ok(
                            Some(
                                MessageView {
                                    stream: s,
                                    kind: KindView::Eof(EofView::Data(data.data)),
                                },
                            ),
                        ),
                    )
                } else {
                    (
                        next,
                        Ok(
                            Some(
                                MessageView {
                                    stream: s,
                                    kind: KindView::Data(
                                        data.data,
                                        Capacity { size: size as u32, stream: s },
                                    ),
                                },
                            ),
                        ),
                    )
                },
            },
            HalfState::Idle => (
                next.released(s, size),
                Err(StreamError::Idle("DATA framed received")),
            ),
            HalfState::Closed(_) => (next.released(s, size), Err(StreamError::Closed)),
        }
    }
}

// ===== Send windows =====

impl ConView {
    /// The bytes that a stream may send now.
    pub open spec fn available(self, s: StreamRef) -> int {
        let stream = self.slot(s).send_window.size();
        let con = self.state.send_window.size();
        if stream <= con {
            stream
        } else {
            con
        }
    }

    /// The capacity timer of a stream stops, where there is one.
    pub open spec fn stop_timer(self, s: StreamRef) -> ConView {
        if self.state.config.capacity_timeout is Some {
            self.act(ActionView::TimerStop(s))
        } else {
            self
        }
    }

    /// The capacity timer of a stream starts, where there is one.
    pub open spec fn start_timer(self, s: StreamRef) -> ConView {
        match self.state.config.capacity_timeout {
            Some(timeout) => self.act(ActionView::TimerStart(s, timeout)),
            None => self,
        }
    }

    /// A stream waits for send capacity, or it does not any more.
    pub open spec fn waiting(self, s: StreamRef, wait: bool) -> ConView {
        let st = self.slot(s);
        self.with_slot(
            s,
            StreamState { flags: StreamFlags { wait_for_capacity: wait, ..st.flags }, ..st },
        )
    }

    /// The window of the connection has grown: a stream goes on that has waited
    /// for it, unless its own window is used up.
    pub open spec fn con_window_grown(self, s: StreamRef) -> ConView {
        let st = self.slot(s);
        if st.flags.wait_for_capacity && st.send_window.size() > 0 {
            self.waiting(s, false).act(ActionView::WakeSend(s)).stop_timer(s)
        } else {
            self
        }
    }

    /// WINDOW_UPDATE of a stream.
    pub open spec fn stream_window_update(self, s: StreamRef, inc: int) -> (
        ConView,
        Result<(), StreamError>,
    ) {
        let st = self.slot(s);
        let size = st.send_window.window_size + inc;
        if inc == 0 {
            (self, Err(StreamError::WindowZeroUpdateValue))
        } else if size > i32::MAX {
            (self, Err(StreamError::WindowOverflowed))
        } else {
            let next = self.with_slot(
                s,
                StreamState { send_window: Window { window_size: size as i32 }, ..st },
            );
            if size > 0 {
                if st.send_window.size() == 0 {
                    (
                        next.waiting(s, false).act(ActionView::WakeSend(s)).stop_timer(s),
                        Ok(()),
                    )
                } else {
                    (next.act(ActionView::WakeSend(s)), Ok(()))
                }
            } else {
                (next, Ok(()))
            }
        }
    }

    /// The peer has changed its initial window size.
    pub open spec fn send_window_moved(self, s: StreamRef, upd: int) -> (
        ConView,
        Result<(), StreamError>,
    ) {
        let st = self.slot(s);
        let size = st.send_window.window_size + upd;
        if size > i32::MAX {
            (self, Err(StreamError::WindowOverflowed))
        } else {
            (
                self.with_slot(
                    s,
                    StreamState { send_window: Window { window_size: size as i32 }, ..st },
                ),
                Ok(()),
            )
        }
    }

    /// The peer has accepted the initial window size of this side. The result is
    /// the increment that is to be announced.
    pub open spec fn recv_window_moved(self, s: StreamRef, upd: int) -> (
        ConView,
        Result<Option<WindowSize>, StreamError>,
    ) {
        let st = self.slot(s);
        let config = self.state.config;
        let window = Window { window_size: (st.recv_window.window_size + upd) as i32 };
        if upd == 0 {
            (self, Ok(None))
        } else if st.recv_window.window_size + upd > i32::MAX {
            (self, Err(StreamError::WindowOverflowed))
        } else {
            match window.increment(
                st.recv_size as int,
                config.window_sz as int,
                config.window_sz_threshold as int,
            ) {
                Some(n) => (
                    self.with_slot(
                        s,
                        StreamState {
                            recv_window: Window { window_size: (window.window_size + n) as i32 },
                            ..st
                        },
                    ),
                    Ok(Some(n as u32)),
                ),
                None => (self.with_slot(s, StreamState { recv_window: window, ..st }), Ok(None)),
            }
        }
    }
}

// ===== Sending =====

impl ConView {
    /// HEADERS that open a request.
    pub open spec fn send_headers(self, s: StreamRef, hdrs: HeadersView) -> ConView {
        let next = if hdrs.flags.end_stream() {
            self.send_close(s, None)
        } else {
            self.with_slot(s, StreamState { send: HalfState::Payload, ..self.slot(s) })
        };
        let next = if hdrs.block.pseudo.status matches Some(status) && 100 <= status < 200 {
            next.with_slot(
                s,
                StreamState { content_length: ContentLength::Head, ..next.slot(s) },
            )
        } else {
            next
        };
        next.send(FrameView::Headers(hdrs))
    }

    /// HEADERS of a response.
    pub open spec fn send_response(self, s: StreamRef, status: u16, fields: Fields, eof: bool) -> (
        ConView,
        Result<(), OperationError>,
    ) {
        let st = self.slot(s);
        let hdrs = HeadersView {
            stream_id: st.id,
            flags: HeadersView::new_flags(eof),
            block: BlockView {
                pseudo: PseudoView { status: Some(status), ..PseudoView::empty() },
                fields,
            },
        };
        match st.error {
            Some(e) => (self, Err(e)),
            None => match st.send {
                HalfState::Idle => {
                    let next = if eof {
                        self.send_close(s, None)
                    } else {
                        self.with_slot(s, StreamState { send: HalfState::Payload, ..st })
                    };
                    (next.send(FrameView::Headers(hdrs)), Ok(()))
                },
                HalfState::Payload => (self, Err(OperationError::Payload)),
                HalfState::Closed(r) => (self, Err(OperationError::Closed(r))),
            },
        }
    }

    /// HEADERS that end a stream.
    pub open spec fn send_trailers(self, s: StreamRef, fields: Fields) -> ConView {
        let st = self.slot(s);
        if st.send is Payload {
            self.send(
                FrameView::Headers(
                    HeadersView {
                        stream_id: st.id,
                        flags: HeadersView::new_flags(true),
                        block: BlockView { pseudo: PseudoView::empty(), fields },
                    },
                ),
            ).send_close(s, None)
        } else {
            self
        }
    }

    /// A DATA frame of a stream.
    pub open spec fn data_frame(self, s: StreamRef, data: Seq<u8>, eof: bool) -> FrameView {
        FrameView::Data(
            DataView {
                stream_id: self.slot(s).id,
                data,
                flags: DataFlags(
                    if eof {
                        1
                    } else {
                        0
                    },
                ),
            },
        )
    }

    /// Both send windows, with less in them.
    pub open spec fn spend(self, s: StreamRef, size: int) -> ConView {
        let st = self.slot(s);
        self.with_slot(
            s,
            StreamState {
                send_window: Window { window_size: (st.send_window.window_size - size) as i32 },
                ..st
            },
        ).with_state(
            ConnectionState {
                send_window: Window {
                    window_size: (self.state.send_window.window_size - size) as i32,
                },
                ..self.state
            },
        )
    }

    /// How many of `len` bytes the next DATA frame can hold.
    pub open spec fn chunk(self, s: StreamRef, len: int) -> int {
        let max = if self.available(s) <= self.state.remote_frame_size {
            self.available(s)
        } else {
            self.state.remote_frame_size as int
        };
        if len <= max {
            len
        } else {
            max
        }
    }

    /// One DATA frame is sent. The last one closes this direction of the stream,
    /// where nothing is to follow.
    pub open spec fn write_chunk(self, s: StreamRef, data: Seq<u8>, eof: bool) -> ConView {
        let size = self.chunk(s, data.len() as int);
        if size >= data.len() {
            let sent = self.send(self.data_frame(s, data, eof));
            let next = if eof {
                sent.send_close(s, None)
            } else {
                sent
            };
            next.spend(s, size)
        } else {
            self.send(self.data_frame(s, data.take(size), false)).spend(s, size)
        }
    }

    /// Payload is sent in frames of the size that the peer accepts, as far as the
    /// windows go. The result is what is left for later.
    #[verifier::opaque]
    pub open spec fn write_payload(self, s: StreamRef, data: Seq<u8>, eof: bool) -> (
        ConView,
        Option<Seq<u8>>,
    )
        decreases data.len(),
    {
        let size = self.chunk(s, data.len() as int);
        if self.available(s) <= 0 {
            (self.start_timer(s), Some(data))
        } else if size >= data.len() {
            (self.write_chunk(s, data, eof), None)
        } else if size <= 0 {
            (self, Some(data))
        } else {
            self.write_chunk(s, data, eof).write_payload(s, data.skip(size), eof)
        }
    }

    /// Payload of a stream, if it is at that point.
    pub open spec fn send_payload(self, s: StreamRef, data: Seq<u8>, eof: bool) -> (
        ConView,
        Result<Option<Seq<u8>>, OperationError>,
    ) {
        let st = self.slot(s);
        match st.send {
            HalfState::Payload => match st.error {
                Some(e) => (self, Err(e)),
                None => if eof && data.len() == 0 {
                    (self.send_close(s, None).send(self.data_frame(s, data, true)), Ok(None))
                } else {
                    let (next, rest) = self.write_payload(s, data, eof);
                    (next, Ok(rest))
                },
            },
            HalfState::Idle => (self, Err(OperationError::Idle)),
            HalfState::Closed(r) => (self, Err(OperationError::Closed(r))),
        }
    }

    /// The error of a stream, or else of its connection.
    pub open spec fn stream_error(self, s: StreamRef) -> Option<OperationError> {
        match self.slot(s).error {
            Some(e) => Some(e),
            None => self.state.error,
        }
    }

    /// A stream asks for send capacity. The capacity timer runs from the first time
    /// that there is none until there is some.
    pub open spec fn poll_capacity(self, s: StreamRef) -> (
        ConView,
        Result<Option<WindowSize>, OperationError>,
    ) {
        let waited = self.slot(s).flags.wait_for_capacity;
        let wait = self.available(s) <= 0;
        let next = self.waiting(s, wait);
        match self.stream_error(s) {
            Some(e) => (self, Err(e)),
            None => if wait {
                (
                    if waited {
                        next
                    } else {
                        next.start_timer(s)
                    },
                    Ok(None),
                )
            } else {
                (
                    if waited {
                        next.stop_timer(s)
                    } else {
                        next
                    },
                    Ok(Some(self.available(s) as u32)),
                )
            },
        }
    }

    /// The capacity timer of a stream has run out.
    pub open spec fn capacity_timeout(self, s: StreamRef) -> ConView {
        self.reset(s, Reason::FLOW_CONTROL_ERROR).failed(
            s,
            OperationError::Stream(StreamError::CapacityTimeout),
        )
    }
}

// ===== Connection =====

/// A `Codec` with other limits.
pub open spec fn with_recv_limits(
    codec: Codec,
    max_list_size: Option<u32>,
    continuations: usize,
) -> Codec {
    Codec {
        decoder_max_header_list_size: match max_list_size {
            Some(max) => max as usize,
            None => codec.decoder_max_header_list_size,
        },
        decoder_max_header_continuations: continuations,
        ..codec
    }
}

/// A `Codec` with another max received frame size.
pub open spec fn with_recv_frame_size(codec: Codec, max: usize) -> Codec {
    Codec {
        decoder: LengthDelimitedCodec {
            builder: Builder { max_frame_len: max, ..codec.decoder.builder },
            ..codec.decoder
        },
        ..codec
    }
}

/// A `Codec` whose compression table is to get another size.
pub open spec fn with_send_table_size(codec: Codec, max: usize) -> Codec {
    Codec {
        encoder_hpack: Encoder {
            size_update: encoder::merged(
                codec.encoder_hpack.size_update,
                codec.encoder_hpack.table@.max_size,
                max,
            ),
            ..codec.encoder_hpack
        },
        ..codec
    }
}

impl ConView {
    /// A connection that nothing has been sent or received on.
    pub open spec fn start(
        codec: Codec,
        config: ServiceConfig,
        is_server: bool,
        secure: bool,
        skip_streams: bool,
    ) -> ConView {
        let idle = ConView {
            codec,
            state: ConnectionState {
                send_window: Window { window_size: 65_535 },
                recv_window: Window { window_size: 65_535 },
                next_stream_id: StreamId(1),
                active_remote_streams: 0,
                active_local_streams: 0,
                reserved_streams: 0,
                rst_count: 0,
                streams_count: 0,
                pings_count: 0,
                is_server,
                config,
                local_max_concurrent_streams: None,
                remote_window_sz: frame::DEFAULT_INITIAL_WINDOW_SIZE,
                remote_frame_size: codec.encoder_max_frame_size,
                error: None,
                flags: ConnectionFlags {
                    settings_processed: false,
                    unknown_streams: !skip_streams,
                    disconnect_when_ready: false,
                    secure,
                    stream_refused: false,
                    recv_pong: false,
                },
                closed: false,
                now: 0,
            },
            slots: Seq::empty(),
            free: Seq::empty(),
            streams: Map::empty(),
            readiness: Seq::empty(),
            pending: PendingView::empty(),
            actions: Seq::empty(),
        };
        let opened = if is_server {
            idle
        } else {
            idle.act(ActionView::Preface)
        };
        ConView {
            codec: with_recv_limits(
                codec,
                config.settings.max_header_list_size,
                config.max_header_continuations,
            ),
            ..opened.send(FrameView::Settings(config.settings)).con_received(0)
        }
    }

    /// The error that new requests are refused with.
    pub open spec fn request_error(self) -> Option<OperationError> {
        if self.state.error is Some {
            self.state.error
        } else if self.state.flags.disconnect_when_ready {
            Some(OperationError::Disconnecting)
        } else {
            None
        }
    }

    /// The peer accepts one more stream.
    pub open spec fn can_create(self) -> bool {
        match self.state.local_max_concurrent_streams {
            Some(max) => self.state.active_local_streams < max,
            None => true,
        }
    }

    /// The slot of the next stream.
    pub open spec fn next_slot(self) -> StreamRef {
        if self.free.len() > 0 {
            StreamRef(self.free.last())
        } else {
            StreamRef(self.slots.len() as usize)
        }
    }

    /// A new stream, registered under its identifier.
    pub open spec fn open(self, id: StreamId, remote: bool) -> ConView {
        let recv_window = Window {
            window_size: if self.state.flags.settings_processed {
                self.state.config.window_sz as i32
            } else {
                65_535
            },
        };
        let send_window = Window { window_size: self.state.remote_window_sz as i32 };
        let st = StreamState::fresh(id, remote, recv_window, send_window);
        let slot = self.next_slot().0;
        ConView {
            slots: if self.free.len() > 0 {
                self.slots.update(slot as int, st)
            } else {
                self.slots.push(st)
            },
            free: if self.free.len() > 0 {
                self.free.drop_last()
            } else {
                self.free
            },
            streams: self.streams.insert(id.0, Entry { slot, remote }),
            state: if remote {
                ConnectionState {
                    active_remote_streams: (self.state.active_remote_streams + 1) as u32,
                    streams_count: (self.state.streams_count + 1) as u32,
                    ..self.state
                }
            } else {
                ConnectionState {
                    active_local_streams: (self.state.active_local_streams + 1) as u32,
                    ..self.state
                }
            },
            ..self
        }
    }

    /// The headers of a request.
    pub open spec fn request_headers(
        self,
        authority: Seq<char>,
        method: Seq<char>,
        path: Seq<char>,
        fields: Fields,
        eof: bool,
    ) -> HeadersView {
        HeadersView {
            stream_id: self.state.next_stream_id,
            flags: HeadersView::new_flags(eof),
            block: BlockView {
                pseudo: PseudoView {
                    method: Some(method),
                    scheme: Some(
                        if self.state.flags.secure {
                            "https"@
                        } else {
                            "http"@
                        },
                    ),
                    authority: Some(authority),
                    path: Some(path),
                    ..PseudoView::empty()
                },
                fields,
            },
        }
    }

    /// A stream is reserved, unless requests are refused or have to wait.
    pub open spec fn reserve(self) -> Option<ConView> {
        if self.request_error() is None && self.can_create() {
            Some(
                self.with_state(
                    ConnectionState {
                        active_local_streams: (self.state.active_local_streams + 1) as u32,
                        reserved_streams: (self.state.reserved_streams + 1) as u32,
                        ..self.state
                    },
                ),
            )
        } else {
            None
        }
    }

    /// A reserved stream is given back unused.
    pub open spec fn release_reserved(self) -> ConView {
        let next = self.with_state(
            ConnectionState {
                reserved_streams: (self.state.reserved_streams - 1) as u32,
                ..self.state
            },
        ).local_released();
        if next.idle() && next.state.flags.disconnect_when_ready {
            next.close()
        } else {
            next
        }
    }

    /// A request on a stream that was reserved.
    pub open spec fn reserved_request(
        self,
        authority: Seq<char>,
        method: Seq<char>,
        path: Seq<char>,
        fields: Fields,
        eof: bool,
    ) -> (ConView, Result<StreamRef, OperationError>) {
        let id = self.state.next_stream_id;
        match self.state.error {
            Some(e) => (self, Err(e)),
            None => if id.0 + 2 >= frame::stream_id::STREAM_ID_LIMIT {
                (self, Err(OperationError::OverflowedStreamId))
            } else {
                let free = self.with_state(
                    ConnectionState {
                        active_local_streams: (self.state.active_local_streams - 1) as u32,
                        reserved_streams: (self.state.reserved_streams - 1) as u32,
                        ..self.state
                    },
                );
                free.new_request(authority, method, path, fields, eof)
            },
        }
    }

    /// A request, unless the connection has failed or is about to be closed.
    pub open spec fn request(
        self,
        authority: Seq<char>,
        method: Seq<char>,
        path: Seq<char>,
        fields: Fields,
        eof: bool,
    ) -> (ConView, Result<StreamRef, OperationError>) {
        match self.request_error() {
            Some(e) => (self, Err(e)),
            None => self.new_request(authority, method, path, fields, eof),
        }
    }

    /// A request on a new stream. It is refused where identifiers have run out.
    pub open spec fn new_request(
        self,
        authority: Seq<char>,
        method: Seq<char>,
        path: Seq<char>,
        fields: Fields,
        eof: bool,
    ) -> (ConView, Result<StreamRef, OperationError>) {
        let id = self.state.next_stream_id;
        let opened = self.open(id, false);
        let s = self.next_slot();
        if id.0 + 2 >= frame::stream_id::STREAM_ID_LIMIT {
            (self, Err(OperationError::OverflowedStreamId))
        } else {
            let hdrs = self.request_headers(authority, method, path, fields, eof);
            (
                opened.with_state(
                    ConnectionState {
                        next_stream_id: StreamId((id.0 + 2) as u32),
                        ..opened.state
                    },
                ).send_headers(s, hdrs),
                Ok(s),
            )
        }
    }
}

// ===== Keep-alive =====

impl ConView {
    /// The connection at another time: streams that were reset too long ago are
    /// not known any more.
    pub open spec fn at(self, now: u64) -> ConView {
        ConView {
            pending: self.pending.purge(now as int, self.state.config.reset_duration * 1000),
            ..self.with_state(ConnectionState { now, ..self.state })
        }
    }

    pub open spec fn with_flags(self, flags: ConnectionFlags) -> ConView {
        self.with_state(ConnectionState { flags, ..self.state })
    }

    pub open spec fn with_pong(self, recv_pong: bool) -> ConView {
        self.with_flags(ConnectionFlags { recv_pong, ..self.state.flags })
    }

    /// The payload of a ping: its number, big endian.
    pub open spec fn ping_payload(counter: u16) -> Seq<u8> {
        seq![0u8, 0, 0, 0, 0, 0, (counter / 256) as u8, (counter % 256) as u8]
    }

    /// No ping is due, or the counter has room for one more.
    pub open spec fn can_ping(self) -> bool {
        !self.state.closed && self.state.flags.recv_pong ==> self.state.pings_count < u16::MAX
    }

    /// One more ping, unless the last one has not been answered.
    pub open spec fn ping(self) -> (ConView, PingStep) {
        let counter = (self.state.pings_count + 1) as u16;
        if self.state.closed {
            (self, PingStep::Stop)
        } else if !self.state.flags.recv_pong {
            (self, PingStep::Timeout)
        } else {
            let next = self.with_pong(false).send(
                FrameView::Ping(PingView { ack: false, payload: ConView::ping_payload(counter) }),
            );
            (
                next.with_state(ConnectionState { pings_count: counter, ..next.state }),
                PingStep::Sent,
            )
        }
    }
}

// ===== All streams =====

/// Why a frame was not accepted.
#[derive(Debug, Copy, Clone)]
pub enum EitherError {
    Connection(ConnectionError),
    Stream(StreamErrorInner),
}

impl ConView {
    /// The registered streams among the first `n` slots.
    pub open spec fn streams_below(self, n: nat) -> Seq<StreamRef>
        decreases n,
    {
        if n == 0 {
            Seq::empty()
        } else if self.registered(n - 1) {
            self.streams_below((n - 1) as nat).push(StreamRef((n - 1) as usize))
        } else {
            self.streams_below((n - 1) as nat)
        }
    }

    /// The registered streams, in the order of their slots.
    pub open spec fn all_streams(self) -> Seq<StreamRef> {
        self.streams_below(self.slots.len())
    }

    /// Streams that have waited for the window of the connection go on.
    pub open spec fn con_window_grown_all(self, list: Seq<StreamRef>) -> ConView
        decreases list.len(),
    {
        if list.len() == 0 {
            self
        } else {
            self.con_window_grown_all(list.drop_last()).con_window_grown(list.last())
        }
    }

    /// The send windows move with the initial window size of the peer. The result
    /// names the streams whose window is too large now.
    pub open spec fn send_windows_moved(self, list: Seq<StreamRef>, upd: int) -> (
        ConView,
        Seq<StreamErrorInner>,
    )
        decreases list.len(),
    {
        if list.len() == 0 {
            (self, Seq::empty())
        } else {
            let (prev, errs) = self.send_windows_moved(list.drop_last(), upd);
            let s = list.last();
            match prev.send_window_moved(s, upd) {
                (next, Ok(_)) => (next, errs),
                (next, Err(kind)) => (next, errs.push(StreamErrorInner { kind, stream: s })),
            }
        }
    }

    /// The receive windows move with the initial window size of this side, and
    /// what is missing of them is announced. The result names the streams whose
    /// window is too large now.
    pub open spec fn recv_windows_moved(self, list: Seq<StreamRef>, upd: int) -> (
        ConView,
        Seq<StreamErrorInner>,
    )
        decreases list.len(),
    {
        if list.len() == 0 {
            (self, Seq::empty())
        } else {
            let (prev, errs) = self.recv_windows_moved(list.drop_last(), upd);
            let s = list.last();
            match prev.recv_window_moved(s, upd) {
                (next, Ok(None)) => (next, errs),
                (next, Ok(Some(val))) => (
                    next.send(
                        FrameView::WindowUpdate(
                            WindowUpdate { stream_id: next.slot(s).id, size_increment: val },
                        ),
                    ),
                    errs,
                ),
                (next, Err(kind)) => (next, errs.push(StreamErrorInner { kind, stream: s })),
            }
        }
    }

    pub open spec fn remote_reset_all(self, list: Seq<StreamRef>, reason: Reason) -> ConView
        decreases list.len(),
    {
        if list.len() == 0 {
            self
        } else {
            self.remote_reset_all(list.drop_last(), reason).remote_reset(list.last(), reason)
        }
    }

    pub open spec fn failed_all(self, list: Seq<StreamRef>, err: OperationError) -> ConView
        decreases list.len(),
    {
        if list.len() == 0 {
            self
        } else {
            self.failed_all(list.drop_last(), err).failed(list.last(), err)
        }
    }

    /// No stream is registered any more.
    pub open spec fn without_streams(self) -> ConView {
        ConView { streams: Map::empty(), ..self }
    }

    /// All tasks that wait for a new stream are woken up.
    pub open spec fn ready_all(self) -> ConView {
        ConView {
            readiness: Seq::empty(),
            actions: self.actions + self.readiness.map_values(|w: u64| ActionView::Ready(w)),
            ..self
        }
    }

    /// The tasks that wait for a new stream will get none.
    pub open spec fn gone_all(self) -> ConView {
        ConView {
            readiness: Seq::empty(),
            actions: self.actions + self.readiness.map_values(|w: u64| ActionView::Gone(w)),
            ..self
        }
    }

    pub open spec fn with_error(self, err: OperationError) -> ConView {
        self.with_state(ConnectionState { error: Some(err), ..self.state })
    }

    pub open spec fn go_away_frame(self, reason: Reason) -> ConView {
        self.send(FrameView::GoAway(GoAwayView::plain(reason)))
    }
}

// ===== Frames =====

/// What becomes of a frame: a message, or an error of the connection or a stream.
pub type Received = Result<Option<MessageView>, EitherError>;

/// What becomes of a frame of a stream, seen from the connection.
pub open spec fn lifted(s: StreamRef, r: (ConView, Delivered)) -> (ConView, Received) {
    match r {
        (con, Ok(msg)) => (con, Ok(msg)),
        (con, Err(kind)) => (con, Err(EitherError::Stream(StreamErrorInner { kind, stream: s }))),
    }
}

/// Settings of the peer that could not be taken over.
#[verifier::ext_equal]
pub enum SettingsErrorView {
    Connection(ConnectionError),
    Streams(Seq<StreamErrorInner>),
}

impl ConView {
    /// The registered stream with an identifier.
    pub open spec fn query(self, id: StreamId) -> Option<StreamRef> {
        if self.streams.dom().contains(id.0) {
            Some(StreamRef(self.streams[id.0].slot))
        } else {
            None
        }
    }

    /// Frames of streams that are not known are not an error: the stream has been
    /// closed a short while ago, or such frames are to be skipped.
    pub open spec fn tolerated(self, id: StreamId) -> bool {
        self.pending.ids.contains(id.0) || !self.state.flags.unknown_streams
    }

    /// A stream of the peer is refused.
    pub open spec fn refuse(self, id: StreamId) -> ConView {
        let next = self.reset_frame(id, Reason::REFUSED_STREAM);
        next.with_flags(ConnectionFlags { stream_refused: true, ..next.state.flags })
    }

    /// What is wrong with the pseudo-headers of a request.
    pub open spec fn pseudo_error(pseudo: PseudoView) -> Option<ConnectionError> {
        if pseudo.path is None || pseudo.path->0.len() == 0 {
            Some(ConnectionError::MissingPseudo("path"))
        } else if pseudo.method is None {
            Some(ConnectionError::MissingPseudo("method"))
        } else if pseudo.scheme is None || pseudo.scheme->0.len() == 0 {
            Some(ConnectionError::MissingPseudo("scheme"))
        } else if pseudo.status is Some {
            Some(ConnectionError::UnexpectedPseudo("scheme"))
        } else {
            None
        }
    }

    /// The peer has as many streams open as it may have.
    pub open spec fn remote_full(self) -> bool {
        match self.state.config.remote_max_concurrent_streams {
            Some(max) => self.state.active_remote_streams >= max,
            None => false,
        }
    }

    /// HEADERS that open a stream of the peer.
    #[verifier::opaque]
    pub open spec fn new_stream(self, hdrs: HeadersView) -> (ConView, Received) {
        let id = hdrs.stream_id;
        if self.state.flags.disconnect_when_ready {
            (self.refuse(id), Ok(None))
        } else if self.remote_full() {
            if self.state.flags.stream_refused {
                (self, Err(EitherError::Connection(ConnectionError::ConcurrencyOverflow)))
            } else {
                (self.refuse(id), Ok(None))
            }
        } else {
            match ConView::pseudo_error(hdrs.block.pseudo) {
                Some(e) => (self, Err(EitherError::Connection(e))),
                None => {
                    let s = self.next_slot();
                    lifted(s, self.open(id, true).stream_headers(s, hdrs))
                },
            }
        }
    }

    /// A HEADERS frame.
    #[verifier::opaque]
    pub open spec fn recv_headers(self, hdrs: HeadersView) -> (ConView, Received) {
        let id = hdrs.stream_id;
        if self.state.is_server && id.0 % 2 == 0 {
            (
                self,
                Err(
                    EitherError::Connection(
                        ConnectionError::InvalidStreamId("Invalid id in received headers frame"),
                    ),
                ),
            )
        } else {
            match self.query(id) {
                Some(s) => lifted(s, self.stream_headers(s, hdrs)),
                None => if !self.state.is_server && self.tolerated(id) {
                    // if client and no stream, then it was closed
                    (self.reset_frame(id, Reason::STREAM_CLOSED), Ok(None))
                } else {
                    self.new_stream(hdrs)
                },
            }
        }
    }

    /// A DATA frame.
    #[verifier::opaque]
    pub open spec fn recv_data(self, data: DataView) -> (ConView, Received) {
        let id = data.stream_id;
        match self.query(id) {
            Some(s) => lifted(s, self.stream_data(s, data)),
            None => if self.tolerated(id) {
                (self.reset_frame(id, Reason::STREAM_CLOSED), Ok(None))
            } else {
                (
                    self,
                    Err(
                        EitherError::Connection(ConnectionError::UnknownStream("Received data")),
                    ),
                )
            },
        }
    }

    /// The counters of the stream that a DATA frame belongs to can take it.
    pub open spec fn admits(self, data: DataView) -> bool {
        match self.query(data.stream_id) {
            Some(s) => self.fits(s, data.data.len() as int),
            None => true,
        }
    }

    /// The peer has accepted the settings of this side.
    pub open spec fn settings_acked(self) -> (ConView, Result<(), SettingsErrorView>) {
        let next = self.with_flags(
            ConnectionFlags { settings_processed: true, ..self.state.flags },
        );
        let next = match self.state.config.settings.max_frame_size {
            Some(max) => ConView {
                codec: with_recv_frame_size(self.codec, max as usize),
                ..next
            },
            None => next,
        };
        let upd = self.state.config.window_sz - frame::DEFAULT_INITIAL_WINDOW_SIZE;
        let (next, errs) = next.recv_windows_moved(self.all_streams(), upd);
        if errs.len() > 0 {
            (next, Err(SettingsErrorView::Streams(errs)))
        } else {
            (next, Ok(()))
        }
    }

    /// The size of frames that the peer accepts.
    pub open spec fn frame_size_changed(self, max: Option<u32>) -> ConView {
        match max {
            Some(max) => ConView {
                codec: Codec { encoder_max_frame_size: max, ..self.codec },
                state: ConnectionState { remote_frame_size: max, ..self.state },
                ..self
            },
            None => self,
        }
    }

    /// The size of the compression table that the peer accepts.
    pub open spec fn table_size_changed(self, max: Option<u32>) -> ConView {
        match max {
            Some(max) => ConView { codec: with_send_table_size(self.codec, max as usize), ..self },
            None => self,
        }
    }

    /// The number of streams that the peer accepts.
    pub open spec fn max_streams_changed(self, max: Option<u32>) -> ConView {
        match max {
            Some(max) => self.with_state(
                ConnectionState { local_max_concurrent_streams: Some(max), ..self.state },
            ).ready_all().act(ActionView::Capacity),
            None => self,
        }
    }

    /// The limits of the peer, but for its initial window size.
    pub open spec fn limits_changed(self, settings: Settings) -> ConView {
        self.send(
            FrameView::Settings(Settings { ack: true, ..Settings::empty() }),
        ).frame_size_changed(settings.max_frame_size).table_size_changed(
            settings.header_table_size,
        ).max_streams_changed(settings.max_concurrent_streams)
    }

    /// The peer has changed its settings.
    pub open spec fn settings_changed(self, settings: Settings) -> (
        ConView,
        Result<(), SettingsErrorView>,
    ) {
        let next = self.limits_changed(settings);
        match settings.initial_window_size {
            Some(val) => {
                let upd = val - self.state.remote_window_sz;
                let (next, errs) = next.with_state(
                    ConnectionState { remote_window_sz: val, ..next.state },
                ).send_windows_moved(self.all_streams(), upd);
                if errs.len() > 0 {
                    (next, Err(SettingsErrorView::Streams(errs)))
                } else {
                    (next, Ok(()))
                }
            },
            None => (next, Ok(())),
        }
    }

    /// A SETTINGS frame.
    #[verifier::opaque]
    pub open spec fn recv_settings(self, settings: Settings) -> (
        ConView,
        Result<(), SettingsErrorView>,
    ) {
        if settings.ack {
            if self.state.flags.settings_processed {
                (
                    self,
                    Err(SettingsErrorView::Connection(ConnectionError::UnexpectedSettingsAck)),
                )
            } else {
                self.settings_acked()
            }
        } else {
            self.settings_changed(settings)
        }
    }

    /// A WINDOW_UPDATE frame.
    #[verifier::opaque]
    pub open spec fn recv_window_update(self, frm: WindowUpdate) -> (
        ConView,
        Result<(), EitherError>,
    ) {
        let id = frm.stream_id;
        let size = self.state.send_window.window_size + frm.size_increment;
        if id.0 == 0 {
            if frm.size_increment == 0 {
                (self, Err(EitherError::Connection(ConnectionError::ZeroWindowUpdateValue)))
            } else if size > i32::MAX {
                (self, Err(EitherError::Connection(ConnectionError::WindowValueOverflow)))
            } else {
                (
                    self.with_state(
                        ConnectionState {
                            send_window: Window { window_size: size as i32 },
                            ..self.state
                        },
                    ).con_window_grown_all(self.all_streams()),
                    Ok(()),
                )
            }
        } else {
            match self.query(id) {
                Some(s) => match self.stream_window_update(s, frm.size_increment as int) {
                    (next, Ok(_)) => (next, Ok(())),
                    (next, Err(kind)) => (
                        next,
                        Err(EitherError::Stream(StreamErrorInner { kind, stream: s })),
                    ),
                },
                None => if self.pending.ids.contains(id.0) {
                    (self, Ok(()))
                } else if self.state.flags.unknown_streams {
                    (
                        self,
                        Err(
                            EitherError::Connection(
                                ConnectionError::UnknownStream("WINDOW_UPDATE"),
                            ),
                        ),
                    )
                } else {
                    (self.reset_frame(id, Reason::STREAM_CLOSED), Ok(()))
                },
            }
        }
    }

    /// The peer has reset one more stream. Where it resets too many of those that
    /// it opens, it is not trusted any more.
    pub open spec fn count_reset(self) -> (ConView, Result<(), ConnectionError>) {
        let count = self.state.rst_count + 1;
        if self.state.streams_count >= 10 && count >= self.state.streams_count / 2 {
            (self, Err(ConnectionError::StreamResetsLimit))
        } else {
            (
                self.with_state(ConnectionState { rst_count: count as u32, ..self.state }),
                Ok(()),
            )
        }
    }

    /// A RST_STREAM frame.
    #[verifier::opaque]
    pub open spec fn recv_rst_stream(self, frm: Reset) -> (ConView, Result<(), EitherError>) {
        let id = frm.stream_id;
        if id.0 == 0 {
            (
                self,
                Err(EitherError::Connection(ConnectionError::UnknownStream("RST_STREAM-zero"))),
            )
        } else {
            match self.query(id) {
                Some(s) => match self.remote_reset(s, frm.error_code).count_reset() {
                    (next, Err(e)) => (next, Err(EitherError::Connection(e))),
                    (next, Ok(_)) => (
                        next,
                        Err(
                            EitherError::Stream(
                                StreamErrorInner {
                                    kind: StreamError::Reset(frm.error_code),
                                    stream: s,
                                },
                            ),
                        ),
                    ),
                },
                None => if self.pending.ids.contains(id.0) {
                    match (ConView { pending: self.pending.remove(id.0), ..self }).count_reset() {
                        (next, Err(e)) => (next, Err(EitherError::Connection(e))),
                        (next, Ok(_)) => (next, Ok(())),
                    }
                } else if self.state.flags.unknown_streams {
                    match self.count_reset() {
                        (next, Err(e)) => (next, Err(EitherError::Connection(e))),
                        (next, Ok(_)) => (
                            next,
                            Err(
                                EitherError::Connection(
                                    ConnectionError::UnknownStream("RST_STREAM"),
                                ),
                            ),
                        ),
                    }
                } else {
                    (self, Ok(()))
                },
            }
        }
    }

    /// A GOAWAY frame: the streams end with the reason that the peer gives.
    #[verifier::opaque]
    pub open spec fn recv_go_away(self, reason: Reason) -> ConView {
        self.with_error(OperationError::Connection(ConnectionError::GoAway(reason))).gone_all().act(
            ActionView::Capacity,
        ).without_streams().remote_reset_all(self.all_streams(), reason)
    }

    /// The connection has timed out: its streams fail, and it is closed.
    #[verifier::opaque]
    pub open spec fn timed_out(self, err: ConnectionError) -> ConView {
        let err = OperationError::Connection(err);
        self.with_error(err).without_streams().failed_all(
            self.all_streams(),
            err,
        ).go_away_frame(Reason::NO_ERROR).close()
    }

    /// The peer has broken the protocol: the streams fail.
    #[verifier::opaque]
    pub open spec fn proto_error(self, err: ConnectionError) -> ConView {
        let err = OperationError::Connection(err);
        self.with_error(err).gone_all().act(ActionView::Capacity).without_streams().failed_all(
            self.all_streams(),
            err,
        )
    }

    /// The transport is lost: the streams fail.
    #[verifier::opaque]
    pub open spec fn disconnect(self) -> ConView {
        let err = match self.state.error {
            Some(e) => e,
            None => OperationError::Disconnected,
        };
        self.with_error(err).act(ActionView::Capacity).without_streams().failed_all(
            self.all_streams(),
            OperationError::Disconnected,
        )
    }
}

} // verus!
