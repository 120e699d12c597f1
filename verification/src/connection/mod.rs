//! The state of a connection.
//!
//! A connection does no I/O. Each operation changes its state, and leaves in
//! `actions` what its owner has to do: frames to write, tasks to wake up.
use std::collections::HashMap;

use ntex_http::HeaderMap;
use vstd::prelude::*;

pub mod laws;
pub mod ending;
pub mod ledger;
pub mod pending;
pub mod life;
pub mod received;
pub mod recv;
pub mod run;
pub mod sent;
pub mod settings;
pub mod view;
pub mod walk;

use self::pending::Pending;
pub use self::view::{ConnectionFlags, ConnectionState, Entry};
use self::view::{ActionView, ConView};

use crate::codec::Codec;
use crate::config::ServiceConfig;
use crate::error::OperationError;
use crate::frame::{self, Frame, Headers, Ping, PseudoHeaders, StreamId, WindowUpdate};
use crate::http;
use crate::stream::{ContentLength, HalfState, StreamFlags, StreamRef, StreamState};
use crate::window::Window;

verus! {

broadcast use vstd::std_specs::hash::group_hash_axioms;

/// What a connection asks its owner to do.
pub enum Action {
    /// Write the connection preface.
    Preface,
    /// Write a frame.
    Send(Frame),
    /// Close the transport.
    Close,
    /// Wake up the task that waits for send capacity of a stream.
    WakeSend(StreamRef),
    /// Wake up the task that waits for the reset of a stream.
    WakeReset(StreamRef),
    /// Wake up a task that waits for a new stream.
    Ready(u64),
    /// Tell a task that waits for a new stream that there will be none.
    Gone(u64),
    /// Call the capacity callback: streams may be opened now, or never more.
    Capacity,
    /// Start or restart the capacity timer of a stream, in seconds.
    TimerStart(StreamRef, u16),
    /// Stop the capacity timer of a stream.
    TimerStop(StreamRef),
}

impl View for Action {
    type V = ActionView;

    open spec fn view(&self) -> ActionView {
        match *self {
            Action::Preface => ActionView::Preface,
            Action::Send(f) => ActionView::Send(f@),
            Action::Close => ActionView::Close,
            Action::WakeSend(s) => ActionView::WakeSend(s),
            Action::WakeReset(s) => ActionView::WakeReset(s),
            Action::Ready(t) => ActionView::Ready(t),
            Action::Gone(t) => ActionView::Gone(t),
            Action::Capacity => ActionView::Capacity,
            Action::TimerStart(s, n) => ActionView::TimerStart(s, n),
            Action::TimerStop(s) => ActionView::TimerStop(s),
        }
    }
}

/// A list of actions by what they say.
pub open spec fn actions_view(actions: Seq<Action>) -> Seq<ActionView> {
    actions.map_values(|a: Action| a@)
}

/// An HTTP/2 connection.
pub struct Connection {
    pub codec: Codec,
    pub state: ConnectionState,
    pub slots: Vec<StreamState>,
    pub free: Vec<usize>,
    pub streams: HashMap<u32, Entry>,
    pub readiness: Vec<u64>,
    /// Locally reset streams
    pub pending: Pending,
    pub actions: Vec<Action>,
}

impl View for Connection {
    type V = ConView;

    open spec fn view(&self) -> ConView {
        ConView {
            codec: self.codec,
            state: self.state,
            slots: self.slots@,
            free: self.free@,
            streams: self.streams@,
            readiness: self.readiness@,
            pending: self.pending@,
            actions: actions_view(self.actions@),
        }
    }
}

// ===== Registered streams =====

/// One stream less.
pub proof fn count_remove(streams: Map<u32, Entry>, id: u32, remote: bool)
    requires
        streams.dom().finite(),
        streams.dom().contains(id),
    ensures
        view::count(streams.remove(id), remote) == view::count(streams, remote) - (
        if streams[id].remote == remote {
            1int
        } else {
            0
        }),
        view::count(streams, remote) >= (if streams[id].remote == remote {
            1int
        } else {
            0
        }),
{
    let before = streams.dom().filter(|i: u32| streams[i].remote == remote);
    let rest = streams.remove(id);
    let after = rest.dom().filter(|i: u32| rest[i].remote == remote);
    if streams[id].remote == remote {
        assert(before.contains(id));
        assert(after =~= before.remove(id));
    } else {
        assert(after =~= before);
    }
}

impl ConView {
    /// The table of streams stays well-formed when streams are unregistered, when their
    /// states change without what identifies them, and when the states of streams are
    /// freed that are not registered.
    pub proof fn table_kept(self, next: ConView)
        requires
            self.table_wf(),
            next.slots.len() == self.slots.len(),
            forall|i: int|
                0 <= i < self.slots.len() ==> (#[trigger] next.slots[i]).id == self.slots[i].id
                    && next.slots[i].flags.remote == self.slots[i].flags.remote && (
                next.slots[i].send_window.window_size >= self.slots[i].send_window.window_size
                    || next.slots[i].send_window.window_size >= 0),
            next.state.remote_window_sz == self.state.remote_window_sz,
            self.state.remote_window_sz <= i32::MAX,
            next.streams.dom().finite(),
            next.streams.submap_of(self.streams),
            next.free.no_duplicates(),
            forall|k: int|
                0 <= k < next.free.len() ==> self.free.contains(#[trigger] next.free[k]) || (
                next.free[k] < next.slots.len() && !self.registered(next.free[k] as int)),
        ensures
            next.table_wf(),
    {
        assert forall|k: int| 0 <= k < next.free.len() implies #[trigger] next.free[k]
            < next.slots.len() && !next.registered(next.free[k] as int) by {
            if self.free.contains(next.free[k]) {
                let j = choose|j: int| 0 <= j < self.free.len() && self.free[j] == next.free[k];
                assert(!self.registered(self.free[j] as int));
            }
            let i = next.free[k] as int;
            assert(next.slots[i].id == self.slots[i].id);
        }
        assert forall|id: u32| #[trigger] next.streams.dom().contains(id) implies next.entry_wf(
            id,
        ) by {
            assert(self.streams.dom().contains(id));
            assert(self.entry_wf(id));
            let i = self.streams[id].slot as int;
            assert(next.slots[i].id == self.slots[i].id);
        }
    }
}

/// A stream that is not registered any more is not active.
proof fn tally_remove(
    streams: Map<u32, Entry>,
    id: u32,
    next_id: StreamId,
    active: u32,
    reserved: u32,
)
    requires
        streams.dom().finite(),
        streams.dom().contains(id),
        view::tally(streams, next_id, active, reserved),
    ensures
        streams[id].remote ==> view::tally(streams.remove(id), next_id, active, reserved),
        !streams[id].remote && active > 0 ==> view::tally(
            streams.remove(id),
            next_id,
            (active - 1) as u32,
            reserved,
        ),
{
    reveal(view::tally);
    count_remove(streams, id, false);
    let rest = streams.remove(id);
    assert forall|i: u32| #[trigger] rest.dom().contains(i) && !rest[i].remote implies i
        < next_id.0 by {
        assert(streams.dom().contains(i));
    }
}

/// A new stream is active, if it is a local one.
proof fn tally_insert(
    streams: Map<u32, Entry>,
    id: u32,
    entry: Entry,
    next_id: StreamId,
    active: u32,
    reserved: u32,
)
    requires
        streams.dom().finite(),
        view::tally(streams, next_id, active, reserved),
        entry.remote ==> !streams.dom().contains(id),
        !entry.remote ==> id < next_id.0 && !(streams.dom().contains(id) && !streams[id].remote),
    ensures
        entry.remote ==> view::tally(streams.insert(id, entry), next_id, active, reserved),
        !entry.remote && active < u32::MAX ==> view::tally(
            streams.insert(id, entry),
            next_id,
            (active + 1) as u32,
            reserved,
        ),
{
    reveal(view::tally);
    count_insert(streams, id, entry, false);
    let after = streams.insert(id, entry);
    assert forall|i: u32| #[trigger] after.dom().contains(i) && !after[i].remote implies i
        < next_id.0 by {
        if i != id {
            assert(streams.dom().contains(i));
        }
    }
}

/// The identifier that comes next is not that of a local stream, and the counters
/// stay as they are when it is taken.
proof fn tally_next(streams: Map<u32, Entry>, id: StreamId, active: u32, reserved: u32)
    requires
        view::tally(streams, id, active, reserved),
        id.0 + 2 < frame::stream_id::STREAM_ID_LIMIT,
    ensures
        view::tally(streams, StreamId((id.0 + 2) as u32), active, reserved),
        !(streams.dom().contains(id.0) && !streams[id.0].remote),
{
    reveal(view::tally);
}

/// Streams that are reserved are active.
proof fn tally_reserved(
    streams: Map<u32, Entry>,
    next_id: StreamId,
    active: u32,
    reserved: u32,
    change: int,
)
    requires
        view::tally(streams, next_id, active, reserved),
        0 <= active + change <= u32::MAX,
        0 <= reserved + change <= u32::MAX,
    ensures
        view::tally(streams, next_id, (active + change) as u32, (reserved + change) as u32),
{
    reveal(view::tally);
}

impl Connection {
    pub(crate) fn act(&mut self, a: Action)
        ensures
            final(self)@ == old(self)@.act(a@),
    {
        self.actions.push(a);
        assert(actions_view(self.actions@) =~= actions_view(old(self).actions@).push(a@));
    }

    pub(crate) fn encode(&mut self, frame: Frame)
        ensures
            final(self)@ == old(self)@.send(frame@),
    {
        self.act(Action::Send(frame));
    }

    pub(crate) fn slot(&self, s: StreamRef) -> (r: StreamState)
        requires
            self@.has(s),
        ensures
            r == self@.slot(s),
    {
        self.slots[s.0]
    }

    /// Replaces the state of a stream, but for what identifies it.
    pub(crate) fn set_slot(&mut self, s: StreamRef, st: StreamState)
        requires
            old(self)@.wf(),
            old(self)@.has(s),
            st.wf(old(self)@.base()),
            st.id == old(self)@.slot(s).id,
            st.flags.remote == old(self)@.slot(s).flags.remote,
            st.send_window.window_size >= old(self)@.slot(s).send_window.window_size
                || st.send_window.window_size >= 0,
        ensures
            final(self)@ == old(self)@.with_slot(s, st),
            final(self)@.wf(),
    {
        let ghost before = self@;
        self.slots.set(s.0, st);
        assert(self@ =~= before.with_slot(s, st));
        proof {
            before.table_kept(self@);
        }
    }

    /// Closes the transport.
    pub fn close(&mut self)
        requires
            old(self)@.wf(),
        ensures
            final(self)@ == old(self)@.close(),
            final(self)@.wf(),
    {
        self.state.closed = true;
        self.act(Action::Close);
        self.act(Action::Capacity);
    }

    /// Wakes up the first task that waits for a new stream.
    fn notify(&mut self)
        requires
            old(self)@.wf(),
        ensures
            final(self)@ == old(self)@.notify(),
            final(self)@.wf(),
    {
        if self.readiness.len() > 0 {
            let waiter: u64 = self.readiness.remove(0);
            assert(self.readiness@ =~= old(self)@.readiness.skip(1));
            self.act(Action::Ready(waiter));
        }
    }

    /// Counts one local stream less.
    fn local_released(&mut self)
        requires
            old(self)@.state_wf(),
            old(self)@.table_wf(),
            old(self)@.slots_wf(),
            view::count(old(self)@.streams, true) <= old(self)@.state.active_remote_streams,
            view::count(old(self)@.streams, false) + old(self)@.state.reserved_streams
                < old(self)@.state.active_local_streams,
            old(self)@.state.error is None ==> view::tally(
                old(self)@.streams,
                old(self)@.state.next_stream_id,
                (old(self)@.state.active_local_streams - 1) as u32,
                old(self)@.state.reserved_streams,
            ),
        ensures
            final(self)@ == old(self)@.local_released(),
            final(self)@.wf(),
    {
        let local: u32 = self.state.active_local_streams;
        self.state.active_local_streams = local - 1;
        if let Some(max) = self.state.local_max_concurrent_streams {
            if local == max {
                self.notify();
            }
        }
        self.act(Action::Capacity);
    }

    fn unregister(&mut self, id: StreamId)
        requires
            old(self)@.wf(),
        ensures
            final(self)@ == old(self)@.unregister(id.0),
            final(self)@.wf(),
    {
        let ghost before = self@;
        match self.streams.remove(&id.0) {
            Some(entry) => {
                proof {
                    count_remove(before.streams, id.0, true);
                    count_remove(before.streams, id.0, false);
                    if before.state.error is None {
                        tally_remove(
                            before.streams,
                            id.0,
                            before.state.next_stream_id,
                            before.state.active_local_streams,
                            before.state.reserved_streams,
                        );
                    }
                    before.table_kept(self@);
                }
                if entry.remote {
                    self.state.active_remote_streams = self.state.active_remote_streams - 1;
                } else {
                    self.local_released();
                }
            },
            None => {
                assert(self.streams@ =~= before.streams);
            },
        }
    }

    /// No stream is open and none is reserved.
    fn is_idle(&self) -> (r: bool)
        ensures
            r == self@.idle(),
    {
        self.streams.len() == 0 && self.state.reserved_streams == 0
    }

    /// Forgets a stream. Where it was the last one of a connection that is to be
    /// closed, this closes the connection.
    pub(crate) fn drop_stream(&mut self, id: StreamId)
        requires
            old(self)@.wf(),
        ensures
            final(self)@ == old(self)@.drop_stream(id.0),
            final(self)@.wf(),
            old(self)@.keeps(final(self)@),
    {
        proof {
            reveal(ConView::drop_stream);
        }
        self.unregister(id);

        // Close connection
        if self.is_idle() && self.state.flags.disconnect_when_ready {
            self.close();
            return;
        }
        // Add ids to pending queue
        if self.state.flags.unknown_streams {
            self.pending.add(
                id.0,
                self.state.now,
                self.state.config.reset_duration as u64 * 1000,
                self.state.config.reset_max,
            );
        }
    }
}

// ===== Connection window =====

impl Connection {
    /// added new capacity, update receive window size
    pub(crate) fn add_recv_capacity(&mut self, size: u32)
        requires
            old(self)@.wf(),
            size <= i32::MAX,
            old(self)@.state.config.connection_window_sz - (
            old(self)@.state.recv_window.window_size - size) <= i32::MAX,
        ensures
            final(self)@ == old(self)@.con_received(size as int),
            final(self)@.wf(),
    {
        let mut recv_window = self.state.recv_window.dec(size);
        let config = self.state.config;

        // update connection window size
        if let Some(val) = recv_window.update(
            0,
            config.connection_window_sz as i32,
            config.connection_window_sz_threshold,
        ) {
            self.encode(Frame::WindowUpdate(WindowUpdate::new(StreamId::zero(), val)));
        }
        self.state.recv_window = recv_window;
    }

    /// Consume connection level send capacity (window)
    pub(crate) fn consume_send_window(&mut self, cap: u32)
        requires
            old(self)@.wf(),
            cap <= old(self)@.state.send_window.size(),
        ensures
            final(self)@ == old(self)@.with_state(
                (ConnectionState {
                    send_window: Window {
                        window_size: (old(self)@.state.send_window.window_size - cap) as i32,
                    },
                    ..old(self)@.state
                }),
            ),
            final(self)@.wf(),
    {
        self.state.send_window = self.state.send_window.dec(cap);
    }
}

// ===== Opening =====

proof fn count_insert(streams: Map<u32, Entry>, id: u32, entry: Entry, remote: bool)
    requires
        streams.dom().finite(),
    ensures
        view::count(streams.insert(id, entry), remote) <= view::count(streams, remote) + (
        if entry.remote == remote {
            1int
        } else {
            0
        }),
        !(streams.dom().contains(id) && streams[id].remote == remote) ==> view::count(
            streams.insert(id, entry),
            remote,
        ) == view::count(streams, remote) + (if entry.remote == remote {
            1int
        } else {
            0
        }),
{
    let after = streams.insert(id, entry);
    let old_set = streams.dom().filter(|i: u32| streams[i].remote == remote);
    let new_set = after.dom().filter(|i: u32| after[i].remote == remote);
    if entry.remote == remote {
        assert(new_set =~= old_set.insert(id));
    } else {
        assert(new_set =~= old_set.remove(id));
    }
}

impl Connection {
    /// Starts a connection over a new transport: a client opens with the preface,
    /// and both sides with their settings and the window of the connection.
    pub fn new(
        codec: Codec,
        config: ServiceConfig,
        is_server: bool,
        secure: bool,
        skip_streams: bool,
    ) -> (r: Connection)
        requires
            codec.wf(),
            config.wf(),
            frame::DEFAULT_MAX_FRAME_SIZE <= codec.encoder_max_frame_size
                <= frame::MAX_MAX_FRAME_SIZE,
        ensures
            r@ == ConView::start(codec, config, is_server, secure, skip_streams),
            r@.wf(),
    {
        let mut codec = codec;
        let frame_size: u32 = codec.send_frame_size();
        if let Some(max) = config.settings.max_header_list_size() {
            codec.set_max_recv_header_list_size(max as usize);
        }
        codec.set_max_header_continuations(config.max_header_continuations);

        let window = Window::new(frame::DEFAULT_INITIAL_WINDOW_SIZE as i32);
        let mut con = Connection {
            codec,
            state: ConnectionState {
                send_window: window,
                recv_window: window,
                next_stream_id: StreamId::new(1),
                active_remote_streams: 0,
                active_local_streams: 0,
                reserved_streams: 0,
                rst_count: 0,
                streams_count: 0,
                pings_count: 0,
                is_server,
                config,
                local_max_concurrent_streams: None,
                remote_window_sz: frame::DEFAULT_INITIAL_WINDOW_SIZE,
                remote_frame_size: frame_size,
                error: None,
                flags: ConnectionFlags {
                    settings_processed: false,
                    unknown_streams: !skip_streams,
                    disconnect_when_ready: false,
                    secure,
                    stream_refused: false,
                    recv_pong: false,
                },
                closed: false,
                now: 0,
            },
            slots: Vec::new(),
            free: Vec::new(),
            streams: HashMap::new(),
            readiness: Vec::new(),
            pending: Pending::new(),
            actions: Vec::new(),
        };
        assert(actions_view(con.actions@) =~= Seq::<ActionView>::empty());
        assert(con.streams@ =~= Map::<u32, Entry>::empty());

        // send preface
        if !is_server {
            con.act(Action::Preface);
        }
        // send setting to the peer
        con.encode(Frame::Settings(config.settings));

        // update connection window size
        let mut recv_window = window;
        if let Some(val) = recv_window.update(
            0,
            config.connection_window_sz as i32,
            config.connection_window_sz_threshold,
        ) {
            con.encode(Frame::WindowUpdate(WindowUpdate::new(StreamId::zero(), val)));
        }
        con.state.recv_window = recv_window;
        proof {
            reveal(view::tally);
            let none = Map::<u32, Entry>::empty();
            assert(none.dom().filter(|i: u32| none[i].remote == true) =~= Set::<u32>::empty());
            assert(none.dom().filter(|i: u32| none[i].remote == false) =~= Set::<u32>::empty());
            assert(con@ =~= ConView::start(codec, config, is_server, secure, skip_streams));
        }
        con
    }

    /// Opens a stream and registers it.
    pub(crate) fn open(&mut self, id: StreamId, remote: bool) -> (r: StreamRef)
        requires
            old(self)@.wf(),
            id.wf(),
            id.0 != 0,
            remote ==> old(self)@.state.active_remote_streams < u32::MAX
                && old(self)@.state.streams_count < u32::MAX,
            !remote ==> old(self)@.state.active_local_streams < u32::MAX,
            old(self)@.is_free(id, remote),
        ensures
            r == old(self)@.next_slot(),
            final(self)@ == old(self)@.open(id, remote),
            final(self)@.wf(),
            final(self)@.has(r),
    {
        let ghost before = self@;
        let len: usize = self.slots.len();

        // if peer has accepted settings, we can use local config window size
        // otherwise use default window size
        let recv_window = if self.state.flags.settings_processed {
            Window::new(self.state.config.window_sz as i32)
        } else {
            Window::new(frame::DEFAULT_INITIAL_WINDOW_SIZE as i32)
        };
        let send_window = Window::new(self.state.remote_window_sz as i32);
        let st = StreamState {
            id,
            flags: StreamFlags {
                remote,
                failed: false,
                disconnect_on_drop: false,
                wait_for_capacity: false,
                reset_on_drop: true,
            },
            content_length: ContentLength::Omitted,
            recv: HalfState::Idle,
            recv_window,
            recv_size: 0,
            send: HalfState::Idle,
            send_window,
            error: None,
        };
        let slot: usize = match self.free.pop() {
            Some(slot) => {
                self.slots.set(slot, st);
                slot
            },
            None => {
                self.slots.push(st);
                len
            },
        };
        self.streams.insert(id.0, Entry { slot, remote });
        if remote {
            self.state.streams_count = self.state.streams_count + 1;
            self.state.active_remote_streams = self.state.active_remote_streams + 1;
        } else {
            self.state.active_local_streams = self.state.active_local_streams + 1;
        }
        proof {
            assert(self@ =~= before.open(id, remote));
            before.open_wf(id, remote);
        }
        StreamRef(slot)
    }
}

/// The keep-alive task after one more period.
#[derive(Debug, Copy, Clone, PartialEq, Eq, Structural)]
pub enum PingStep {
    /// The connection is closed, the task ends.
    Stop,
    /// The peer has not answered, the connection has timed out.
    Timeout,
    /// A ping is on its way.
    Sent,
}

impl Connection {
    /// Sets the current time, in milliseconds. Streams that were reset too long ago
    /// are not known any more.
    pub fn set_now(&mut self, now: u64)
        requires
            old(self)@.wf(),
        ensures
            final(self)@ == old(self)@.at(now),
            final(self)@.wf(),
    {
        self.state.now = now;
        self.pending.purge(now, self.state.config.reset_duration as u64 * 1000);
    }

    /// What is to be done, first to last. Each action is handed out once.
    pub fn take_actions(&mut self) -> (r: Vec<Action>)
        requires
            old(self)@.wf(),
        ensures
            actions_view(r@) == old(self)@.actions,
            final(self)@ == (ConView { actions: Seq::empty(), ..old(self)@ }),
            final(self)@.wf(),
    {
        let mut actions = Vec::new();
        std::mem::swap(&mut actions, &mut self.actions);
        assert(actions_view(self.actions@) =~= Seq::<ActionView>::empty());
        actions
    }

    pub fn is_closed(&self) -> (r: bool)
        ensures
            r == self@.state.closed,
    {
        self.state.closed
    }

    /// The transport has been closed.
    pub fn set_closed(&mut self)
        requires
            old(self)@.wf(),
        ensures
            final(self)@ == old(self)@.with_state(
                (ConnectionState { closed: true, ..old(self)@.state }),
            ),
            final(self)@.wf(),
    {
        self.state.closed = true;
    }

    /// Whether the connection closes once its streams are done.
    pub fn is_disconnecting(&self) -> (r: bool)
        ensures
            r == (!self@.state.closed && self@.state.flags.disconnect_when_ready),
    {
        if !self.is_closed() {
            self.state.flags.disconnect_when_ready
        } else {
            false
        }
    }

    pub fn set_secure(&mut self, secure: bool)
        requires
            old(self)@.wf(),
        ensures
            final(self)@ == old(self)@.with_state(
                (ConnectionState {
                    flags: ConnectionFlags { secure, ..old(self)@.state.flags },
                    ..old(self)@.state
                }),
            ),
            final(self)@.wf(),
    {
        self.state.flags.secure = secure;
    }

    pub fn check_error(&self) -> (r: Result<(), OperationError>)
        ensures
            r == match self@.state.error {
                Some(e) => Err::<(), OperationError>(e),
                None => Ok(()),
            },
    {
        match self.state.error {
            Some(err) => Err(err),
            None => Ok(()),
        }
    }

    /// Whether requests are accepted.
    pub fn check_error_with_disconnect(&self) -> (r: Result<(), OperationError>)
        ensures
            r == match self@.request_error() {
                Some(e) => Err::<(), OperationError>(e),
                None => Ok(()),
            },
    {
        match self.state.error {
            Some(err) => Err(err),
            None => if self.state.flags.disconnect_when_ready {
                Err(OperationError::Disconnecting)
            } else {
                Ok(())
            },
        }
    }

    /// How many streams the peer accepts at a time, once it has said so.
    pub fn max_streams(&self) -> (r: Option<u32>)
        ensures
            r == self@.state.local_max_concurrent_streams,
    {
        self.state.local_max_concurrent_streams
    }

    /// How many streams have been opened from this side, or are reserved for it.
    pub fn active_streams(&self) -> (r: u32)
        ensures
            r == self@.state.active_local_streams,
            self@.wf() && self@.state.error is None ==> r == view::count(self@.streams, false)
                + self@.state.reserved_streams,
    {
        proof {
            reveal(view::tally);
        }
        self.state.active_local_streams
    }

    /// How many streams are reserved for later requests.
    pub fn reserved_streams(&self) -> (r: u32)
        ensures
            r == self@.state.reserved_streams,
    {
        self.state.reserved_streams
    }

    pub fn can_create_new_stream(&self) -> (r: bool)
        ensures
            r == self@.can_create(),
    {
        if let Some(max) = self.state.local_max_concurrent_streams {
            self.state.active_local_streams < max
        } else {
            true
        }
    }

    /// Checks that a request can be sent.
    ///
    /// `false` says that the caller has to wait until its `waiter` is ready, and
    /// then to check again.
    pub fn poll_ready(&mut self, waiter: u64) -> (r: Result<bool, OperationError>)
        requires
            old(self)@.wf(),
        ensures
            match old(self)@.request_error() {
                Some(e) => r == Err::<bool, OperationError>(e) && final(self)@ == old(self)@,
                None => if old(self)@.can_create() {
                    r == Ok::<bool, OperationError>(true) && final(self)@ == old(self)@
                } else {
                    r == Ok::<bool, OperationError>(false) && final(self)@ == (ConView {
                        readiness: old(self)@.readiness.push(waiter),
                        ..old(self)@
                    })
                },
            },
            final(self)@.wf(),
    {
        match self.check_error_with_disconnect() {
            Err(err) => Err(err),
            Ok(_) => if self.can_create_new_stream() {
                Ok(true)
            } else {
                self.readiness.push(waiter);
                Ok(false)
            },
        }
    }

    /// A task does not wait for a new stream any more.
    pub fn cancel_ready(&mut self, waiter: u64)
        requires
            old(self)@.wf(),
        ensures
            final(self)@ == (ConView {
                readiness: view::waiters_without(old(self)@.readiness, waiter),
                ..old(self)@
            }),
            final(self)@.wf(),
    {
        let mut rest: Vec<u64> = Vec::new();
        let mut i: usize = 0;
        assert(self.readiness@.take(0) =~= Seq::<u64>::empty());
        while i < self.readiness.len()
            invariant
                i <= self.readiness@.len(),
                rest@ == view::waiters_without(self.readiness@.take(i as int), waiter),
            decreases self.readiness@.len() - i,
        {
            assert(self.readiness@.take(i + 1).drop_last() =~= self.readiness@.take(i as int));
            if self.readiness[i] != waiter {
                rest.push(self.readiness[i]);
            }
            i = i + 1;
        }
        assert(self.readiness@.take(i as int) =~= self.readiness@);
        self.readiness = rest;
    }

    /// Closes the connection as soon as no stream is open or reserved.
    pub fn disconnect_when_ready(&mut self)
        requires
            old(self)@.wf(),
        ensures
            final(self)@ == old(self)@.disconnect_when_ready(),
            final(self)@.wf(),
    {
        if self.is_idle() {
            self.close();
        } else {
            self.state.flags.disconnect_when_ready = true;
        }
    }

    /// Sends a request on a new stream, unless the connection has failed or is about
    /// to be closed. A caller waits with `poll_ready` until there is a free stream.
    pub fn send_request(
        &mut self,
        authority: String,
        method: String,
        path: String,
        headers: HeaderMap,
        eof: bool,
    ) -> (r: Result<StreamRef, OperationError>)
        requires
            old(self)@.wf(),
            old(self)@.request_error() is None ==> old(self)@.can_create()
                && old(self)@.state.active_local_streams < u32::MAX,
        ensures
            (final(self)@, r) == old(self)@.request(
                authority@,
                method@,
                path@,
                http::header_fields(headers),
                eof,
            ),
            final(self)@.wf(),
            r matches Ok(s) ==> final(self)@.has(s),
    {
        if let Err(err) = self.check_error_with_disconnect() {
            return Err(err);
        }
        self.open_request(authority, method, path, headers, eof)
    }

    fn open_request(
        &mut self,
        authority: String,
        method: String,
        path: String,
        headers: HeaderMap,
        eof: bool,
    ) -> (r: Result<StreamRef, OperationError>)
        requires
            old(self)@.wf(),
            old(self)@.state.active_local_streams < u32::MAX,
        ensures
            (final(self)@, r) == old(self)@.new_request(
                authority@,
                method@,
                path@,
                http::header_fields(headers),
                eof,
            ),
            final(self)@.wf(),
            r matches Ok(s) ==> final(self)@.has(s),
    {
        let id = self.state.next_stream_id;
        match id.next_id() {
            Some(next) => {
                proof {
                    if self.state.error is None {
                        tally_next(
                            self.streams@,
                            id,
                            self.state.active_local_streams,
                            self.state.reserved_streams,
                        );
                    }
                }
                self.state.next_stream_id = next;
            },
            None => {
                return Err(OperationError::OverflowedStreamId);
            },
        }
        let stream = self.open(id, false);
        let scheme = if self.state.flags.secure {
            "https".to_owned()
        } else {
            "http".to_owned()
        };
        let pseudo = PseudoHeaders {
            scheme: Some(scheme),
            method: Some(method),
            authority: Some(authority),
            path: Some(path),
            protocol: None,
            status: None,
        };
        let hdrs = Headers::new(id, pseudo, headers, eof);
        assert(4u8 | 4u8 == 4u8 && 5u8 | 4u8 == 5u8) by (bit_vector);
        stream.send_headers(self, hdrs);
        Ok(stream)
    }

    /// Reserves a stream for a later request, unless requests are refused or have
    /// to wait.
    pub fn reserve_stream(&mut self) -> (r: bool)
        requires
            old(self)@.wf(),
            old(self)@.state.active_local_streams < u32::MAX,
        ensures
            match old(self)@.reserve() {
                Some(next) => r && final(self)@ == next,
                None => !r && final(self)@ == old(self)@,
            },
            final(self)@.wf(),
    {
        if self.check_error_with_disconnect().is_ok() && self.can_create_new_stream() {
            proof {
                tally_reserved(
                    self.streams@,
                    self.state.next_stream_id,
                    self.state.active_local_streams,
                    self.state.reserved_streams,
                    1,
                );
            }
            self.state.active_local_streams = self.state.active_local_streams + 1;
            self.state.reserved_streams = self.state.reserved_streams + 1;
            true
        } else {
            false
        }
    }

    /// Gives a reserved stream back. A connection that only waits for it closes.
    pub fn release_reserved_stream(&mut self)
        requires
            old(self)@.wf(),
            old(self)@.state.reserved_streams > 0,
        ensures
            final(self)@ == old(self)@.release_reserved(),
            final(self)@.wf(),
    {
        proof {
            if self.state.error is None {
                tally_reserved(
                    self.streams@,
                    self.state.next_stream_id,
                    self.state.active_local_streams,
                    self.state.reserved_streams,
                    -1,
                );
            }
        }
        self.state.reserved_streams = self.state.reserved_streams - 1;
        self.local_released();
        if self.is_idle() && self.state.flags.disconnect_when_ready {
            self.close();
        }
    }

    /// Sends a request on a stream that was reserved. It can be opened while the
    /// connection waits to be closed. After an error it is still reserved.
    pub fn send_reserved_request(
        &mut self,
        authority: String,
        method: String,
        path: String,
        headers: HeaderMap,
        eof: bool,
    ) -> (r: Result<StreamRef, OperationError>)
        requires
            old(self)@.wf(),
            old(self)@.state.reserved_streams > 0,
        ensures
            (final(self)@, r) == old(self)@.reserved_request(
                authority@,
                method@,
                path@,
                http::header_fields(headers),
                eof,
            ),
            final(self)@.wf(),
            r matches Ok(s) ==> final(self)@.has(s),
    {
        if let Err(err) = self.check_error() {
            return Err(err);
        }
        if self.state.next_stream_id.next_id().is_none() {
            return Err(OperationError::OverflowedStreamId);
        }
        proof {
            tally_reserved(
                self.streams@,
                self.state.next_stream_id,
                self.state.active_local_streams,
                self.state.reserved_streams,
                -1,
            );
        }
        self.state.active_local_streams = self.state.active_local_streams - 1;
        self.state.reserved_streams = self.state.reserved_streams - 1;
        self.open_request(authority, method, path, headers, eof)
    }

    /// The stream that frames with an identifier belong to.
    pub fn query(&self, id: StreamId) -> (r: Option<StreamRef>)
        requires
            self@.wf(),
        ensures
            r == if self@.streams.dom().contains(id.0) {
                Some(StreamRef(self@.streams[id.0].slot))
            } else {
                None::<StreamRef>
            },
            r matches Some(s) ==> self@.has(s) && self@.slot(s).id == id,
    {
        match self.streams.get(&id.0) {
            Some(entry) => {
                assert(self@.entry_wf(id.0));
                Some(StreamRef(entry.slot))
            },
            None => None,
        }
    }

    /// Whether frames are dispatched to a stream.
    pub fn is_registered(&self, stream: StreamRef) -> (r: bool)
        requires
            self@.wf(),
            self@.has(stream),
        ensures
            r == self@.registered(stream.0 as int),
    {
        let id = self.slot(stream).id;
        match self.streams.get(&id.0) {
            Some(entry) => entry.slot == stream.0,
            None => false,
        }
    }

    /// Whether a stream has a state here.
    pub fn is_known(&self, stream: StreamRef) -> (r: bool)
        ensures
            r == self@.has(stream),
    {
        stream.0 < self.slots.len()
    }

    /// Whether the state of a stream has been freed.
    pub fn is_released(&self, stream: StreamRef) -> (r: bool)
        ensures
            r == self@.free.contains(stream.0),
    {
        let mut i: usize = 0;
        while i < self.free.len()
            invariant
                i <= self.free@.len(),
                forall|k: int| 0 <= k < i ==> self.free@[k] != stream.0,
            decreases self.free@.len() - i,
        {
            if self.free[i] == stream.0 {
                assert(self.free@[i as int] == stream.0);
                return true;
            }
            i = i + 1;
        }
        false
    }

    /// Frees the state of a stream that nothing refers to any more.
    pub fn release(&mut self, stream: StreamRef)
        requires
            old(self)@.wf(),
            old(self)@.has(stream),
            !old(self)@.registered(stream.0 as int),
            !old(self)@.free.contains(stream.0),
        ensures
            final(self)@ == (ConView { free: old(self)@.free.push(stream.0), ..old(self)@ }),
            final(self)@.wf(),
    {
        let ghost before = self@;
        self.free.push(stream.0);
        proof {
            before.table_kept(self@);
        }
    }

    /// How long the keep-alive task sleeps between pings, in milliseconds, where
    /// pings are to be sent.
    pub fn keepalive(&self) -> (r: Option<u32>)
        ensures
            r == if self@.state.config.ping_timeout != 0 {
                Some((self@.state.config.ping_timeout * 1000 + 100) as u32)
            } else {
                None::<u32>
            },
    {
        let timeout: u16 = self.state.config.ping_timeout;
        if timeout != 0 {
            Some(timeout as u32 * 1000 + 100)
        } else {
            None
        }
    }

    /// Starts the keep-alive task.
    pub fn ping_start(&mut self)
        requires
            old(self)@.wf(),
        ensures
            final(self)@ == old(self)@.with_pong(true),
            final(self)@.wf(),
    {
        self.state.flags.recv_pong = true;
    }

    /// Whether no ping is due, or the counter has room for one more.
    pub fn can_ping(&self) -> (r: bool)
        ensures
            r == self@.can_ping(),
    {
        self.state.closed || !self.state.flags.recv_pong || self.state.pings_count < u16::MAX
    }

    /// Sends one more ping, unless the last one has not been answered.
    pub fn ping(&mut self) -> (r: PingStep)
        requires
            old(self)@.wf(),
            old(self)@.can_ping(),
        ensures
            (final(self)@, r) == old(self)@.ping(),
            final(self)@.wf(),
    {
        if self.is_closed() {
            return PingStep::Stop;
        }
        if !self.state.flags.recv_pong {
            return PingStep::Timeout;
        }
        let counter: u16 = self.state.pings_count + 1;
        self.state.flags.recv_pong = false;
        let payload: [u8; 8] = [0, 0, 0, 0, 0, 0, (counter / 256) as u8, (counter % 256) as u8];
        assert(payload@ =~= ConView::ping_payload(counter));
        self.encode(Frame::Ping(Ping::new(payload)));
        self.state.pings_count = counter;
        PingStep::Sent
    }

    pub fn pings_count(&self) -> (r: u16)
        ensures
            r == self@.state.pings_count,
    {
        self.state.pings_count
    }
}

impl ConView {
    /// A stream can be opened without another one being lost.
    pub open spec fn is_free(self, id: StreamId, remote: bool) -> bool {
        if remote {
            !self.streams.dom().contains(id.0)
        } else {
            self.state.error is None ==> id.0 < self.state.next_stream_id.0 && !(
            self.streams.dom().contains(id.0) && !self.streams[id.0].remote)
        }
    }

    /// A connection stays well-formed when a stream is opened.
    proof fn open_wf(self, id: StreamId, remote: bool)
        requires
            self.wf(),
            id.wf(),
            id.0 != 0,
            remote ==> self.state.active_remote_streams < u32::MAX && self.state.streams_count
                < u32::MAX,
            !remote ==> self.state.active_local_streams < u32::MAX,
            self.is_free(id, remote),
            self.slots.len() <= usize::MAX,
        ensures
            self.open(id, remote).wf(),
            self.open(id, remote).has(self.next_slot()),
    {
        let next = self.open(id, remote);
        let s = self.next_slot().0;
        let entry = Entry { slot: s, remote };
        count_insert(self.streams, id.0, entry, true);
        count_insert(self.streams, id.0, entry, false);
        if self.state.error is None {
            tally_insert(
                self.streams,
                id.0,
                entry,
                self.state.next_stream_id,
                self.state.active_local_streams,
                self.state.reserved_streams,
            );
        }
        if self.free.len() > 0 {
            let k = self.free.len() - 1;
            assert(self.free[k] == s);
            assert(!self.registered(s as int));
        }
        assert forall|i: u32| #[trigger] next.streams.dom().contains(i) implies next.entry_wf(i) by {
            if i != id.0 {
                assert(self.streams.dom().contains(i));
                assert(self.entry_wf(i));
            }
        }
        assert forall|k: int| 0 <= k < next.free.len() implies #[trigger] next.free[k]
            < next.slots.len() && !next.registered(next.free[k] as int) by {
            assert(next.free[k] == self.free[k]);
            assert(!self.registered(self.free[k] as int));
            assert(self.free[k] != s);
        }
        assert forall|i: int| 0 <= i < next.slots.len() implies (#[trigger] next.slots[i]).wf(
            next.base(),
        ) by {
            if i != s {
                assert(self.slots[i].wf(self.base()));
            }
        }
    }
}

} // verus!
