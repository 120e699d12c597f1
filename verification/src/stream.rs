//! Streams of a connection.
use ntex_http::HeaderMap;
use vstd::prelude::*;

use crate::connection::view::{self, ConView, Delivered};
use crate::connection::{Action, Connection};
use crate::error::{OperationError, StreamError};
use crate::frame::headers::{HeadersFlag, HeadersView, END_HEADERS};
use crate::frame::{
    self, Data, Frame, Headers, PseudoHeaders, Reason, Reset, StreamId, WindowSize, WindowUpdate,
};
use crate::http;
use crate::message::Message;
use crate::stream_data::StreamData;
use crate::window::Window;

verus! {

/// A stream of a connection: the place of its state.
#[derive(Debug, Copy, Clone, PartialEq, Eq, Hash, Structural)]
pub struct StreamRef(pub usize);

/// State related to a stream's content-length validation
#[derive(Debug, Copy, Clone, PartialEq, Eq, Structural)]
pub enum ContentLength {
    Omitted,
    Head,
    Remaining(u64),
}

/// One direction of a stream.
#[derive(Debug, Clone, Copy, PartialEq, Eq, Structural)]
pub enum HalfState {
    Idle,
    Payload,
    Closed(Option<Reason>),
}

impl HalfState {
    pub fn is_closed(self) -> (r: bool)
        ensures
            r == self is Closed,
    {
        match self {
            HalfState::Closed(_) => true,
            _ => false,
        }
    }
}

#[derive(Debug, Clone, Copy, PartialEq, Eq, Structural)]
pub struct StreamFlags {
    /// The peer has opened the stream
    pub remote: bool,
    pub failed: bool,
    pub disconnect_on_drop: bool,
    pub wait_for_capacity: bool,
    /// The stream is canceled when its owner gives it up
    pub reset_on_drop: bool,
}

#[derive(Debug, Clone, Copy)]
pub struct StreamState {
    /// The h2 stream identifier
    pub id: StreamId,
    pub flags: StreamFlags,
    pub content_length: ContentLength,
    /// Receive part
    pub recv: HalfState,
    pub recv_window: Window,
    /// Received bytes that have not been consumed yet
    pub recv_size: WindowSize,
    /// Send part
    pub send: HalfState,
    pub send_window: Window,
    /// error state
    pub error: Option<OperationError>,
}

impl StreamState {
    /// A stream on which nothing has been sent or received.
    pub open spec fn fresh(
        id: StreamId,
        remote: bool,
        recv_window: Window,
        send_window: Window,
    ) -> StreamState {
        StreamState {
            id,
            flags: StreamFlags {
                remote,
                failed: false,
                disconnect_on_drop: false,
                wait_for_capacity: false,
                reset_on_drop: true,
            },
            content_length: ContentLength::Omitted,
            recv: HalfState::Idle,
            recv_window,
            recv_size: 0,
            send: HalfState::Idle,
            send_window,
            error: None,
        }
    }

    /// The stream has an identifier, and its counters are within the range in
    /// which the window `base` can be announced.
    pub open spec fn wf(self, base: int) -> bool {
        &&& self.id.wf()
        &&& self.id.0 != 0
        &&& self.recv_size <= i32::MAX
        &&& base - self.recv_window.window_size <= i32::MAX
    }

    /// Both directions are closed.
    pub open spec fn closed(self) -> bool {
        self.recv is Closed && self.send is Closed
    }
}

/// Stream capacity information
///
/// Capacity is what received bytes take of the receive window, until they are
/// consumed.
#[derive(Debug)]
pub struct Capacity {
    pub size: u32,
    pub stream: StreamRef,
}

// ===== State changes =====

impl StreamRef {
    /// Returns the stream identifier.
    pub fn id(self, con: &Connection) -> (r: StreamId)
        requires
            con@.has(self),
        ensures
            r == con@.slot(self).id,
    {
        con.slot(self).id
    }

    /// Drops the stream as soon as both of its directions are closed.
    fn review_state(self, con: &mut Connection)
        requires
            old(con)@.wf(),
            old(con)@.has(self),
        ensures
            final(con)@ == old(con)@.settle(self),
            final(con)@.wf(),
            old(con)@.keeps(final(con)@),
    {
        let st = con.slot(self);
        if st.recv.is_closed() {
            con.act(Action::WakeReset(self));

            if st.send.is_closed() {
                // stream is closed
                con.act(Action::WakeSend(self));
                con.drop_stream(st.id);
            }
        }
    }

    fn state_send_close(self, con: &mut Connection, reason: Option<Reason>)
        requires
            old(con)@.wf(),
            old(con)@.has(self),
        ensures
            final(con)@ == old(con)@.send_close(self, reason),
            final(con)@.wf(),
            old(con)@.with_slot(
                self,
                StreamState { send: HalfState::Closed(reason), ..old(con)@.slot(self) },
            ).keeps(final(con)@),
    {
        let mut st = con.slot(self);
        st.send = HalfState::Closed(reason);
        con.set_slot(self, st);
        con.act(Action::WakeSend(self));
        self.review_state(con);
    }

    fn state_recv_close(self, con: &mut Connection, reason: Option<Reason>)
        requires
            old(con)@.wf(),
            old(con)@.has(self),
        ensures
            final(con)@ == old(con)@.recv_close(self, reason),
            final(con)@.wf(),
            old(con)@.with_slot(
                self,
                StreamState { recv: HalfState::Closed(reason), ..old(con)@.slot(self) },
            ).keeps(final(con)@),
    {
        let mut st = con.slot(self);
        st.recv = HalfState::Closed(reason);
        con.set_slot(self, st);
        self.review_state(con);
    }

    fn reset_stream(self, con: &mut Connection, reason: Reason)
        requires
            old(con)@.wf(),
            old(con)@.has(self),
        ensures
            final(con)@ == old(con)@.local_reset(self, reason),
            final(con)@.wf(),
            old(con)@.same_capacity(final(con)@),
            final(con)@.slot(self).id == old(con)@.slot(self).id,
    {
        let mut st = con.slot(self);
        st.recv = HalfState::Closed(Some(reason));
        st.send = HalfState::Closed(None);
        st.error = Some(OperationError::LocalReset(reason));
        con.set_slot(self, st);
        self.review_state(con);
    }

    fn remote_reset_stream(self, con: &mut Connection, reason: Reason)
        requires
            old(con)@.wf(),
            old(con)@.has(self),
        ensures
            final(con)@ == old(con)@.remote_reset(self, reason),
            final(con)@.wf(),
            final(con)@.state.rst_count == old(con)@.state.rst_count,
            final(con)@.slots.len() == old(con)@.slots.len(),
            final(con)@.slot(self).id == old(con)@.slot(self).id,
    {
        let mut st = con.slot(self);
        st.recv = HalfState::Closed(None);
        st.send = HalfState::Closed(Some(reason));
        st.error = Some(OperationError::RemoteReset(reason));
        con.set_slot(self, st);
        self.review_state(con);
    }

    /// Marks the stream as failed and closes what is still open of it.
    pub fn set_failed_stream(self, con: &mut Connection, err: OperationError)
        requires
            old(con)@.wf(),
            old(con)@.has(self),
        ensures
            final(con)@ == old(con)@.failed(self, err),
            final(con)@.wf(),
            final(con)@.slots.len() == old(con)@.slots.len(),
            final(con)@.slot(self).id == old(con)@.slot(self).id,
    {
        let mut st = con.slot(self);
        if !st.recv.is_closed() {
            st.recv = HalfState::Closed(None);
        }
        if !st.send.is_closed() {
            st.send = HalfState::Closed(None);
        }
        st.error = Some(err);
        st.flags.failed = true;
        con.set_slot(self, st);
        self.review_state(con);
    }

    /// Reset stream
    ///
    /// Returns `true` if the stream state is updated and a `Reset` frame
    /// has been sent to the peer.
    pub fn reset(self, con: &mut Connection, reason: Reason) -> (r: bool)
        requires
            old(con)@.wf(),
            old(con)@.has(self),
        ensures
            final(con)@ == old(con)@.reset(self, reason),
            final(con)@.wf(),
            old(con)@.same_capacity(final(con)@),
            final(con)@.slot(self).id == old(con)@.slot(self).id,
            r == !old(con)@.slot(self).closed(),
    {
        let st = con.slot(self);
        if !st.recv.is_closed() || !st.send.is_closed() {
            con.encode(Frame::Reset(Reset::new(st.id, reason)));
            self.reset_stream(con, reason);
            true
        } else {
            false
        }
    }
}

// ===== Receive windows =====

impl StreamRef {
    /// added new capacity, update receive window size
    fn add_recv_capacity(self, con: &mut Connection, size: u32)
        requires
            old(con)@.wf(),
            old(con)@.has(self),
            old(con)@.fits(self, size as int),
        ensures
            final(con)@ == old(con)@.received(self, size as int),
            final(con)@.wf(),
            final(con)@.slots.len() == old(con)@.slots.len(),
            final(con)@.slot(self).recv == old(con)@.slot(self).recv,
            final(con)@.slot(self).recv_size == old(con)@.slot(self).recv_size + size,
    {
        proof {
            reveal(ConView::received);
        }
        let mut st = con.slot(self);
        st.recv_size = st.recv_size + size;
        st.recv_window = st.recv_window.dec(size);
        con.set_slot(self, st);

        // connection level recv window
        con.add_recv_capacity(size);
    }

    /// check and update receive window size
    fn consume_capacity(self, con: &mut Connection, size: u32)
        requires
            old(con)@.wf(),
            old(con)@.has(self),
            size <= old(con)@.slot(self).recv_size,
        ensures
            final(con)@ == old(con)@.consumed(self, size as int),
            final(con)@.wf(),
            final(con)@.slots.len() == old(con)@.slots.len(),
            final(con)@.slot(self).recv_size == old(con)@.slot(self).recv_size - size,
    {
        proof {
            reveal(ConView::consumed);
        }
        let mut st = con.slot(self);
        st.recv_size = st.recv_size - size;
        let config = con.state.config;
        match st.recv_window.update(
            st.recv_size,
            config.window_sz as i32,
            config.window_sz_threshold,
        ) {
            Some(val) => {
                con.set_slot(self, st);
                con.encode(Frame::WindowUpdate(WindowUpdate::new(st.id, val)));
            },
            None => {
                con.set_slot(self, st);
            },
        }
    }
}

// ===== Frames that were received =====

/// Reads a decimal number of at most 19 digits.
pub fn parse_u64(src: &[u8]) -> (r: Option<u64>)
    ensures
        r == view::number_of(src@),
{
    if src.len() > 19 {
        // At danger for overflow...
        return None;
    }
    let mut ret: u64 = 0;
    let mut i: usize = 0;
    while i < src.len()
        invariant
            i <= src@.len() <= 19,
            ret == view::digits_value(src@.take(i as int)),
            forall|k: int| 0 <= k < i ==> 0x30 <= #[trigger] src@[k] <= 0x39,
            ret < pow10(i as nat),
        decreases src@.len() - i,
    {
        let d: u8 = src[i];
        if d < 0x30 || d > 0x39 {
            return None;
        }
        assert(src@.take(i + 1).drop_last() =~= src@.take(i as int));
        proof {
            pow10_bound(i as nat);
        }
        ret = ret * 10;
        ret = ret + (d - 0x30) as u64;
        i = i + 1;
    }
    assert(src@.take(i as int) =~= src@);
    Some(ret)
}

/// A power of ten.
spec fn pow10(n: nat) -> nat
    decreases n,
{
    if n == 0 {
        1
    } else {
        pow10((n - 1) as nat) * 10
    }
}

proof fn pow10_bound(n: nat)
    requires
        n < 19,
    ensures
        pow10(n + 1) == pow10(n) * 10,
        pow10(n + 1) <= 10_000_000_000_000_000_000,
{
    reveal_with_fuel(pow10, 21);
}

impl StreamRef {
    /// Whether the counters of the stream can take `size` more bytes.
    pub fn fits(self, con: &Connection, size: usize) -> (r: bool)
        requires
            con@.wf(),
            con@.has(self),
        ensures
            r == con@.fits(self, size as int),
    {
        let st = con.slot(self);
        let config = con.state.config;
        let base: u32 = if !con.state.flags.settings_processed && config.window_sz
            < frame::DEFAULT_INITIAL_WINDOW_SIZE {
            frame::DEFAULT_INITIAL_WINDOW_SIZE
        } else {
            config.window_sz
        };
        let max: i64 = i32::MAX as i64;
        if size > i32::MAX as usize {
            return false;
        }
        let size: i64 = size as i64;
        st.recv_size as i64 + size <= max && base as i64 - st.recv_window.window_size as i64 + size
            <= max && config.connection_window_sz as i64 - con.state.recv_window.window_size as i64
            + size <= max
    }

    /// Handles HEADERS that were received for the stream.
    pub fn recv_headers(self, con: &mut Connection, hdrs: Headers) -> (r: Result<
        Option<Message>,
        StreamError,
    >)
        requires
            old(con)@.wf(),
            old(con)@.has(self),
            http::valued(hdrs@.block.fields),
        ensures
            (final(con)@, message_result(r)) == old(con)@.stream_headers(self, hdrs@),
            final(con)@.wf(),
            final(con)@.slots.len() == old(con)@.slots.len(),
            r matches Ok(Some(m)) ==> m@.stream == self,
    {
        proof {
            reveal(ConView::stream_headers);
        }
        let mut st = con.slot(self);
        match st.recv {
            HalfState::Idle => {
                let eof = hdrs.is_end_stream();
                if eof {
                    self.state_recv_close(con, None);
                } else {
                    st.recv = HalfState::Payload;
                    con.set_slot(self, st);
                }
                let (pseudo, headers) = hdrs.into_parts();

                let is_head: bool = match st.content_length {
                    ContentLength::Head => true,
                    _ => false,
                };
                if !is_head {
                    proof {
                        content_length_name();
                    }
                    if let Some(content_length) = http::map_get(&headers, "content-length") {
                        if let Some(v) = parse_u64(content_length.as_slice()) {
                            let mut st = con.slot(self);
                            st.content_length = ContentLength::Remaining(v);
                            con.set_slot(self, st);
                        } else {
                            return Err(StreamError::InvalidContentLength);
                        }
                    }
                }
                Ok(Some(Message::new(pseudo, headers, eof, self)))
            },
            HalfState::Payload => {
                // trailers
                if hdrs.is_end_stream() {
                    self.state_recv_close(con, None);
                    Ok(Some(Message::trailers(hdrs.into_fields(), self)))
                } else {
                    Err(StreamError::TrailersWithoutEos)
                }
            },
            HalfState::Closed(_) => Err(StreamError::Closed),
        }
    }
}

/// What became of a frame, with the message taken by its view.
pub open spec fn message_result(r: Result<Option<Message>, StreamError>) -> Delivered {
    match r {
        Ok(Some(m)) => Ok(Some(m@)),
        Ok(None) => Ok(None),
        Err(e) => Err(e),
    }
}

proof fn content_length_name()
    ensures
        http::valid_name(http::text_bytes("content-length"@)),
{
    reveal_strlit("content-length");
    vstd::utf8::is_ascii_chars_encode_utf8("content-length"@);
}

impl StreamRef {
    /// Hands the capacity of a payload back, where it has any.
    fn release(self, con: &mut Connection, size: u32)
        requires
            old(con)@.wf(),
            old(con)@.has(self),
            size <= old(con)@.slot(self).recv_size,
        ensures
            final(con)@ == old(con)@.released(self, size as int),
            final(con)@.wf(),
            final(con)@.slots.len() == old(con)@.slots.len(),
            final(con)@.slot(self).recv_size == old(con)@.slot(self).recv_size - size,
    {
        if size != 0 {
            self.consume_capacity(con, size);
        }
    }

    /// Checks a payload against the announced length.
    fn check_length(self, con: &mut Connection, size: u32, eof: bool) -> (r: Option<StreamError>)
        requires
            old(con)@.wf(),
            old(con)@.has(self),
        ensures
            (final(con)@, r) == old(con)@.length_checked(self, size as int, eof),
            final(con)@.wf(),
    {
        let mut st = con.slot(self);
        match st.content_length {
            ContentLength::Remaining(rem) => {
                // the decrement cannot be completed due to overflow
                if rem < size as u64 {
                    return Some(StreamError::WrongPayloadLength);
                }
                let val: u64 = rem - size as u64;
                st.content_length = ContentLength::Remaining(val);
                con.set_slot(self, st);
                if eof && val != 0 {
                    return Some(StreamError::WrongPayloadLength);
                }
            },
            ContentLength::Head => {
                if size != 0 {
                    return Some(StreamError::NonEmptyPayload);
                }
                con.set_slot(self, st);
            },
            ContentLength::Omitted => {
                con.set_slot(self, st);
            },
        }
        None
    }

    /// Handles DATA that was received for the stream.
    pub fn recv_data(self, con: &mut Connection, data: Data) -> (r: Result<
        Option<Message>,
        StreamError,
    >)
        requires
            old(con)@.wf(),
            old(con)@.has(self),
            old(con)@.fits(self, data@.data.len() as int),
        ensures
            (final(con)@, message_result(r)) == old(con)@.stream_data(self, data@),
            final(con)@.wf(),
            final(con)@.slots.len() == old(con)@.slots.len(),
            r matches Ok(Some(m)) ==> m@.stream == self,
    {
        proof {
            reveal(ConView::stream_data);
        }
        let size: u32 = data.payload().len() as u32;
        if size != 0 {
            self.add_recv_capacity(con, size);
        }
        match con.slot(self).recv {
            HalfState::Payload => {
                let eof = data.is_end_stream();
                if let Some(err) = self.check_length(con, size, eof) {
                    self.release(con, size);
                    return Err(err);
                }
                if eof {
                    self.state_recv_close(con, None);
                    self.release(con, size);
                    Ok(Some(Message::eof_data(data.into_payload(), self)))
                } else {
                    let cap = Capacity { size, stream: self };
                    Ok(Some(Message::data(data.into_payload(), cap, self)))
                }
            },
            HalfState::Idle => {
                self.release(con, size);
                Err(StreamError::Idle("DATA framed received"))
            },
            HalfState::Closed(_) => {
                self.release(con, size);
                Err(StreamError::Closed)
            },
        }
    }

    /// Handles RST_STREAM that was received for the stream.
    pub fn recv_rst_stream(self, con: &mut Connection, frm: Reset)
        requires
            old(con)@.wf(),
            old(con)@.has(self),
        ensures
            final(con)@ == old(con)@.remote_reset(self, frm.error_code),
            final(con)@.wf(),
            final(con)@.state.rst_count == old(con)@.state.rst_count,
            final(con)@.slots.len() == old(con)@.slots.len(),
            final(con)@.slot(self).id == old(con)@.slot(self).id,
    {
        self.remote_reset_stream(con, frm.reason());
    }

    /// Ends the stream together with the connection that the peer leaves.
    pub fn set_go_away(self, con: &mut Connection, reason: Reason)
        requires
            old(con)@.wf(),
            old(con)@.has(self),
        ensures
            final(con)@ == old(con)@.remote_reset(self, reason),
            final(con)@.wf(),
            final(con)@.state.rst_count == old(con)@.state.rst_count,
            final(con)@.slots.len() == old(con)@.slots.len(),
            final(con)@.slot(self).id == old(con)@.slot(self).id,
    {
        self.remote_reset_stream(con, reason);
    }

    /// Starts the capacity timeout.
    fn start_timer(self, con: &mut Connection)
        requires
            old(con)@.wf(),
        ensures
            final(con)@ == old(con)@.start_timer(self),
            final(con)@.wf(),
    {
        if let Some(timeout) = con.state.config.capacity_timeout {
            con.act(Action::TimerStart(self, timeout));
        }
    }

    /// Removes the capacity timeout.
    fn stop_timer(self, con: &mut Connection)
        requires
            old(con)@.wf(),
        ensures
            final(con)@ == old(con)@.stop_timer(self),
            final(con)@.wf(),
    {
        if con.state.config.capacity_timeout.is_some() {
            con.act(Action::TimerStop(self));
        }
    }

    /// Goes on with sending once the window of the connection has grown.
    pub fn recv_window_update_connection(self, con: &mut Connection)
        requires
            old(con)@.wf(),
            old(con)@.has(self),
        ensures
            final(con)@ == old(con)@.con_window_grown(self),
            final(con)@.wf(),
    {
        let mut st = con.slot(self);
        if st.flags.wait_for_capacity && st.send_window.available() {
            st.flags.wait_for_capacity = false;
            con.set_slot(self, st);
            con.act(Action::WakeSend(self));

            // remove capacity timeout
            self.stop_timer(con);
        }
    }

    /// Handles WINDOW_UPDATE that was received for the stream.
    pub fn recv_window_update(self, con: &mut Connection, frm: WindowUpdate) -> (r: Result<
        (),
        StreamError,
    >)
        requires
            old(con)@.wf(),
            old(con)@.has(self),
            frm.wf(),
        ensures
            (final(con)@, r) == old(con)@.stream_window_update(self, frm.size_increment as int),
            final(con)@.wf(),
    {
        let mut st = con.slot(self);
        let orig = st.send_window;
        if frm.size_increment() == 0 {
            return Err(StreamError::WindowZeroUpdateValue);
        }
        match orig.inc(frm.size_increment()) {
            Err(_) => Err(StreamError::WindowOverflowed),
            Ok(window) => {
                let resumed: bool = window.available() && !orig.available();
                st.send_window = window;
                if resumed {
                    st.flags.wait_for_capacity = false;
                }
                con.set_slot(self, st);

                if window.available() {
                    con.act(Action::WakeSend(self));

                    // remove capacity timeout
                    if resumed {
                        self.stop_timer(con);
                    }
                }
                Ok(())
            },
        }
    }

    /// Moves the send window with the initial window size of the peer.
    pub fn update_send_window(self, con: &mut Connection, upd: i32) -> (r: Result<(), StreamError>)
        requires
            old(con)@.has(self),
            i32::MIN <= old(con)@.slot(self).send_window.window_size + upd,
        ensures
            (final(con)@, r) == old(con)@.send_window_moved(self, upd as int),
    {
        let mut st = con.slot(self);
        match st.send_window.inc(upd) {
            Err(_) => Err(StreamError::WindowOverflowed),
            Ok(window) => {
                st.send_window = window;
                con.slots.set(self.0, st);
                Ok(())
            },
        }
    }

    /// Moves the receive window with the initial window size of this side.
    ///
    /// Returns the increment that is to be announced.
    pub fn update_recv_window(self, con: &mut Connection, upd: i32) -> (r: Result<
        Option<WindowSize>,
        StreamError,
    >)
        requires
            old(con)@.has(self),
            old(con)@.state.config.wf(),
            old(con)@.slot(self).recv_size <= i32::MAX,
            i32::MIN <= old(con)@.slot(self).recv_window.window_size + upd,
            old(con)@.state.config.window_sz - (old(con)@.slot(self).recv_window.window_size + upd)
                <= i32::MAX,
        ensures
            (final(con)@, r) == old(con)@.recv_window_moved(self, upd as int),
    {
        let mut st = con.slot(self);
        let config = con.state.config;
        if upd == 0 {
            return Ok(None);
        }
        match st.recv_window.inc(upd) {
            Err(_) => Err(StreamError::WindowOverflowed),
            Ok(window) => {
                st.recv_window = window;
                let val = st.recv_window.update(
                    st.recv_size,
                    config.window_sz as i32,
                    config.window_sz_threshold,
                );
                con.slots.set(self.0, st);
                Ok(val)
            },
        }
    }
}

// ===== Sending =====

impl StreamRef {
    /// Sends the headers that open a request.
    pub fn send_headers(self, con: &mut Connection, hdrs: Headers)
        requires
            old(con)@.wf(),
            old(con)@.has(self),
        ensures
            final(con)@ == old(con)@.send_headers(
                self,
                HeadersView { flags: HeadersFlag(hdrs@.flags.0 | END_HEADERS), ..hdrs@ },
            ),
            final(con)@.wf(),
            final(con)@.slots.len() == old(con)@.slots.len(),
    {
        let mut hdrs = hdrs;
        hdrs.set_end_headers();
        if hdrs.is_end_stream() {
            self.state_send_close(con, None);
        } else {
            let mut st = con.slot(self);
            st.send = HalfState::Payload;
            con.set_slot(self, st);
        }
        if let Some(status) = hdrs.pseudo().status {
            if 100 <= status && status < 200 {
                let mut st = con.slot(self);
                st.content_length = ContentLength::Head;
                con.set_slot(self, st);
            }
        }
        con.encode(Frame::Headers(hdrs));
    }

    /// Send stream response
    pub fn send_response(self, con: &mut Connection, status: u16, headers: HeaderMap, eof: bool) -> (r:
        Result<(), OperationError>)
        requires
            old(con)@.wf(),
            old(con)@.has(self),
            100 <= status <= 999,
        ensures
            (final(con)@, r) == old(con)@.send_response(
                self,
                status,
                http::header_fields(headers),
                eof,
            ),
            final(con)@.wf(),
    {
        let mut st = con.slot(self);
        if let Some(err) = st.error {
            return Err(err);
        }
        match st.send {
            HalfState::Idle => {
                let pseudo = PseudoHeaders::response(status);
                let hdrs = Headers::new(st.id, pseudo, headers, eof);

                if eof {
                    self.state_send_close(con, None);
                } else {
                    st.send = HalfState::Payload;
                    con.set_slot(self, st);
                }
                con.encode(Frame::Headers(hdrs));
                Ok(())
            },
            HalfState::Payload => Err(OperationError::Payload),
            HalfState::Closed(r) => Err(OperationError::Closed(r)),
        }
    }

    /// Send client trailers and close stream
    pub fn send_trailers(self, con: &mut Connection, map: HeaderMap)
        requires
            old(con)@.wf(),
            old(con)@.has(self),
        ensures
            final(con)@ == old(con)@.send_trailers(self, http::header_fields(map)),
            final(con)@.wf(),
    {
        let st = con.slot(self);
        match st.send {
            HalfState::Payload => {
                let hdrs = Headers::trailers(st.id, map);
                con.encode(Frame::Headers(hdrs));
                self.state_send_close(con, None);
            },
            _ => {},
        }
    }

    /// The bytes that the stream may send now: no more than its own window, and
    /// no more than that of the connection.
    pub fn available_send_capacity(self, con: &Connection) -> (r: WindowSize)
        requires
            con@.has(self),
        ensures
            r == con@.available(self),
    {
        let stream: WindowSize = con.slot(self).send_window.window_size();
        let connection: WindowSize = con.state.send_window.window_size();
        if stream <= connection {
            stream
        } else {
            connection
        }
    }

    /// Resets a stream that has waited for send capacity for too long.
    pub fn capacity_timeout(self, con: &mut Connection)
        requires
            old(con)@.wf(),
            old(con)@.has(self),
        ensures
            final(con)@ == old(con)@.capacity_timeout(self),
            final(con)@.wf(),
    {
        self.reset(con, Reason::FLOW_CONTROL_ERROR);
        self.set_failed_stream(con, OperationError::Stream(StreamError::CapacityTimeout));
    }

    /// Check for available send capacity
    ///
    /// `None` says that the caller has to wait until the stream is woken up. The
    /// capacity timeout runs while there is none.
    pub fn poll_send_capacity(self, con: &mut Connection) -> (r: Result<
        Option<WindowSize>,
        OperationError,
    >)
        requires
            old(con)@.wf(),
            old(con)@.has(self),
        ensures
            (final(con)@, r) == old(con)@.poll_capacity(self),
            final(con)@.wf(),
    {
        let mut st = con.slot(self);
        if let Some(err) = st.error {
            return Err(err);
        }
        if let Some(err) = con.state.error {
            return Err(err);
        }
        let win: WindowSize = self.available_send_capacity(con);
        let waited: bool = st.flags.wait_for_capacity;
        st.flags.wait_for_capacity = win == 0;
        con.set_slot(self, st);
        if win > 0 {
            if waited {
                self.stop_timer(con);
            }
            Ok(Some(win))
        } else {
            if !waited {
                self.start_timer(con);
            }
            Ok(None)
        }
    }

    /// Check if send part of stream get reset
    ///
    /// `false` says that the caller has to wait until the stream is woken up.
    pub fn poll_send_reset(self, con: &Connection) -> (r: Result<bool, OperationError>)
        requires
            con@.has(self),
        ensures
            r == if con@.slot(self).send is Closed {
                Ok::<bool, OperationError>(true)
            } else {
                match con@.stream_error(self) {
                    Some(e) => Err(e),
                    None => Ok(false),
                }
            },
    {
        let st = con.slot(self);
        if st.send.is_closed() {
            Ok(true)
        } else if let Some(err) = st.error {
            Err(err)
        } else if let Some(err) = con.state.error {
            Err(err)
        } else {
            Ok(false)
        }
    }
}

/// What became of payload, with the rest of it taken by its view.
pub open spec fn payload_result(r: Result<bool, OperationError>, rest: Seq<u8>) -> Result<
    Option<Seq<u8>>,
    OperationError,
> {
    match r {
        Ok(true) => Ok(None),
        Ok(false) => Ok(Some(rest)),
        Err(e) => Err(e),
    }
}

impl StreamRef {
    /// Sends the next DATA frame, and says whether it was the last one.
    fn write_chunk(self, con: &mut Connection, data: &mut StreamData, eof: bool) -> (r: bool)
        requires
            old(con)@.wf(),
            old(con)@.has(self),
            old(con)@.available(self) > 0,
            old(data)@.len() <= usize::MAX,
        ensures
            final(con)@ == old(con)@.write_chunk(self, old(data)@, eof),
            final(con)@.wf(),
            final(con)@.has(self),
            r == (old(con)@.chunk(self, old(data)@.len() as int) >= old(data)@.len()),
            r ==> final(data)@.len() == 0,
            !r ==> final(data)@ == old(data)@.skip(
                old(con)@.chunk(self, old(data)@.len() as int),
            ),
    {
        let win: usize = self.available_send_capacity(con) as usize;
        let frame_size: usize = con.state.remote_frame_size as usize;
        let max: usize = if win <= frame_size {
            win
        } else {
            frame_size
        };
        let len: usize = data.len();
        let size: usize = if len <= max {
            len
        } else {
            max
        };
        let st = con.slot(self);
        let (frame, empty) = data.encode(st.id, size, eof);
        con.encode(Frame::Data(frame));

        if eof && empty {
            self.state_send_close(con, None);
        }
        // update send window
        let mut st = con.slot(self);
        st.send_window = st.send_window.dec(size as u32);
        con.set_slot(self, st);

        // update connection send window
        con.consume_send_window(size as u32);
        empty
    }

    /// Sends payload as far as the windows go, and goes on with it once there is
    /// capacity again.
    ///
    /// Returns `false` where the caller has to wait for send capacity. What could
    /// not be sent is left in `data`.
    pub fn write_pages(self, con: &mut Connection, data: &mut StreamData, eof: bool) -> (r: bool)
        requires
            old(con)@.wf(),
            old(con)@.has(self),
            old(data)@.len() <= usize::MAX,
        ensures
            old(con)@.write_payload(self, old(data)@, eof) == (
                final(con)@,
                if r {
                    None
                } else {
                    Some(final(data)@)
                },
            ),
            final(con)@.wf(),
            r ==> final(data)@.len() == 0,
    {
        loop
            invariant
                con@.wf(),
                con@.has(self),
                data@.len() <= usize::MAX,
                con@.write_payload(self, data@, eof) == old(con)@.write_payload(
                    self,
                    old(data)@,
                    eof,
                ),
            decreases data@.len(),
        {
            proof {
                reveal_with_fuel(ConView::write_payload, 1);
            }
            // calculate available send window size
            if self.available_send_capacity(con) > 0 {
                if self.write_chunk(con, data, eof) {
                    return true;
                }
            } else {
                // start capacity timeout
                self.start_timer(con);
                // wait for available send window
                return false;
            }
        }
    }

    /// Send payload
    ///
    /// Returns `false` where the caller has to wait for send capacity, and then
    /// to go on with `write_pages`. What could not be sent is left in `data`.
    pub fn send_pages(self, con: &mut Connection, data: &mut StreamData, eof: bool) -> (r: Result<
        bool,
        OperationError,
    >)
        requires
            old(con)@.wf(),
            old(con)@.has(self),
            old(data)@.len() <= usize::MAX,
        ensures
            (final(con)@, payload_result(r, final(data)@)) == old(con)@.send_payload(
                self,
                old(data)@,
                eof,
            ),
            final(con)@.wf(),
    {
        let st = con.slot(self);
        match st.send {
            HalfState::Payload => {
                // check if stream is disconnected
                if let Some(err) = st.error {
                    return Err(err);
                }
                // eof and empty data
                if eof && data.is_empty() {
                    let mut frame = Data::new(st.id, Vec::new());
                    frame.set_end_stream();
                    self.state_send_close(con, None);
                    assert(0u8 | 1u8 == 1u8) by (bit_vector);
                    assert(frame@.data =~= data@);

                    // write to io buffer
                    con.encode(Frame::Data(frame));
                    return Ok(true);
                }
                Ok(self.write_pages(con, data, eof))
            },
            HalfState::Idle => Err(OperationError::Idle),
            HalfState::Closed(reason) => Err(OperationError::Closed(reason)),
        }
    }

    /// Send payload
    ///
    /// Returns what could not be sent, where the caller has to wait for send
    /// capacity and then to go on with `write_pages`.
    pub fn send_payload(self, con: &mut Connection, data: Vec<u8>, eof: bool) -> (r: Result<
        Option<StreamData>,
        OperationError,
    >)
        requires
            old(con)@.wf(),
            old(con)@.has(self),
        ensures
            final(con)@ == old(con)@.send_payload(self, data@, eof).0,
            match old(con)@.send_payload(self, data@, eof).1 {
                Ok(None) => r == Ok::<Option<StreamData>, OperationError>(None),
                Ok(Some(rest)) => r is Ok && r->Ok_0 is Some && r->Ok_0->0@ == rest,
                Err(e) => r == Err::<Option<StreamData>, OperationError>(e),
            },
            final(con)@.wf(),
    {
        let len: usize = data.len();
        let mut data = StreamData::from(data);
        assert(data@.len() == len);
        match self.send_pages(con, &mut data, eof) {
            Ok(true) => Ok(None),
            Ok(false) => Ok(Some(data)),
            Err(err) => Err(err),
        }
    }
}

// ===== Capacity =====

impl Capacity {
    /// Size of capacity
    pub fn size(&self) -> (r: usize)
        ensures
            r == self.size,
    {
        self.size as usize
    }

    /// Consume specified amount of capacity.
    pub fn consume(&mut self, con: &mut Connection, sz: u32)
        requires
            old(con)@.wf(),
            old(con)@.has(old(self).stream),
            sz <= old(self).size <= old(con)@.slot(old(self).stream).recv_size,
        ensures
            *final(self) == (Capacity {
                size: (old(self).size - sz) as u32,
                stream: old(self).stream,
            }),
            final(con)@ == old(con)@.consumed(old(self).stream, sz as int),
            final(con)@.wf(),
    {
        self.size = self.size - sz;
        self.stream.consume_capacity(con, sz);
    }

    /// Two capacities of one stream in one.
    pub fn add(self, other: Capacity) -> (r: Capacity)
        requires
            self.stream == other.stream,
            self.size + other.size <= u32::MAX,
        ensures
            r == (Capacity { size: (self.size + other.size) as u32, stream: self.stream }),
    {
        Capacity { size: self.size + other.size, stream: self.stream }
    }

    /// Adds another capacity of the stream.
    pub fn add_assign(&mut self, other: Capacity)
        requires
            old(self).stream == other.stream,
            old(self).size + other.size <= u32::MAX,
        ensures
            *final(self) == (Capacity {
                size: (old(self).size + other.size) as u32,
                stream: old(self).stream,
            }),
    {
        self.size = self.size + other.size;
    }

    /// Gives all of the capacity back.
    pub fn release(self, con: &mut Connection)
        requires
            old(con)@.wf(),
            old(con)@.has(self.stream),
            self.size <= old(con)@.slot(self.stream).recv_size,
        ensures
            final(con)@ == old(con)@.released(self.stream, self.size as int),
            final(con)@.wf(),
            final(con)@.slots.len() == old(con)@.slots.len(),
            final(con)@.slot(self.stream).recv_size == old(con)@.slot(self.stream).recv_size
                - self.size,
    {
        self.stream.release(con, self.size);
    }
}

impl StreamRef {
    /// Check if stream has been opened from remote side
    pub fn is_remote(self, con: &Connection) -> (r: bool)
        requires
            con@.has(self),
        ensures
            r == con@.slot(self).flags.remote,
    {
        con.slot(self).flags.remote
    }

    /// Check if stream has failed
    pub fn is_failed(self, con: &Connection) -> (r: bool)
        requires
            con@.has(self),
        ensures
            r == con@.slot(self).flags.failed,
    {
        con.slot(self).flags.failed
    }

    pub fn send_state(self, con: &Connection) -> (r: HalfState)
        requires
            con@.has(self),
        ensures
            r == con@.slot(self).send,
    {
        con.slot(self).send
    }

    pub fn recv_state(self, con: &Connection) -> (r: HalfState)
        requires
            con@.has(self),
        ensures
            r == con@.slot(self).recv,
    {
        con.slot(self).recv
    }

    /// Lets the whole connection go with the stream.
    pub fn disconnect_on_drop(self, con: &mut Connection)
        requires
            old(con)@.wf(),
            old(con)@.has(self),
        ensures
            final(con)@ == old(con)@.with_slot(
                self,
                StreamState {
                    flags: StreamFlags {
                        disconnect_on_drop: true,
                        ..old(con)@.slot(self).flags
                    },
                    ..old(con)@.slot(self)
                },
            ),
            final(con)@.wf(),
    {
        let mut st = con.slot(self);
        st.flags.disconnect_on_drop = true;
        con.set_slot(self, st);
    }

    pub fn is_disconnect_on_drop(self, con: &Connection) -> (r: bool)
        requires
            con@.has(self),
        ensures
            r == con@.slot(self).flags.disconnect_on_drop,
    {
        con.slot(self).flags.disconnect_on_drop
    }

    /// Whether the stream is canceled when its owner gives it up.
    pub fn set_reset_on_drop(self, con: &mut Connection, reset_on_drop: bool)
        requires
            old(con)@.wf(),
            old(con)@.has(self),
        ensures
            final(con)@ == old(con)@.with_slot(
                self,
                StreamState {
                    flags: StreamFlags { reset_on_drop, ..old(con)@.slot(self).flags },
                    ..old(con)@.slot(self)
                },
            ),
            final(con)@.wf(),
    {
        let mut st = con.slot(self);
        st.flags.reset_on_drop = reset_on_drop;
        con.set_slot(self, st);
    }

    /// Get capacity instance for current stream
    pub fn empty_capacity(self) -> (r: Capacity)
        ensures
            r == (Capacity { size: 0, stream: self }),
    {
        Capacity { size: 0, stream: self }
    }
}

/// HTTP/2 Stream
///
/// The owner of a stream: with it the stream is given up.
#[derive(Debug)]
pub struct Stream(pub StreamRef);

impl Stream {
    /// Gives the stream up. It is canceled where it is not closed yet, unless
    /// somebody else does so.
    pub fn release(self, con: &mut Connection)
        requires
            old(con)@.wf(),
            old(con)@.has(self.0),
        ensures
            final(con)@ == old(con)@.give_up(self.0),
            final(con)@.wf(),
            final(con)@.slots.len() == old(con)@.slots.len(),
    {
        if con.slot(self.0).flags.reset_on_drop {
            self.0.reset(con, Reason::CANCEL);
        }
    }
}

} // verus!
