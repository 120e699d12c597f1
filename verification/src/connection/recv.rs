//! Frames that a connection receives.
use vstd::prelude::*;

use crate::connection::view::{self, ConView, EitherError, Received, SettingsErrorView};
use crate::connection::{Action, Connection};
use crate::error::{ConnectionError, OperationError, StreamError, StreamErrorInner};
use crate::frame::pseudo::opt_text;
use crate::frame::{
    self, Data, Frame, GoAway, Headers, Ping, PseudoHeaders, Reason, Reset, Settings, StreamId,
    WindowUpdate,
};
use crate::http;
use crate::message::Message;
use crate::stream::StreamRef;

verus! {

/// What became of a frame, with the message taken by its view.
pub open spec fn received(r: Result<Option<Message>, EitherError>) -> Received {
    match r {
        Ok(Some(m)) => Ok(Some(m@)),
        Ok(None) => Ok(None),
        Err(e) => Err(e),
    }
}

/// The streams that a result speaks of belong to the connection.
pub open spec fn result_has(con: ConView, r: Result<Option<Message>, EitherError>) -> bool {
    match r {
        Ok(Some(m)) => con.has(m@.stream),
        Ok(None) => true,
        Err(EitherError::Stream(e)) => con.has(e.stream),
        Err(EitherError::Connection(_)) => true,
    }
}

/// What became of a frame of a stream, seen from the connection.
fn lift(stream: StreamRef, r: Result<Option<Message>, StreamError>) -> (res: Result<
    Option<Message>,
    EitherError,
>)
    ensures
        res == match r {
            Ok(msg) => Ok::<Option<Message>, EitherError>(msg),
            Err(kind) => Err(EitherError::Stream(StreamErrorInner { kind, stream })),
        },
{
    match r {
        Ok(msg) => Ok(msg),
        Err(kind) => Err(EitherError::Stream(StreamErrorInner::new(stream, kind))),
    }
}

/// Settings of the peer that could not be taken over.
pub enum SettingsError {
    Connection(ConnectionError),
    Streams(Vec<StreamErrorInner>),
}

/// What became of settings, with the list taken by its view.
pub open spec fn settings_result(r: Result<(), SettingsError>) -> Result<(), SettingsErrorView> {
    match r {
        Ok(_) => Ok(()),
        Err(SettingsError::Connection(e)) => Err(SettingsErrorView::Connection(e)),
        Err(SettingsError::Streams(errs)) => Err(SettingsErrorView::Streams(errs@)),
    }
}

/// Whether a text is missing or empty.
fn is_blank(s: &Option<String>) -> (r: bool)
    ensures
        r == (opt_text(*s) is None || opt_text(*s)->0.len() == 0),
{
    match s {
        Some(s) => s.as_str().is_empty(),
        None => true,
    }
}

/// What is wrong with the pseudo-headers of a request.
fn pseudo_error(pseudo: &PseudoHeaders) -> (r: Option<ConnectionError>)
    ensures
        r == ConView::pseudo_error(pseudo@),
{
    if is_blank(&pseudo.path) {
        Some(ConnectionError::MissingPseudo("path"))
    } else if pseudo.method.is_none() {
        Some(ConnectionError::MissingPseudo("method"))
    } else if is_blank(&pseudo.scheme) {
        Some(ConnectionError::MissingPseudo("scheme"))
    } else if pseudo.status.is_some() {
        Some(ConnectionError::UnexpectedPseudo("scheme"))
    } else {
        None
    }
}

// ===== Messages =====

impl ConView {
    /// The counters of the connection have not come to their end.
    pub open spec fn has_room(self) -> bool {
        &&& self.state.active_remote_streams < u32::MAX
        &&& self.state.streams_count < u32::MAX
        &&& self.state.rst_count < u32::MAX
    }
}

impl Connection {
    /// Whether the counters of the connection have not come to their end.
    pub fn has_room(&self) -> (r: bool)
        ensures
            r == self@.has_room(),
    {
        self.state.active_remote_streams < u32::MAX && self.state.streams_count < u32::MAX
            && self.state.rst_count < u32::MAX
    }

    /// Whether the counters of the stream that a DATA frame belongs to can take it.
    pub fn admits(&self, data: &Data) -> (r: bool)
        requires
            self@.wf(),
        ensures
            r == self@.admits(data@),
    {
        match self.query(data.stream_id()) {
            Some(stream) => stream.fits(self, data.payload().len()),
            None => true,
        }
    }

    fn is_tolerated(&self, id: StreamId) -> (r: bool)
        ensures
            r == self@.tolerated(id),
    {
        self.pending.is_pending(id.0) || !self.state.flags.unknown_streams
    }

    /// Refuses a stream of the peer.
    fn refuse(&mut self, id: StreamId)
        requires
            old(self)@.wf(),
        ensures
            final(self)@ == old(self)@.refuse(id),
            final(self)@.wf(),
    {
        self.encode(Frame::Reset(Reset::new(id, Reason::REFUSED_STREAM)));
        self.state.flags.stream_refused = true;
    }

    fn recv_new_stream(&mut self, frm: Headers) -> (r: Result<Option<Message>, EitherError>)
        requires
            old(self)@.wf(),
            old(self)@.has_room(),
            frm@.stream_id.wf(),
            frm@.stream_id.0 != 0,
            http::valued(frm@.block.fields),
            !old(self)@.streams.dom().contains(frm@.stream_id.0),
        ensures
            (final(self)@, received(r)) == old(self)@.new_stream(frm@),
            final(self)@.wf(),
            result_has(final(self)@, r),
    {
        proof {
            reveal(ConView::new_stream);
        }
        let id = frm.stream_id();

        // refuse stream if connection is preparing for disconnect
        if self.state.flags.disconnect_when_ready {
            self.refuse(id);
            return Ok(None);
        }
        if let Some(max) = self.state.config.remote_max_concurrent_streams {
            if self.state.active_remote_streams >= max {
                // check if client opened more streams than allowed
                // in that case close connection
                return if self.state.flags.stream_refused {
                    Err(EitherError::Connection(ConnectionError::ConcurrencyOverflow))
                } else {
                    self.refuse(id);
                    Ok(None)
                };
            }
        }
        match pseudo_error(frm.pseudo()) {
            Some(err) => Err(EitherError::Connection(err)),
            None => {
                let stream = self.open(id, true);
                let msg = stream.recv_headers(self, frm);
                lift(stream, msg)
            },
        }
    }

    /// Handles a HEADERS frame.
    pub fn recv_headers(&mut self, frm: Headers) -> (r: Result<Option<Message>, EitherError>)
        requires
            old(self)@.wf(),
            old(self)@.has_room(),
            frm@.stream_id.wf(),
            frm@.stream_id.0 != 0,
            http::valued(frm@.block.fields),
        ensures
            (final(self)@, received(r)) == old(self)@.recv_headers(frm@),
            final(self)@.wf(),
            result_has(final(self)@, r),
    {
        proof {
            reveal(ConView::recv_headers);
        }
        let id = frm.stream_id();
        if self.state.is_server && !id.is_client_initiated() {
            return Err(
                EitherError::Connection(
                    ConnectionError::InvalidStreamId("Invalid id in received headers frame"),
                ),
            );
        }
        match self.query(id) {
            Some(stream) => {
                let msg = stream.recv_headers(self, frm);
                lift(stream, msg)
            },
            None => if !self.state.is_server && self.is_tolerated(id) {
                // if client and no stream, then it was closed
                self.encode(Frame::Reset(Reset::new(id, Reason::STREAM_CLOSED)));
                Ok(None)
            } else {
                self.recv_new_stream(frm)
            },
        }
    }

    /// Handles a DATA frame.
    pub fn recv_data(&mut self, frm: Data) -> (r: Result<Option<Message>, EitherError>)
        requires
            old(self)@.wf(),
            old(self)@.admits(frm@),
        ensures
            (final(self)@, received(r)) == old(self)@.recv_data(frm@),
            final(self)@.wf(),
            result_has(final(self)@, r),
    {
        proof {
            reveal(ConView::recv_data);
        }
        let id = frm.stream_id();
        match self.query(id) {
            Some(stream) => {
                let msg = stream.recv_data(self, frm);
                lift(stream, msg)
            },
            None => if self.is_tolerated(id) {
                self.encode(Frame::Reset(Reset::new(id, Reason::STREAM_CLOSED)));
                Ok(None)
            } else {
                Err(EitherError::Connection(ConnectionError::UnknownStream("Received data")))
            },
        }
    }
}

// ===== Settings and windows =====

impl Connection {
    fn set_remote_frame_size(&mut self, max: Option<u32>)
        requires
            old(self)@.wf(),
            max matches Some(max) ==> frame::DEFAULT_MAX_FRAME_SIZE <= max
                <= frame::MAX_MAX_FRAME_SIZE,
        ensures
            final(self)@ == old(self)@.frame_size_changed(max),
            final(self)@.wf(),
    {
        if let Some(max) = max {
            self.codec.set_max_send_frame_size(max as usize);
            self.state.remote_frame_size = max;
        }
    }

    fn set_remote_table_size(&mut self, max: Option<u32>)
        requires
            old(self)@.wf(),
        ensures
            final(self)@ == old(self)@.table_size_changed(max),
            final(self)@.wf(),
    {
        if let Some(max) = max {
            self.codec.set_send_header_table_size(max as usize);
        }
    }

    fn set_max_streams(&mut self, max: Option<u32>)
        requires
            old(self)@.wf(),
        ensures
            final(self)@ == old(self)@.max_streams_changed(max),
            final(self)@.wf(),
    {
        if let Some(max) = max {
            self.state.local_max_concurrent_streams = Some(max);
            self.ready_all();
            self.act(Action::Capacity);
        }
    }

    fn limits_changed(&mut self, settings: Settings)
        requires
            old(self)@.wf(),
            settings.wf(),
        ensures
            final(self)@ == old(self)@.limits_changed(settings),
            final(self)@.wf(),
    {
        // Ack settings to the peer
        self.encode(Frame::Settings(Settings::ack()));
        self.set_remote_frame_size(settings.max_frame_size());
        self.set_remote_table_size(settings.header_table_size());
        self.set_max_streams(settings.max_concurrent_streams());
    }

    /// Handles a SETTINGS frame.
    pub fn recv_settings(&mut self, settings: Settings) -> (r: Result<(), SettingsError>)
        requires
            old(self)@.wf(),
            settings.wf(),
        ensures
            (final(self)@, settings_result(r)) == old(self)@.recv_settings(settings),
            final(self)@.wf(),
            r matches Err(SettingsError::Streams(errs)) ==> forall|k: int|
                0 <= k < errs@.len() ==> final(self)@.has((#[trigger] errs@[k]).stream),
    {
        proof {
            reveal(ConView::recv_settings);
        }
        if settings.is_ack() {
            if self.state.flags.settings_processed {
                return Err(SettingsError::Connection(ConnectionError::UnexpectedSettingsAck));
            }
            let errs = self.settings_acked();
            if errs.len() > 0 {
                return Err(SettingsError::Streams(errs));
            }
        } else {
            self.limits_changed(settings);

            // When the value of SETTINGS_INITIAL_WINDOW_SIZE changes, a receiver
            // MUST adjust the size of all stream flow-control windows that it
            // maintains by the difference between the new value and the old value.
            //
            // A change to `SETTINGS_INITIAL_WINDOW_SIZE` can cause the available
            // space in a flow-control window to become negative. A sender MUST
            // track the negative flow-control window and MUST NOT send new
            // flow-controlled frames until it receives WINDOW_UPDATE frames that
            // cause the flow-control window to become positive.
            if let Some(val) = settings.initial_window_size() {
                proof {
                    old(self)@.same_streams(self@, self@.slots.len());
                }
                let errs = self.set_remote_window_size(val);
                if errs.len() > 0 {
                    return Err(SettingsError::Streams(errs));
                }
            }
        }
        Ok(())
    }

    /// Handles a WINDOW_UPDATE frame.
    pub fn recv_window_update(&mut self, frm: WindowUpdate) -> (r: Result<(), EitherError>)
        requires
            old(self)@.wf(),
            frm.wf(),
        ensures
            (final(self)@, r) == old(self)@.recv_window_update(frm),
            final(self)@.wf(),
            r matches Err(EitherError::Stream(e)) ==> final(self)@.has(e.stream),
    {
        proof {
            reveal(ConView::recv_window_update);
        }
        let id = frm.stream_id();
        if id.is_zero() {
            if frm.size_increment() == 0 {
                return Err(EitherError::Connection(ConnectionError::ZeroWindowUpdateValue));
            }
            match self.state.send_window.inc(frm.size_increment()) {
                Err(_) => Err(EitherError::Connection(ConnectionError::WindowValueOverflow)),
                Ok(window) => {
                    let list = self.stream_list();
                    let len: usize = self.slots.len();
                    proof {
                        self@.streams_listed(len as nat);
                    }
                    self.state.send_window = window;

                    // wake up streams if needed
                    self.window_grown_all(&list);
                    Ok(())
                },
            }
        } else if let Some(stream) = self.query(id) {
            match stream.recv_window_update(self, frm) {
                Ok(_) => Ok(()),
                Err(kind) => Err(EitherError::Stream(StreamErrorInner::new(stream, kind))),
            }
        } else if self.pending.is_pending(id.0) {
            Ok(())
        } else if self.state.flags.unknown_streams {
            Err(EitherError::Connection(ConnectionError::UnknownStream("WINDOW_UPDATE")))
        } else {
            self.encode(Frame::Reset(Reset::new(id, Reason::STREAM_CLOSED)));
            Ok(())
        }
    }
}

// ===== Resets =====

impl Connection {
    /// Counts a reset of the peer.
    pub fn update_rst_count(&mut self) -> (r: Result<(), ConnectionError>)
        requires
            old(self)@.wf(),
            old(self)@.state.rst_count < u32::MAX,
        ensures
            (final(self)@, r) == old(self)@.count_reset(),
            final(self)@.wf(),
    {
        let count: u32 = self.state.rst_count + 1;
        let streams_count: u32 = self.state.streams_count;
        if streams_count >= 10 && count >= streams_count / 2 {
            Err(ConnectionError::StreamResetsLimit)
        } else {
            self.state.rst_count = count;
            Ok(())
        }
    }

    /// Handles a RST_STREAM frame.
    pub fn recv_rst_stream(&mut self, frm: Reset) -> (r: Result<(), EitherError>)
        requires
            old(self)@.wf(),
            old(self)@.has_room(),
        ensures
            (final(self)@, r) == old(self)@.recv_rst_stream(frm),
            final(self)@.wf(),
            r matches Err(EitherError::Stream(e)) ==> final(self)@.has(e.stream),
    {
        proof {
            reveal(ConView::recv_rst_stream);
        }
        let id = frm.stream_id();
        if id.is_zero() {
            Err(EitherError::Connection(ConnectionError::UnknownStream("RST_STREAM-zero")))
        } else if let Some(stream) = self.query(id) {
            stream.recv_rst_stream(self, frm);
            match self.update_rst_count() {
                Err(err) => Err(EitherError::Connection(err)),
                Ok(_) => Err(
                    EitherError::Stream(
                        StreamErrorInner::new(stream, StreamError::Reset(frm.reason())),
                    ),
                ),
            }
        } else if self.pending.is_pending(id.0) {
            self.pending.remove(id.0);
            match self.update_rst_count() {
                Err(err) => Err(EitherError::Connection(err)),
                Ok(_) => Ok(()),
            }
        } else if self.state.flags.unknown_streams {
            match self.update_rst_count() {
                Err(err) => Err(EitherError::Connection(err)),
                Ok(_) => Err(EitherError::Connection(ConnectionError::UnknownStream("RST_STREAM"))),
            }
        } else {
            Ok(())
        }
    }

    /// Handles the answer to a ping.
    pub fn recv_pong(&mut self, _frm: Ping)
        requires
            old(self)@.wf(),
        ensures
            final(self)@ == old(self)@.with_pong(true),
            final(self)@.wf(),
    {
        self.state.flags.recv_pong = true;
    }
}

// ===== The end =====

impl Connection {
    /// Handles a GOAWAY frame. Returns the streams that end with it.
    pub fn recv_go_away(&mut self, reason: Reason) -> (r: Vec<StreamRef>)
        requires
            old(self)@.wf(),
        ensures
            r@ == old(self)@.all_streams(),
            final(self)@ == old(self)@.recv_go_away(reason),
            final(self)@.wf(),
    {
        proof {
            reveal(ConView::recv_go_away);
        }
        self.state.error = Some(OperationError::Connection(ConnectionError::GoAway(reason)));
        self.gone_all();
        self.act(Action::Capacity);
        proof {
            old(self)@.same_streams(self@, self@.slots.len());
        }
        let streams = self.take_streams();
        self.set_go_away_all(&streams, reason);
        streams
    }

    fn timed_out(&mut self, err: ConnectionError) -> (r: Vec<StreamRef>)
        requires
            old(self)@.wf(),
        ensures
            r@ == old(self)@.all_streams(),
            final(self)@ == old(self)@.timed_out(err),
            final(self)@.wf(),
    {
        proof {
            reveal(ConView::timed_out);
        }
        let err = OperationError::Connection(err);
        self.state.error = Some(err);
        proof {
            old(self)@.same_streams(self@, self@.slots.len());
        }
        let streams = self.take_streams();
        self.set_failed_all(&streams, err);
        self.encode(Frame::GoAway(GoAway::new(Reason::NO_ERROR)));
        self.close();
        streams
    }

    /// The peer has not answered a ping in time. Returns the streams that fail.
    pub fn ping_timeout(&mut self) -> (r: Vec<StreamRef>)
        requires
            old(self)@.wf(),
        ensures
            r@ == old(self)@.all_streams(),
            final(self)@ == old(self)@.timed_out(ConnectionError::KeepaliveTimeout),
            final(self)@.wf(),
    {
        self.timed_out(ConnectionError::KeepaliveTimeout)
    }

    /// The peer has not completed a frame in time. Returns the streams that fail.
    pub fn read_timeout(&mut self) -> (r: Vec<StreamRef>)
        requires
            old(self)@.wf(),
        ensures
            r@ == old(self)@.all_streams(),
            final(self)@ == old(self)@.timed_out(ConnectionError::ReadTimeout),
            final(self)@.wf(),
    {
        self.timed_out(ConnectionError::ReadTimeout)
    }

    /// The peer has broken the protocol. Returns the streams that fail.
    pub fn proto_error(&mut self, err: &ConnectionError) -> (r: Vec<StreamRef>)
        requires
            old(self)@.wf(),
        ensures
            r@ == old(self)@.all_streams(),
            final(self)@ == old(self)@.proto_error(*err),
            final(self)@.wf(),
    {
        proof {
            reveal(ConView::proto_error);
        }
        let err = OperationError::Connection(*err);
        self.state.error = Some(err);
        self.gone_all();
        self.act(Action::Capacity);
        proof {
            old(self)@.same_streams(self@, self@.slots.len());
        }
        let streams = self.take_streams();
        self.set_failed_all(&streams, err);
        streams
    }

    /// The transport is lost. Returns the streams that fail.
    pub fn disconnect(&mut self) -> (r: Vec<StreamRef>)
        requires
            old(self)@.wf(),
        ensures
            r@ == old(self)@.all_streams(),
            final(self)@ == old(self)@.disconnect(),
            final(self)@.wf(),
    {
        proof {
            reveal(ConView::disconnect);
        }
        if self.state.error.is_none() {
            self.state.error = Some(OperationError::Disconnected);
        }
        self.act(Action::Capacity);
        proof {
            old(self)@.same_streams(self@, self@.slots.len());
        }
        let streams = self.take_streams();
        self.set_failed_all(&streams, OperationError::Disconnected);
        streams
    }
}

impl ConView {
    /// The list of registered streams depends on nothing but the streams.
    proof fn same_streams(self, other: ConView, n: nat)
        requires
            self.slots == other.slots,
            self.streams == other.streams,
        ensures
            self.streams_below(n) == other.streams_below(n),
        decreases n,
    {
        if n > 0 {
            self.same_streams(other, (n - 1) as nat);
        }
    }
}

} // verus!
