//! What follows from the items that a connection reads.
//!
//! The dispatcher decides, and its owner calls the services: it hands messages
//! to the publish service and to the control service, and what they answer back
//! to the dispatcher.
use std::io;

use vstd::prelude::*;

use crate::codec::EncoderError;
use crate::connection::recv::{received, SettingsError};
use crate::connection::view::{ConView, EitherError, Received, SettingsErrorView};
use crate::connection::Connection;
use crate::control::{Control, ControlAck, ControlView};
use crate::error::{ConnectionError, OperationError, StreamError, StreamErrorInner};
use crate::frame::ping::PingView;
use crate::frame::{Frame, FrameError, FrameView, GoAway, Ping, Reason, Reset, StreamId};
use crate::message::{EofView, KindView, Message, MessageView};
use crate::stream::StreamRef;

verus! {

/// Why no more frames are read.
pub enum StopReason {
    Encoder(EncoderError),
    Decoder(FrameError),
    KeepAliveTimeout,
    ReadTimeout,
    Io(Option<io::Error>),
}

/// What a connection has read.
pub enum DispatchItem {
    Item(Frame),
    Stop(StopReason),
    Control,
}

/// What is to be done about an item.
pub enum Step<E> {
    /// Nothing more.
    Done,
    /// Write a frame.
    Reply(Frame),
    /// Call the publish service, and go on with `publish_done`.
    Publish(Message),
    /// Go on with `stream_failed` for each of the streams, one after the other.
    StreamErrors(Vec<StreamErrorInner>),
    /// Call the publish service for each of the messages in the background. Call
    /// the control service, where it has not been called yet, and go on with
    /// `control_done`.
    Disconnect(Vec<Message>, Option<Control<E>>),
}

#[verifier::ext_equal]
pub enum StepView<E> {
    Done,
    Reply(FrameView),
    Publish(MessageView),
    StreamErrors(Seq<StreamErrorInner>),
    Disconnect(Seq<MessageView>, Option<ControlView<E>>),
}

/// Whether the services are ready.
pub enum ReadyStep<E> {
    Ready,
    Failed,
    /// Call the control service, and go on with `ready_done`.
    Control(Control<E>),
}

/// A list of messages by what they say.
pub open spec fn messages_view(messages: Seq<Message>) -> Seq<MessageView> {
    messages.map_values(|m: Message| m@)
}

/// A control message by what it says.
pub open spec fn opt_control<E>(control: Option<Control<E>>) -> Option<ControlView<E>> {
    match control {
        Some(c) => Some(c@),
        None => None,
    }
}

impl<E> View for Step<E> {
    type V = StepView<E>;

    open spec fn view(&self) -> StepView<E> {
        match *self {
            Step::Done => StepView::Done,
            Step::Reply(f) => StepView::Reply(f@),
            Step::Publish(m) => StepView::Publish(m@),
            Step::StreamErrors(errs) => StepView::StreamErrors(errs@),
            Step::Disconnect(messages, control) => StepView::Disconnect(
                messages_view(messages@),
                opt_control(control),
            ),
        }
    }
}

/// HTTP/2 dispatcher.
pub struct Dispatcher {
    pub connection: Connection,
    /// The control service has been told about the end of the connection.
    pub disconnected: bool,
}

#[verifier::ext_equal]
pub struct DispatcherView {
    pub con: ConView,
    pub disconnected: bool,
}

impl View for Dispatcher {
    type V = DispatcherView;

    open spec fn view(&self) -> DispatcherView {
        DispatcherView { con: self.connection@, disconnected: self.disconnected }
    }
}

/// The last message of each stream of a lost connection.
pub open spec fn disconnects(streams: Seq<StreamRef>, err: OperationError) -> Seq<MessageView> {
    streams.map_values(
        |s: StreamRef| MessageView { stream: s, kind: KindView::Disconnect(err) },
    )
}

impl ConView {
    /// The counters of the connection can take a frame.
    pub open spec fn takes(self, f: FrameView) -> bool {
        &&& self.has_room()
        &&& f matches FrameView::Data(v) ==> self.admits(v)
    }
}

impl DispatcherView {
    pub open spec fn with(self, con: ConView) -> DispatcherView {
        DispatcherView { con, ..self }
    }

    /// The control service is told about the end of a connection once.
    pub open spec fn ending<E>(self, messages: Seq<MessageView>, control: ControlView<E>) -> (
        DispatcherView,
        StepView<E>,
    ) {
        if self.disconnected {
            (self, StepView::Disconnect(messages, None))
        } else {
            (
                DispatcherView { disconnected: true, ..self },
                StepView::Disconnect(messages, Some(control)),
            )
        }
    }

    /// The peer has broken the protocol.
    pub open spec fn broken<E>(self, err: ConnectionError) -> (DispatcherView, StepView<E>) {
        self.with(self.con.proto_error(err)).ending(
            disconnects(self.con.all_streams(), OperationError::Connection(err)),
            ControlView::ProtocolError(err, err.goaway()),
        )
    }

    /// The connection has timed out.
    pub open spec fn timed_out<E>(self, err: ConnectionError) -> (DispatcherView, StepView<E>) {
        self.with(self.con.timed_out(err)).ending(
            disconnects(self.con.all_streams(), OperationError::Connection(err)),
            ControlView::ProtocolError(err, err.goaway()),
        )
    }

    /// A stream is reset because of an error, and its user is told.
    pub open spec fn stream_error<E>(self, err: StreamErrorInner) -> (DispatcherView, StepView<E>) {
        let s = err.stream;
        let reason = err.kind.spec_reason();
        let failed = if err.kind is Reset {
            self.con.failed(s, OperationError::Stream(err.kind))
        } else {
            self.con
        };
        let next = if failed.slot(s).closed() {
            failed.reset_frame(failed.slot(s).id, reason)
        } else {
            failed.reset(s, reason)
        };
        (
            self.with(next),
            StepView::Publish(
                MessageView { stream: s, kind: KindView::Eof(EofView::Error(err.kind)) },
            ),
        )
    }

    /// What follows from a frame that may be a message.
    pub open spec fn handle_message<E>(self, r: (ConView, Received)) -> (
        DispatcherView,
        StepView<E>,
    ) {
        let next = self.with(r.0);
        match r.1 {
            Ok(Some(msg)) => (next, StepView::Publish(msg)),
            Ok(None) => (next, StepView::Done),
            Err(EitherError::Connection(err)) => next.broken(err),
            Err(EitherError::Stream(err)) => next.stream_error(err),
        }
    }

    /// A result without a message.
    pub open spec fn no_message(r: (ConView, Result<(), EitherError>)) -> (ConView, Received) {
        (
            r.0,
            match r.1 {
                Ok(_) => Ok(None),
                Err(e) => Err(e),
            },
        )
    }

    /// What follows from a frame.
    pub open spec fn call_frame<E>(self, f: FrameView) -> (DispatcherView, StepView<E>) {
        match f {
            FrameView::Headers(v) => self.handle_message(self.con.recv_headers(v)),
            FrameView::Data(v) => self.handle_message(self.con.recv_data(v)),
            FrameView::Settings(v) => match self.con.recv_settings(v) {
                (con, Ok(_)) => (self.with(con), StepView::Done),
                (con, Err(SettingsErrorView::Connection(err))) => self.with(con).broken(err),
                (con, Err(SettingsErrorView::Streams(errs))) => (
                    self.with(con),
                    StepView::StreamErrors(errs),
                ),
            },
            FrameView::WindowUpdate(v) => self.handle_message(
                DispatcherView::no_message(self.con.recv_window_update(v)),
            ),
            FrameView::Reset(v) => self.handle_message(
                DispatcherView::no_message(self.con.recv_rst_stream(v)),
            ),
            FrameView::Ping(v) => if v.ack {
                (self.with(self.con.with_pong(true)), StepView::Done)
            } else {
                (self, StepView::Reply(FrameView::Ping(PingView { ack: true, ..v })))
            },
            FrameView::GoAway(v) => self.with(self.con.recv_go_away(v.error_code)).ending(
                disconnects(
                    self.con.all_streams(),
                    OperationError::Connection(ConnectionError::GoAway(v.error_code)),
                ),
                ControlView::GoAway(v),
            ),
            FrameView::Priority(_) => (self, StepView::Done),
        }
    }

    /// What follows from headers that are too many: their stream is refused.
    pub open spec fn too_many_headers<E>(self, id: StreamId) -> (DispatcherView, StepView<E>) {
        let refused = self.con.drop_stream(id.0).reset_frame(id, Reason::REFUSED_STREAM);
        match refused.count_reset() {
            (con, Err(err)) => self.with(con).broken(err),
            (con, Ok(_)) => (self.with(con), StepView::Done),
        }
    }

    /// What follows from the end of a connection.
    pub open spec fn call_stop<E>(self, reason: StopReason) -> (DispatcherView, StepView<E>) {
        match reason {
            StopReason::Encoder(err) => self.broken(ConnectionError::Encoder(err)),
            StopReason::Decoder(FrameError::TooManyHeaders(id)) => self.too_many_headers(id),
            StopReason::Decoder(err) => self.broken(ConnectionError::Decoder(err)),
            StopReason::KeepAliveTimeout => self.timed_out(ConnectionError::KeepaliveTimeout),
            StopReason::ReadTimeout => self.timed_out(ConnectionError::ReadTimeout),
            StopReason::Io(err) => self.with(self.con.disconnect()).ending(
                disconnects(self.con.all_streams(), OperationError::Disconnected),
                ControlView::PeerGone(err),
            ),
        }
    }
}

/// The last message of each stream of a lost connection.
fn disconnect_messages(streams: Vec<StreamRef>, err: OperationError) -> (r: Vec<Message>)
    ensures
        messages_view(r@) == disconnects(streams@, err),
{
    let mut messages: Vec<Message> = Vec::new();
    let mut i: usize = 0;
    while i < streams.len()
        invariant
            i <= streams@.len(),
            messages_view(messages@) =~= disconnects(streams@.take(i as int), err),
        decreases streams@.len() - i,
    {
        let ghost before = messages@;
        let msg = Message::disconnect(err, streams[i]);
        messages.push(msg);
        assert(messages_view(messages@) =~= messages_view(before).push(msg@));
        assert(disconnects(streams@.take(i + 1), err) =~= disconnects(
            streams@.take(i as int),
            err,
        ).push(msg@));
        i = i + 1;
    }
    assert(streams@.take(i as int) =~= streams@);
    messages
}

impl Dispatcher {
    pub fn new(connection: Connection) -> (r: Dispatcher)
        ensures
            r@ == (DispatcherView { con: connection@, disconnected: false }),
    {
        Dispatcher { connection, disconnected: false }
    }

    /// Whether the control service has not been told yet. It is told once.
    fn can_disconnect(&mut self) -> (r: bool)
        ensures
            r == !old(self)@.disconnected,
            final(self)@ == (DispatcherView { disconnected: true, ..old(self)@ }),
            final(self).connection == old(self).connection,
    {
        if self.disconnected {
            false
        } else {
            self.disconnected = true;
            true
        }
    }

    fn ending<E>(&mut self, messages: Vec<Message>, control: Control<E>) -> (r: Step<E>)
        ensures
            (final(self)@, r@) == old(self)@.ending::<E>(messages_view(messages@), control@),
            final(self).connection == old(self).connection,
    {
        if self.can_disconnect() {
            Step::Disconnect(messages, Some(control))
        } else {
            Step::Disconnect(messages, None)
        }
    }

    fn broken<E>(&mut self, err: ConnectionError) -> (r: Step<E>)
        requires
            old(self)@.con.wf(),
        ensures
            (final(self)@, r@) == old(self)@.broken::<E>(err),
            final(self)@.con.wf(),
    {
        let streams = self.connection.proto_error(&err);
        let messages = disconnect_messages(streams, OperationError::Connection(err));
        self.ending(messages, Control::proto_error(err))
    }

    fn stream_error<E>(&mut self, err: StreamErrorInner) -> (r: Step<E>)
        requires
            old(self)@.con.wf(),
            old(self)@.con.has(err.stream),
        ensures
            (final(self)@, r@) == old(self)@.stream_error::<E>(err),
            final(self)@.con.wf(),
    {
        let (stream, kind) = err.into_inner();
        if let StreamError::Reset(_) = kind {
            stream.set_failed_stream(&mut self.connection, OperationError::Stream(kind));
        }
        let id = stream.id(&self.connection);
        if !stream.reset(&mut self.connection, kind.reason()) {
            self.connection.encode(Frame::Reset(Reset::new(id, kind.reason())));
        }
        Step::Publish(Message::error(kind, stream))
    }

    fn handle_message<E>(
        &mut self,
        result: Result<Option<Message>, EitherError>,
        Ghost(before): Ghost<DispatcherView>,
    ) -> (r: Step<E>)
        requires
            old(self)@.con.wf(),
            old(self)@.disconnected == before.disconnected,
            crate::connection::recv::result_has(old(self)@.con, result),
        ensures
            (final(self)@, r@) == before.handle_message::<E>((old(self)@.con, received(result))),
            final(self)@.con.wf(),
            !(r is StreamErrors),
    {
        match result {
            Ok(Some(msg)) => Step::Publish(msg),
            Ok(None) => Step::Done,
            Err(EitherError::Connection(err)) => self.broken(err),
            Err(EitherError::Stream(err)) => self.stream_error(err),
        }
    }

    /// Handles a frame.
    fn call_frame<E>(&mut self, frame: Frame) -> (r: Step<E>)
        requires
            old(self)@.con.wf(),
            frame@.valid(),
            old(self)@.con.takes(frame@),
        ensures
            (final(self)@, r@) == old(self)@.call_frame::<E>(frame@),
            final(self)@.con.wf(),
            r matches Step::StreamErrors(errs) ==> forall|k: int|
                0 <= k < errs@.len() ==> final(self)@.con.has((#[trigger] errs@[k]).stream),
    {
        let ghost before = self@;
        match frame {
            Frame::Headers(hdrs) => {
                let result = self.connection.recv_headers(hdrs);
                self.handle_message(result, Ghost(before))
            },
            Frame::Data(data) => {
                let result = self.connection.recv_data(data);
                self.handle_message(result, Ghost(before))
            },
            Frame::Settings(settings) => match self.connection.recv_settings(settings) {
                Err(SettingsError::Connection(err)) => self.broken(err),
                Err(SettingsError::Streams(errs)) => Step::StreamErrors(errs),
                Ok(_) => Step::Done,
            },
            Frame::WindowUpdate(update) => {
                let result = match self.connection.recv_window_update(update) {
                    Ok(_) => Ok(None),
                    Err(e) => Err(e),
                };
                self.handle_message(result, Ghost(before))
            },
            Frame::Reset(reset) => {
                let result = match self.connection.recv_rst_stream(reset) {
                    Ok(_) => Ok(None),
                    Err(e) => Err(e),
                };
                self.handle_message(result, Ghost(before))
            },
            Frame::Ping(ping) => {
                if ping.is_ack() {
                    self.connection.recv_pong(ping);
                    Step::Done
                } else {
                    Step::Reply(Frame::Ping(Ping::pong(ping.into_payload())))
                }
            },
            Frame::GoAway(frm) => {
                let reason = frm.reason();
                let streams = self.connection.recv_go_away(reason);
                let messages = disconnect_messages(
                    streams,
                    OperationError::Connection(ConnectionError::GoAway(reason)),
                );
                self.ending(messages, Control::go_away(frm))
            },
            Frame::Priority(_) => Step::Done,
        }
    }
}

impl Dispatcher {
    fn timed_out<E>(&mut self, err: ConnectionError, streams: Vec<StreamRef>) -> (r: Step<E>)
        ensures
            (final(self)@, r@) == old(self)@.ending::<E>(
                disconnects(streams@, OperationError::Connection(err)),
                ControlView::ProtocolError(err, err.goaway()),
            ),
            final(self).connection == old(self).connection,
    {
        let messages = disconnect_messages(streams, OperationError::Connection(err));
        self.ending(messages, Control::proto_error(err))
    }

    fn too_many_headers<E>(&mut self, id: StreamId) -> (r: Step<E>)
        requires
            old(self)@.con.wf(),
            old(self)@.con.has_room(),
        ensures
            (final(self)@, r@) == old(self)@.too_many_headers::<E>(id),
            final(self)@.con.wf(),
    {
        self.connection.drop_stream(id);
        self.connection.encode(Frame::Reset(Reset::new(id, Reason::REFUSED_STREAM)));
        match self.connection.update_rst_count() {
            Err(err) => self.broken(err),
            Ok(_) => Step::Done,
        }
    }

    /// Handles the end of a connection.
    fn call_stop<E>(&mut self, reason: StopReason) -> (r: Step<E>)
        requires
            old(self)@.con.wf(),
            old(self)@.con.has_room(),
        ensures
            (final(self)@, r@) == old(self)@.call_stop::<E>(reason),
            final(self)@.con.wf(),
            !(r is StreamErrors),
    {
        match reason {
            StopReason::Encoder(err) => self.broken(ConnectionError::Encoder(err)),
            StopReason::Decoder(FrameError::TooManyHeaders(id)) => self.too_many_headers(id),
            StopReason::Decoder(err) => self.broken(ConnectionError::Decoder(err)),
            StopReason::KeepAliveTimeout => {
                let streams = self.connection.ping_timeout();
                self.timed_out(ConnectionError::KeepaliveTimeout, streams)
            },
            StopReason::ReadTimeout => {
                let streams = self.connection.read_timeout();
                self.timed_out(ConnectionError::ReadTimeout, streams)
            },
            StopReason::Io(err) => {
                let streams = self.connection.disconnect();
                let messages = disconnect_messages(streams, OperationError::Disconnected);
                self.ending(messages, Control::peer_gone(err))
            },
        }
    }

    /// Handles an item that the connection has read.
    pub fn call<E>(&mut self, item: DispatchItem) -> (r: Step<E>)
        requires
            old(self)@.con.wf(),
            old(self)@.con.has_room(),
            item matches DispatchItem::Item(f) ==> f@.valid() && old(self)@.con.takes(f@),
        ensures
            (final(self)@, r@) == match item {
                DispatchItem::Item(f) => old(self)@.call_frame::<E>(f@),
                DispatchItem::Stop(reason) => old(self)@.call_stop::<E>(reason),
                DispatchItem::Control => (old(self)@, StepView::<E>::Done),
            },
            final(self)@.con.wf(),
            r matches Step::StreamErrors(errs) ==> forall|k: int|
                0 <= k < errs@.len() ==> final(self)@.con.has((#[trigger] errs@[k]).stream),
    {
        match item {
            DispatchItem::Item(frame) => self.call_frame(frame),
            DispatchItem::Stop(reason) => self.call_stop(reason),
            DispatchItem::Control => Step::Done,
        }
    }

    /// Ends a stream whose window could not follow the settings.
    pub fn stream_failed(&mut self, err: StreamErrorInner) -> (r: Message)
        requires
            old(self)@.con.wf(),
            old(self)@.con.has(err.stream),
        ensures
            final(self)@ == old(self)@.with(
                old(self)@.con.failed(err.stream, OperationError::Stream(err.kind)).reset_frame(
                    old(self)@.con.slot(err.stream).id,
                    err.kind.spec_reason(),
                ),
            ),
            r@ == (MessageView {
                stream: err.stream,
                kind: KindView::Eof(EofView::Error(err.kind)),
            }),
            final(self)@.con.wf(),
    {
        let (stream, kind) = err.into_inner();
        stream.set_failed_stream(&mut self.connection, OperationError::Stream(kind));
        let id = stream.id(&self.connection);
        self.connection.encode(Frame::Reset(Reset::new(id, kind.reason())));
        Message::error(kind, stream)
    }

    /// Whether the publish service need not go on with a message: the peer has
    /// opened the stream, and the stream does not take an answer any more.
    pub fn is_publish_canceled(&self, stream: StreamRef) -> (r: bool)
        requires
            self@.con.has(stream),
        ensures
            r == (self@.con.slot(stream).flags.remote && (self@.con.slot(stream).send is Closed
                || self@.con.stream_error(stream) is Some)),
    {
        if stream.is_remote(&self.connection) {
            match stream.poll_send_reset(&self.connection) {
                Ok(closed) => closed,
                Err(_) => true,
            }
        } else {
            false
        }
    }

    /// Goes on after the publish service has handled a message. Its error ends
    /// the connection.
    pub fn publish_done<E>(&mut self, stream: StreamRef, result: Result<(), E>) -> (r: Step<E>)
        requires
            old(self)@.con.has(stream),
        ensures
            (final(self)@, r@) == match result {
                Ok(_) => (old(self)@, StepView::<E>::Done),
                Err(e) => old(self)@.ending::<E>(
                    Seq::empty(),
                    ControlView::Error(
                        e,
                        crate::control::error_goaway(Some(old(self)@.con.slot(stream).id)),
                    ),
                ),
            },
            final(self).connection == old(self).connection,
    {
        match result {
            Ok(_) => Step::Done,
            Err(e) => {
                let id = stream.id(&self.connection);
                let messages: Vec<Message> = Vec::new();
                assert(messages_view(messages@) =~= Seq::<MessageView>::empty());
                self.ending(messages, Control::error(e, Some(id)))
            },
        }
    }

    /// Goes on after the control service has been called: sends what it answers,
    /// and closes the connection. It cannot fail without a GOAWAY.
    pub fn control_done(&mut self, result: Result<ControlAck, ()>)
        requires
            old(self)@.con.wf(),
        ensures
            final(self)@ == old(self)@.with(
                match result {
                    Ok(ack) => match ack@ {
                        Some(f) => old(self)@.con.send(f).close(),
                        None => old(self)@.con.close(),
                    },
                    Err(_) => old(self)@.con.go_away_frame(Reason::INTERNAL_ERROR).close(),
                },
            ),
            final(self)@.con.wf(),
    {
        match result {
            Ok(res) => {
                if let Some(frm) = res.frame {
                    self.connection.encode(frm);
                }
                self.connection.close();
            },
            Err(_) => {
                // we cannot handle control service errors, close connection
                self.connection.encode(
                    Frame::GoAway(
                        GoAway::new(Reason::INTERNAL_ERROR).set_last_stream_id(StreamId::zero()),
                    ),
                );
                self.connection.close();
            },
        }
    }

    /// Checks whether both services are ready. An error of the publish service is
    /// for the control service, as long as that one is ready.
    pub fn ready<E>(publish: Result<(), E>, control: Result<(), ()>) -> (r: ReadyStep<E>)
        ensures
            match (publish, control) {
                (Ok(_), Ok(_)) => r is Ready,
                (_, Err(_)) => r is Failed,
                (Err(e), Ok(_)) => r is Control && r->Control_0@ == ControlView::<E>::Error(
                    e,
                    crate::control::error_goaway(None),
                ),
            },
    {
        match publish {
            Err(e) => match control {
                Err(_) => ReadyStep::Failed,
                Ok(_) => ReadyStep::Control(Control::error(e, None)),
            },
            Ok(_) => match control {
                Err(_) => ReadyStep::Failed,
                Ok(_) => ReadyStep::Ready,
            },
        }
    }

    /// Goes on after the control service has handled an error of readiness.
    pub fn ready_done(&mut self, result: Result<ControlAck, ()>) -> (r: Result<(), ()>)
        requires
            old(self)@.con.wf(),
        ensures
            match result {
                Ok(_) => r is Ok && final(self)@ == old(self)@.with(old(self)@.con.disconnect()),
                Err(_) => r is Err && final(self)@ == old(self)@,
            },
            final(self)@.con.wf(),
    {
        match result {
            Ok(_) => {
                self.connection.disconnect();
                Ok(())
            },
            Err(_) => Err(()),
        }
    }

    /// The services are shut down, the connection is lost.
    pub fn shutdown(&mut self)
        requires
            old(self)@.con.wf(),
        ensures
            final(self)@ == old(self)@.with(old(self)@.con.disconnect()),
            final(self)@.con.wf(),
    {
        self.connection.disconnect();
    }
}

} // verus!
