//! Messages about a connection as a whole.
use std::io;

use vstd::prelude::*;

use crate::frame::go_away::GoAwayView;
use crate::frame::{Frame, FrameView, StreamId};
use crate::{error, frame};

verus! {

/// `std::io::Error`, the error of a transport.
#[verifier::external_type_specification]
#[verifier::external_body]
pub struct ExIoError(std::io::Error);

/// A message for the control service. `E` is the error of the publish service.
pub enum Control<E> {
    /// Connection is prepared to disconnect
    Disconnect(Reason<E>),
    /// Protocol dispatcher is terminated
    Terminated(Terminated),
}

/// Disconnect reason
pub enum Reason<E> {
    /// Application level error from publish service
    Error(Error<E>),
    /// Protocol level error
    ProtocolError(ConnectionError),
    /// Remote GoAway is received
    GoAway(GoAway),
    /// Peer is gone
    PeerGone(PeerGone),
}

/// What the control service answers: the frame that is sent before the
/// connection is closed.
pub struct ControlAck {
    pub frame: Option<Frame>,
}

/// What a control message says.
#[verifier::ext_equal]
pub enum ControlView<E> {
    /// An error of the publish service, and the frame that answers it.
    Error(E, GoAwayView),
    /// A protocol level error, and the frame that answers it.
    ProtocolError(error::ConnectionError, GoAwayView),
    /// The frame that the peer has sent.
    GoAway(GoAwayView),
    PeerGone(Option<io::Error>),
    Terminated,
}

impl View for ControlAck {
    type V = Option<FrameView>;

    open spec fn view(&self) -> Option<FrameView> {
        match self.frame {
            Some(f) => Some(f@),
            None => None,
        }
    }
}

impl<E> View for Reason<E> {
    type V = ControlView<E>;

    open spec fn view(&self) -> ControlView<E> {
        match *self {
            Reason::Error(e) => ControlView::Error(e.err, e.goaway@),
            Reason::ProtocolError(e) => ControlView::ProtocolError(e.err, e.frm@),
            Reason::GoAway(frm) => ControlView::GoAway(frm.0@),
            Reason::PeerGone(gone) => ControlView::PeerGone(gone.0),
        }
    }
}

impl<E> View for Control<E> {
    type V = ControlView<E>;

    open spec fn view(&self) -> ControlView<E> {
        match *self {
            Control::Disconnect(reason) => reason@,
            Control::Terminated(_) => ControlView::Terminated,
        }
    }
}

impl<E> ControlView<E> {
    /// The frame that answers a message by default. Errors of this side are
    /// answered; where the peer has left there is nobody to answer.
    pub open spec fn ack(self) -> Option<FrameView> {
        match self {
            ControlView::Error(_, frm) => Some(FrameView::GoAway(frm)),
            ControlView::ProtocolError(_, frm) => Some(FrameView::GoAway(frm)),
            ControlView::GoAway(_) => None,
            ControlView::PeerGone(_) => None,
            ControlView::Terminated => None,
        }
    }
}

/// The frame that answers an error of the publish service.
pub open spec fn error_goaway(stream: Option<StreamId>) -> GoAwayView {
    GoAwayView {
        last_stream_id: match stream {
            Some(id) => id,
            None => StreamId(0),
        },
        ..GoAwayView::plain(frame::Reason::INTERNAL_ERROR)
    }
}

impl<E> Control<E> {
    /// Create a new `Control` message for app level errors
    pub fn error(err: E, stream: Option<StreamId>) -> (r: Control<E>)
        ensures
            r@ == ControlView::<E>::Error(err, error_goaway(stream)),
    {
        Control::Disconnect(Reason::Error(Error::new(err, stream)))
    }

    /// Create a new `Control` message from GOAWAY packet.
    pub fn go_away(frm: frame::GoAway) -> (r: Control<E>)
        ensures
            r@ == ControlView::<E>::GoAway(frm@),
    {
        Control::Disconnect(Reason::GoAway(GoAway(frm)))
    }

    /// Create a new `Control` message from DISCONNECT packet.
    pub fn peer_gone(err: Option<io::Error>) -> (r: Control<E>)
        ensures
            r@ == ControlView::<E>::PeerGone(err),
    {
        Control::Disconnect(Reason::PeerGone(PeerGone(err)))
    }

    /// Create a new `Control` message for protocol level errors
    pub fn proto_error(err: error::ConnectionError) -> (r: Control<E>)
        ensures
            r@ == ControlView::<E>::ProtocolError(err, err.goaway()),
    {
        Control::Disconnect(Reason::ProtocolError(ConnectionError::new(err)))
    }

    pub fn terminated() -> (r: Control<E>)
        ensures
            r@ == ControlView::<E>::Terminated,
    {
        Control::Terminated(Terminated)
    }

    /// Default ack impl
    pub fn ack(self) -> (r: ControlAck)
        ensures
            r@ == self@.ack(),
    {
        match self {
            Control::Disconnect(item) => item.ack(),
            Control::Terminated(item) => item.ack(),
        }
    }
}

impl<E> Reason<E> {
    /// Default ack impl
    pub fn ack(self) -> (r: ControlAck)
        ensures
            r@ == self@.ack(),
    {
        match self {
            Reason::Error(item) => item.ack(),
            Reason::ProtocolError(item) => item.ack(),
            Reason::GoAway(item) => item.ack(),
            Reason::PeerGone(item) => item.ack(),
        }
    }
}

/// Application level error
pub struct Error<E> {
    pub err: E,
    pub goaway: frame::GoAway,
}

impl<E> Error<E> {
    pub fn new(err: E, stream: Option<StreamId>) -> (r: Error<E>)
        ensures
            r.err == err,
            r.goaway@ == error_goaway(stream),
    {
        let goaway = match stream {
            Some(id) => frame::GoAway::new(frame::Reason::INTERNAL_ERROR).set_last_stream_id(id),
            None => frame::GoAway::new(frame::Reason::INTERNAL_ERROR),
        };
        Error { err, goaway }
    }

    /// Returns reference to the error
    pub fn get_ref(&self) -> (r: &E)
        ensures
            *r == self.err,
    {
        &self.err
    }

    /// Set reason code for go away packet
    pub fn reason(self, reason: frame::Reason) -> (r: Error<E>)
        ensures
            r.err == self.err,
            r.goaway@ == (GoAwayView { error_code: reason, ..self.goaway@ }),
    {
        Error { err: self.err, goaway: self.goaway.set_reason(reason) }
    }

    /// Ack service error, return disconnect packet and close connection.
    pub fn ack(self) -> (r: ControlAck)
        ensures
            r@ == Some(FrameView::GoAway(self.goaway@)),
    {
        ControlAck { frame: Some(Frame::GoAway(self.goaway)) }
    }
}

/// Dispatcher has been terminated
#[derive(Debug)]
pub struct Terminated;

impl Terminated {
    /// convert packet to a result
    pub fn ack(self) -> (r: ControlAck)
        ensures
            r@ == None::<FrameView>,
    {
        ControlAck { frame: None }
    }
}

/// Protocol level error
pub struct ConnectionError {
    pub err: error::ConnectionError,
    pub frm: frame::GoAway,
}

impl ConnectionError {
    pub fn new(err: error::ConnectionError) -> (r: ConnectionError)
        ensures
            r.err == err,
            r.frm@ == err.goaway(),
    {
        ConnectionError { frm: err.to_goaway(), err }
    }

    /// Returns reference to a protocol error
    pub fn get_ref(&self) -> (r: &error::ConnectionError)
        ensures
            *r == self.err,
    {
        &self.err
    }

    /// Set reason code for go away packet
    pub fn reason(self, reason: frame::Reason) -> (r: ConnectionError)
        ensures
            r.err == self.err,
            r.frm@ == (GoAwayView { error_code: reason, ..self.frm@ }),
    {
        ConnectionError { err: self.err, frm: self.frm.set_reason(reason) }
    }

    /// Ack protocol error, return disconnect packet and close connection.
    pub fn ack(self) -> (r: ControlAck)
        ensures
            r@ == Some(FrameView::GoAway(self.frm@)),
    {
        ControlAck { frame: Some(Frame::GoAway(self.frm)) }
    }
}

/// The peer is gone, with the error of the transport where there is one.
#[derive(Debug)]
pub struct PeerGone(pub Option<io::Error>);

impl PeerGone {
    /// Returns error reference
    pub fn err(&self) -> (r: Option<&io::Error>)
        ensures
            match self.0 {
                Some(e) => r == Some(&e),
                None => r is None,
            },
    {
        self.0.as_ref()
    }

    /// Take error
    pub fn take(&mut self) -> (r: Option<io::Error>)
        ensures
            r == old(self).0,
            final(self).0 is None,
    {
        self.0.take()
    }

    pub fn ack(self) -> (r: ControlAck)
        ensures
            r@ == None::<FrameView>,
    {
        ControlAck { frame: None }
    }
}

/// The peer leaves.
pub struct GoAway(pub frame::GoAway);

impl GoAway {
    /// Returns the frame of the peer
    pub fn frame(&self) -> (r: &frame::GoAway)
        ensures
            r@ == self.0@,
    {
        &self.0
    }

    pub fn ack(self) -> (r: ControlAck)
        ensures
            r@ == None::<FrameView>,
    {
        ControlAck { frame: None }
    }
}

} // verus!
