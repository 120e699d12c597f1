//! The lifetime of a server connection's services.
use std::io;

use vstd::prelude::*;

use crate::control::{Control, ControlAck, ControlView};
use crate::error::ConnectionError;
use crate::frame::go_away::GoAwayView;
use crate::frame::{Frame, FrameView, GoAway, Reason, StreamId};
use crate::hpack::header::bytes_of;
use crate::http;

verus! {

/// How far the shutdown of the services has come.
#[derive(Debug, Copy, Clone, PartialEq, Eq, Structural)]
pub enum Shutdown {
    NotSet,
    /// The control service is told that the dispatcher is terminated.
    InProcess,
    Done,
}

/// What a shutdown waits for.
#[derive(Debug, Copy, Clone, PartialEq, Eq, Structural)]
pub enum ShutdownStep {
    /// Call the control service with `Terminated`.
    Terminate,
    /// Poll that call again.
    Wait,
    /// Shut both services down.
    Services,
}

impl Shutdown {
    /// Goes on with a shutdown. `answered` says whether the control service has
    /// answered, where it has been called.
    pub fn poll(&mut self, answered: bool) -> (r: ShutdownStep)
        ensures
            match *old(self) {
                Shutdown::NotSet => r == ShutdownStep::Terminate && *final(self)
                    == Shutdown::InProcess,
                Shutdown::InProcess => if answered {
                    r == ShutdownStep::Services && *final(self) == Shutdown::Done
                } else {
                    r == ShutdownStep::Wait && *final(self) == Shutdown::InProcess
                },
                Shutdown::Done => r == ShutdownStep::Services && *final(self) == Shutdown::Done,
            },
    {
        match *self {
            Shutdown::NotSet => {
                *self = Shutdown::InProcess;
                ShutdownStep::Terminate
            },
            Shutdown::InProcess => if answered {
                *self = Shutdown::Done;
                ShutdownStep::Services
            } else {
                ShutdownStep::Wait
            },
            Shutdown::Done => ShutdownStep::Services,
        }
    }
}

/// What a server has read, as far as its control service is concerned.
pub enum ServerItem {
    /// A frame that the connection has handled, with what came of it.
    Handled(Result<(), ConnectionError>),
    /// An item that nothing follows from.
    Ignored,
    PushPromise,
    GoAway(GoAway),
    Disconnect(Option<io::Error>),
}

/// The frame that refuses a push.
pub open spec fn push_refused() -> GoAwayView {
    GoAwayView {
        data: http::text_bytes("PUSHPROMISE is disabled"@),
        ..GoAwayView::plain(Reason::PROTOCOL_ERROR)
    }
}

/// What the control service of a server is told about an item, if anything.
pub fn call<E>(item: ServerItem) -> (r: Option<Control<E>>)
    ensures
        crate::dispatcher::opt_control(r) == match item {
            ServerItem::Handled(Ok(_)) => None::<ControlView<E>>,
            ServerItem::Handled(Err(err)) => Some(ControlView::ProtocolError(err, err.goaway())),
            ServerItem::Ignored => None,
            ServerItem::PushPromise => Some(ControlView::GoAway(push_refused())),
            ServerItem::GoAway(frm) => Some(ControlView::GoAway(frm@)),
            ServerItem::Disconnect(err) => Some(ControlView::PeerGone(err)),
        },
{
    match item {
        ServerItem::Handled(Ok(_)) => None,
        ServerItem::Handled(Err(err)) => Some(Control::proto_error(err)),
        ServerItem::Ignored => None,
        ServerItem::PushPromise => Some(
            Control::go_away(
                GoAway::new(Reason::PROTOCOL_ERROR).set_data(bytes_of("PUSHPROMISE is disabled")),
            ),
        ),
        ServerItem::GoAway(frm) => Some(Control::go_away(frm)),
        ServerItem::Disconnect(err) => Some(Control::peer_gone(err)),
    }
}

/// The frame that follows from what the control service answers. Errors of the
/// control service cannot be handled.
pub fn control_response(result: Result<ControlAck, ()>) -> (r: Option<Frame>)
    ensures
        match result {
            Ok(ack) => r == ack.frame,
            Err(_) => r is Some && r->0@ == FrameView::GoAway(
                GoAwayView::plain(Reason::INTERNAL_ERROR),
            ),
        },
{
    match result {
        Ok(item) => item.frame,
        Err(_) => Some(
            Frame::GoAway(
                GoAway::new(Reason::INTERNAL_ERROR).set_last_stream_id(StreamId::zero()),
            ),
        ),
    }
}

} // verus!
