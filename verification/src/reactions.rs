//! What a connection answers to what it has read, from one end to the other.
use std::io;

use vstd::prelude::*;

use crate::connection::ending;
use crate::connection::sent::{self, frames};
use crate::connection::view::{ActionView, ConView, EitherError, Entry, Received};
use crate::control::ControlView;
use crate::dispatcher::{self, DispatcherView, StepView, StopReason};
use crate::error::{ConnectionError, OperationError, StreamError, StreamErrorInner};
use crate::frame::go_away::GoAwayView;
use crate::frame::ping::PingView;
use crate::frame::{FrameError, FrameView, Reason, Reset, StreamId};
use crate::message::{EofView, KindView, MessageView};
use crate::stream::{HalfState, StreamFlags, StreamRef, StreamState};

verus! {

// ===== PING =====

/// A ping is answered with its own payload, and nothing else comes of it. The answer to a
/// ping of this side is noted, and not answered.
pub proof fn ping_is_answered<E>(d: DispatcherView, payload: Seq<u8>)
    ensures
        d.call_frame::<E>(FrameView::Ping(PingView { ack: false, payload })) == (
            d,
            StepView::<E>::Reply(FrameView::Ping(PingView { ack: true, payload })),
        ),
        ({
            let (next, step) = d.call_frame::<E>(FrameView::Ping(PingView { ack: true, payload }));
            &&& step is Done
            &&& next.con.state.flags.recv_pong
            &&& next.con.actions == d.con.actions
            &&& next.con.slots == d.con.slots
            &&& next.con.state.send_window == d.con.state.send_window
            &&& next.con.state.error == d.con.state.error
        }),
{
}

// ===== The end of a connection =====

/// The last messages: one for each stream that was open, and none for another.
pub open spec fn farewells(con: ConView, messages: Seq<MessageView>, err: OperationError) -> bool {
    &&& forall|k: int|
        0 <= k < messages.len() ==> {
            let m = #[trigger] messages[k];
            &&& con.registered(m.stream.0 as int)
            &&& m.stream.0 < con.slots.len()
            &&& m.kind == KindView::Disconnect(err)
        }
    &&& forall|j: int, k: int|
        0 <= j < k < messages.len() ==> (#[trigger] messages[j]).stream.0 < (
        #[trigger] messages[k]).stream.0
    &&& forall|i: int|
        0 <= i < con.slots.len() && #[trigger] con.registered(i) ==> exists|k: int|
            0 <= k < messages.len() && (#[trigger] messages[k]).stream.0 == i
}

proof fn all_told(con: ConView, err: OperationError)
    requires
        con.wf(),
        con.slots.len() <= usize::MAX,
    ensures
        farewells(con, dispatcher::disconnects(con.all_streams(), err), err),
{
    con.streams_listed(con.slots.len());
    let list = con.all_streams();
    let messages = dispatcher::disconnects(list, err);
    assert forall|k: int| 0 <= k < messages.len() implies {
        let m = #[trigger] messages[k];
        &&& con.registered(m.stream.0 as int)
        &&& m.stream.0 < con.slots.len()
        &&& m.kind == KindView::Disconnect(err)
    } by {
        assert(messages[k].stream == list[k]);
    }
    assert forall|j: int, k: int| 0 <= j < k < messages.len() implies (
    #[trigger] messages[j]).stream.0 < (#[trigger] messages[k]).stream.0 by {
        assert(messages[j].stream == list[j] && messages[k].stream == list[k]);
    }
    assert forall|i: int| 0 <= i < con.slots.len() && #[trigger] con.registered(i) implies exists|
        k: int,
    | 0 <= k < messages.len() && (#[trigger] messages[k]).stream.0 == i by {
        assert(list.contains(StreamRef(i as usize)));
        let k = choose|k: int| 0 <= k < list.len() && list[k] == StreamRef(i as usize);
        assert(messages[k].stream.0 == i);
    }
}

/// The control service hears of the end unless it has heard of it before.
pub open spec fn told<E>(
    d: DispatcherView,
    next: DispatcherView,
    control: Option<ControlView<E>>,
    news: ControlView<E>,
) -> bool {
    &&& next.disconnected
    &&& control == if d.disconnected {
        None
    } else {
        Some(news)
    }
}

proof fn fault_is_told<E>(d: DispatcherView, err: ConnectionError)
    requires
        d.con.wf(),
        d.con.slots.len() <= usize::MAX,
    ensures
        ({
            let (next, step) = d.broken::<E>(err);
            &&& ending::all_over(
                d.con,
                next.con,
                OperationError::Connection(err),
                OperationError::Connection(err),
            )
            &&& frames(next.con.actions) == frames(d.con.actions)
            &&& step matches StepView::Disconnect(messages, control)
            &&& farewells(d.con, messages, OperationError::Connection(err))
            &&& next.disconnected
            &&& (control is None <==> d.disconnected)
            &&& control matches Some(news) ==> {
                &&& news matches ControlView::ProtocolError(e, frm)
                &&& e == err
                &&& frm.last_stream_id.0 == 0
                &&& frm.error_code == err.goaway_reason()
            }
        }),
{
    ending::fault_ends_all(d.con, err);
    all_told(d.con, OperationError::Connection(err));
}

/// What has been found out about a frame.
pub open spec fn outcome(con: ConView, f: FrameView) -> (ConView, Received) {
    match f {
        FrameView::Headers(v) => con.recv_headers(v),
        FrameView::Data(v) => con.recv_data(v),
        FrameView::WindowUpdate(v) => {
            let (next, r) = con.recv_window_update(v);
            (
                next,
                match r {
                    Ok(_) => Ok(None),
                    Err(e) => Err(e),
                },
            )
        },
        FrameView::Reset(v) => {
            let (next, r) = con.recv_rst_stream(v);
            (
                next,
                match r {
                    Ok(_) => Ok(None),
                    Err(e) => Err(e),
                },
            )
        },
        _ => (con, Ok(None)),
    }
}

/// A frame that brings a message is published, a frame that does not is silent. A frame
/// that breaks the protocol ends the connection: every open stream is told, and so is the
/// control service, with the GOAWAY frame for the error. A frame that breaks its stream
/// alone ends that one: the peer gets one RST_STREAM frame for it, and its user is told.
pub proof fn frame_is_handled<E>(d: DispatcherView, f: FrameView)
    requires
        outcome(d.con, f).0.wf(),
        outcome(d.con, f).0.slots.len() <= usize::MAX,
        f is Headers || f is Data || f is WindowUpdate || f is Reset,
        outcome(d.con, f).1 matches Err(EitherError::Stream(err)) ==> outcome(d.con, f).0.has(
            err.stream,
        ),
    ensures
        ({
            let (con, r) = outcome(d.con, f);
            let (next, step) = d.call_frame::<E>(f);
            match r {
                Ok(Some(msg)) => {
                    &&& step == StepView::<E>::Publish(msg)
                    &&& next.con == con
                    &&& next.disconnected == d.disconnected
                },
                Ok(None) => {
                    &&& step is Done
                    &&& next.con == con
                    &&& next.disconnected == d.disconnected
                },
                Err(EitherError::Connection(err)) => {
                    &&& ending::all_over(
                        con,
                        next.con,
                        OperationError::Connection(err),
                        OperationError::Connection(err),
                    )
                    &&& frames(next.con.actions) == frames(con.actions)
                    &&& next.disconnected
                    &&& step matches StepView::Disconnect(messages, control)
                    &&& farewells(con, messages, OperationError::Connection(err))
                    &&& (control is None <==> d.disconnected)
                    &&& control matches Some(news) ==> {
                        &&& news matches ControlView::ProtocolError(e, frm)
                        &&& e == err
                        &&& frm.last_stream_id.0 == 0
                        &&& frm.error_code == err.goaway_reason()
                    }
                },
                Err(EitherError::Stream(err)) => {
                    &&& step == StepView::<E>::Publish(
                        MessageView {
                            stream: err.stream,
                            kind: KindView::Eof(EofView::Error(err.kind)),
                        },
                    )
                    &&& frames(next.con.actions) == frames(con.actions).push(
                        FrameView::Reset(
                            Reset {
                                stream_id: con.slot(err.stream).id,
                                error_code: err.kind.spec_reason(),
                            },
                        ),
                    )
                    &&& next.con.slot(err.stream).recv is Closed
                    &&& next.con.slot(err.stream).send is Closed
                    &&& next.con.state.error == con.state.error
                    &&& next.disconnected == d.disconnected
                },
            }
        }),
{
    let (con, r) = outcome(d.con, f);
    if let Err(EitherError::Connection(err)) = r {
        fault_is_told::<E>(d.with(con), err);
    }
    if let Err(EitherError::Stream(err)) = r {
        stream_is_ended(con, err);
    }
}

proof fn stream_is_ended(con: ConView, err: StreamErrorInner)
    requires
        con.has(err.stream),
    ensures
        ({
            let s = err.stream;
            let failed = if err.kind is Reset {
                con.failed(s, OperationError::Stream(err.kind))
            } else {
                con
            };
            let reason = err.kind.spec_reason();
            let next = if failed.slot(s).closed() {
                failed.reset_frame(failed.slot(s).id, reason)
            } else {
                failed.reset(s, reason)
            };
            &&& frames(next.actions) == frames(con.actions).push(
                FrameView::Reset(Reset { stream_id: con.slot(s).id, error_code: reason }),
            )
            &&& next.slot(s).recv is Closed
            &&& next.slot(s).send is Closed
            &&& next.state.error == con.state.error
        }),
{
    let s = err.stream;
    let st = con.slot(s);
    let shut = con.with_slot(
        s,
        StreamState {
            recv: ConView::shut(st.recv),
            send: ConView::shut(st.send),
            error: Some(OperationError::Stream(err.kind)),
            flags: StreamFlags { failed: true, ..st.flags },
            ..st
        },
    );
    sent::settle_is_silent(shut, s);
    let failed = if err.kind is Reset {
        con.failed(s, OperationError::Stream(err.kind))
    } else {
        con
    };
    let reason = err.kind.spec_reason();
    let f = FrameView::Reset(Reset { stream_id: st.id, error_code: reason });
    assert(failed.slot(s).id == st.id);
    assert(frames(failed.actions) == frames(con.actions));
    sent::frames_push(failed.actions, ActionView::Send(f));
    if !failed.slot(s).closed() {
        sent::reset_frame_sent(failed, s, reason);
        let told = failed.reset_frame(st.id, reason);
        sent::settle_is_silent(
            told.with_slot(
                s,
                StreamState {
                    recv: HalfState::Closed(Some(reason)),
                    send: HalfState::Closed(None),
                    error: Some(OperationError::LocalReset(reason)),
                    ..failed.slot(s)
                },
            ),
            s,
        );
    }
}

/// A peer that goes away resets all streams for its reason. Every one of them is told so,
/// and the control service gets the frame.
pub proof fn leave_is_told<E>(d: DispatcherView, frm: GoAwayView)
    requires
        d.con.wf(),
        d.con.slots.len() <= usize::MAX,
    ensures
        ({
            let (next, step) = d.call_frame::<E>(FrameView::GoAway(frm));
            let err = OperationError::Connection(ConnectionError::GoAway(frm.error_code));
            &&& next.con.streams == Map::<u32, Entry>::empty()
            &&& next.con.state.error == Some(err)
            &&& frames(next.con.actions) == frames(d.con.actions)
            &&& forall|i: int|
                0 <= i < d.con.slots.len() && d.con.registered(i) ==> ending::stream_reset(
                    d.con.slots[i],
                    #[trigger] next.con.slots[i],
                    frm.error_code,
                )
            &&& step matches StepView::Disconnect(messages, control)
            &&& farewells(d.con, messages, err)
            &&& told(d, next, control, ControlView::GoAway(frm))
        }),
{
    ending::leave_ends_all(d.con, frm.error_code);
    all_told(d.con, OperationError::Connection(ConnectionError::GoAway(frm.error_code)));
}

/// What is read or written wrongly is an error of the connection, and everybody is told.
pub proof fn bad_bytes_are_told<E>(d: DispatcherView, reason: StopReason)
    requires
        d.con.wf(),
        d.con.slots.len() <= usize::MAX,
        reason is Encoder || (reason matches StopReason::Decoder(e) && !(e is TooManyHeaders)),
    ensures
        ({
            let (next, step) = d.call_stop::<E>(reason);
            let err = match reason {
                StopReason::Encoder(e) => ConnectionError::Encoder(e),
                StopReason::Decoder(e) => ConnectionError::Decoder(e),
                _ => ConnectionError::ReadTimeout,
            };
            &&& ending::all_over(
                d.con,
                next.con,
                OperationError::Connection(err),
                OperationError::Connection(err),
            )
            &&& frames(next.con.actions) == frames(d.con.actions)
            &&& next.disconnected
            &&& step matches StepView::Disconnect(messages, control)
            &&& farewells(d.con, messages, OperationError::Connection(err))
            &&& (control is None <==> d.disconnected)
            &&& control matches Some(news) ==> {
                &&& news matches ControlView::ProtocolError(e, frm)
                &&& e == err
                &&& frm.error_code == Reason::PROTOCOL_ERROR
            }
        }),
{
    match reason {
        StopReason::Encoder(e) => fault_is_told::<E>(d, ConnectionError::Encoder(e)),
        StopReason::Decoder(e) => fault_is_told::<E>(d, ConnectionError::Decoder(e)),
        _ => {},
    }
}

/// A connection that is silent for too long is closed: the peer gets one GOAWAY frame
/// without an error, and everybody is told which time has run out.
pub proof fn silence_is_told<E>(d: DispatcherView, reason: StopReason)
    requires
        d.con.wf(),
        d.con.slots.len() <= usize::MAX,
        reason is KeepAliveTimeout || reason is ReadTimeout,
    ensures
        ({
            let (next, step) = d.call_stop::<E>(reason);
            let err = if reason is KeepAliveTimeout {
                ConnectionError::KeepaliveTimeout
            } else {
                ConnectionError::ReadTimeout
            };
            &&& ending::all_over(
                d.con,
                next.con,
                OperationError::Connection(err),
                OperationError::Connection(err),
            )
            &&& frames(next.con.actions) == frames(d.con.actions).push(
                FrameView::GoAway(
                    GoAwayView {
                        last_stream_id: StreamId(0),
                        error_code: Reason::NO_ERROR,
                        data: Seq::empty(),
                    },
                ),
            )
            &&& next.con.state.closed
            &&& next.disconnected
            &&& step matches StepView::Disconnect(messages, control)
            &&& farewells(d.con, messages, OperationError::Connection(err))
            &&& (control is None <==> d.disconnected)
            &&& control matches Some(news) ==> {
                &&& news matches ControlView::ProtocolError(e, frm)
                &&& e == err
                &&& frm.error_code == Reason::NO_ERROR
            }
        }),
{
    let err = if reason is KeepAliveTimeout {
        ConnectionError::KeepaliveTimeout
    } else {
        ConnectionError::ReadTimeout
    };
    ending::timeout_ends_all(d.con, err);
    all_told(d.con, OperationError::Connection(err));
}

/// A transport that is lost ends all streams, and everybody is told of the loss.
pub proof fn loss_is_told<E>(d: DispatcherView, error: Option<io::Error>)
    requires
        d.con.wf(),
        d.con.slots.len() <= usize::MAX,
    ensures
        ({
            let (next, step) = d.call_stop::<E>(StopReason::Io(error));
            &&& ending::all_over(
                d.con,
                next.con,
                match d.con.state.error {
                    Some(e) => e,
                    None => OperationError::Disconnected,
                },
                OperationError::Disconnected,
            )
            &&& frames(next.con.actions) == frames(d.con.actions)
            &&& step matches StepView::Disconnect(messages, control)
            &&& farewells(d.con, messages, OperationError::Disconnected)
            &&& told(d, next, control, ControlView::PeerGone(error))
        }),
{
    ending::loss_ends_all(d.con);
    all_told(d.con, OperationError::Disconnected);
}

/// Headers that are too many refuse their stream, and leave the connection open unless
/// that was one reset too many.
pub proof fn too_many_headers_refuse<E>(d: DispatcherView, id: StreamId)
    requires
        d.con.state.rst_count < u32::MAX,
    ensures
        ({
            let (next, step) = d.call_stop::<E>(
                StopReason::Decoder(FrameError::TooManyHeaders(id)),
            );
            let sent = frames(d.con.actions).push(
                FrameView::Reset(Reset { stream_id: id, error_code: Reason::REFUSED_STREAM }),
            );
            if d.con.state.streams_count >= 10 && d.con.state.rst_count + 1
                >= d.con.state.streams_count / 2 {
                &&& step is Disconnect
                &&& next.disconnected
            } else {
                &&& step is Done
                &&& frames(next.con.actions) == sent
                &&& next.con.state.rst_count == d.con.state.rst_count + 1
                &&& next.con.state.error == d.con.state.error
                &&& next.con.slots == d.con.slots
                &&& next.con.streams == d.con.streams.remove(id.0)
                &&& next.disconnected == d.disconnected
            }
        }),
{
    sent::drop_is_silent(d.con, id.0);
    let dropped = d.con.drop_stream(id.0);
    let f = FrameView::Reset(Reset { stream_id: id, error_code: Reason::REFUSED_STREAM });
    sent::frames_push(dropped.actions, ActionView::Send(f));
    reveal(ConView::drop_stream);
    assert(d.con.streams.remove(id.0) =~= dropped.streams);
}

/// The control service is told about the end of a connection once, whatever comes later.
pub proof fn told_once<E>(d: DispatcherView, f: FrameView, reason: StopReason)
    ensures
        ({
            let (next, step) = d.call_frame::<E>(f);
            &&& d.disconnected ==> next.disconnected
            &&& step matches StepView::Disconnect(_, control) ==> {
                &&& next.disconnected
                &&& (control is Some <==> !d.disconnected)
            }
        }),
        ({
            let (next, step) = d.call_stop::<E>(reason);
            &&& d.disconnected ==> next.disconnected
            &&& step matches StepView::Disconnect(_, control) ==> {
                &&& next.disconnected
                &&& (control is Some <==> !d.disconnected)
            }
        }),
{
}

// ===== Reasons =====

/// The code that the peer is given for the end of a connection: what it said itself
/// where it has left, no error where the time ran out, flow control where it has
/// overdone it, a closed stream where it has used one, and a broken protocol otherwise.
pub proof fn fault_codes(err: ConnectionError)
    ensures
        err.goaway().last_stream_id.0 == 0,
        err matches ConnectionError::GoAway(reason) ==> err.goaway().error_code == reason,
        err is KeepaliveTimeout || err is ReadTimeout ==> err.goaway().error_code.spec_code() == 0,
        err is WindowValueOverflow || err is ConcurrencyOverflow || err is StreamResetsLimit
            ==> err.goaway().error_code.spec_code() == 3,
        err is StreamClosed ==> err.goaway().error_code.spec_code() == 5,
        !(err is GoAway || err is KeepaliveTimeout || err is ReadTimeout || err is WindowValueOverflow
            || err is ConcurrencyOverflow || err is StreamResetsLimit || err is StreamClosed)
            ==> err.goaway().error_code.spec_code() == 1,
{
}

/// The code that the peer is given for the end of a stream.
pub proof fn stream_codes(err: StreamError)
    ensures
        err matches StreamError::Reset(reason) ==> err.spec_reason() == reason,
        err is WindowOverflowed || err is CapacityTimeout ==> err.spec_reason().spec_code() == 3,
        err is Closed ==> err.spec_reason().spec_code() == 5,
        !(err is Reset || err is WindowOverflowed || err is CapacityTimeout || err is Closed)
            ==> err.spec_reason().spec_code() == 1,
{
}

/// Errors of this side are answered with the frame that belongs to them. A peer that has
/// left gets no answer.
pub proof fn errors_are_answered<E>(
    error: E,
    fault: ConnectionError,
    frm: GoAwayView,
    gone: Option<io::Error>,
)
    ensures
        ControlView::<E>::Error(error, frm).ack() == Some(FrameView::GoAway(frm)),
        ControlView::<E>::ProtocolError(fault, frm).ack() == Some(FrameView::GoAway(frm)),
        ControlView::<E>::GoAway(frm).ack() is None,
        ControlView::<E>::PeerGone(gone).ack() is None,
        ControlView::<E>::Terminated.ack() is None,
{
}

/// An error of the publish service is an internal one, and the peer is given the stream
/// that it came from.
pub proof fn service_errors_are_internal(stream: Option<StreamId>)
    ensures
        crate::control::error_goaway(stream).error_code.spec_code() == 2,
        crate::control::error_goaway(stream).data.len() == 0,
        stream matches Some(id) ==> crate::control::error_goaway(stream).last_stream_id == id,
        stream is None ==> crate::control::error_goaway(stream).last_stream_id.0 == 0,
{
}

} // verus!
