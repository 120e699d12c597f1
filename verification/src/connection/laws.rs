//! What holds of a connection, whatever happens on it.
use vstd::prelude::*;

use crate::connection::view::{ActionView, ConView, ConnectionState, EitherError};
use crate::connection::{count_remove, view, PingStep};
use crate::error::{ConnectionError, OperationError};
use crate::frame::data::DataView;
use crate::frame::headers::HeadersView;
use crate::frame::{FrameView, Reason, Reset, StreamId};
use crate::stream::{HalfState, StreamRef, StreamState};

verus! {

// ===== Payload =====

/// The payload bytes in the DATA frames of a list of actions.
pub open spec fn data_sent(actions: Seq<ActionView>) -> Seq<u8>
    decreases actions.len(),
{
    if actions.len() == 0 {
        Seq::empty()
    } else {
        let rest = data_sent(actions.drop_last());
        match actions.last() {
            ActionView::Send(FrameView::Data(v)) => rest + v.data,
            _ => rest,
        }
    }
}

/// Every DATA frame behind the first `from` actions is one of the given stream
/// and holds at most `max` bytes.
pub open spec fn data_frames_fit(
    actions: Seq<ActionView>,
    from: int,
    id: StreamId,
    max: int,
) -> bool {
    forall|k: int|
        from <= k < actions.len() ==> (#[trigger] actions[k] matches ActionView::Send(
            FrameView::Data(v),
        ) ==> v.stream_id == id && v.data.len() <= max)
}

/// A step adds actions without DATA.
spec fn adds_no_data(before: Seq<ActionView>, after: Seq<ActionView>) -> bool {
    &&& before.len() <= after.len()
    &&& before == after.take(before.len() as int)
    &&& forall|k: int|
        before.len() <= k < after.len() ==> !((#[trigger] after[k]) matches ActionView::Send(
            FrameView::Data(_),
        ))
}

proof fn no_data_added(before: Seq<ActionView>, after: Seq<ActionView>)
    requires
        adds_no_data(before, after),
    ensures
        data_sent(after) == data_sent(before),
    decreases after.len(),
{
    if after.len() > before.len() {
        assert(after.drop_last().take(before.len() as int) =~= before);
        no_data_added(before, after.drop_last());
    } else {
        assert(after =~= before);
    }
}

proof fn no_data_chain(a: Seq<ActionView>, b: Seq<ActionView>, c: Seq<ActionView>)
    requires
        adds_no_data(a, b),
        adds_no_data(b, c),
    ensures
        adds_no_data(a, c),
{
    assert(c.take(a.len() as int) =~= b.take(a.len() as int));
    assert forall|k: int| a.len() <= k < c.len() implies !((#[trigger] c[k]) matches ActionView::Send(
        FrameView::Data(_),
    )) by {
        if k < b.len() {
            assert(c[k] == c.take(b.len() as int)[k]);
        }
    }
}

proof fn dropped_no_data(con: ConView, id: u32)
    ensures
        adds_no_data(con.actions, con.drop_stream(id).actions),
        con.keeps(con.drop_stream(id)),
{
    reveal(ConView::drop_stream);
    let a = con.actions;
    let next = con.unregister(id);
    let end = con.drop_stream(id).actions;
    assert(next.actions.take(a.len() as int) =~= a);
    assert(end.take(next.actions.len() as int) =~= next.actions);
    no_data_chain(a, next.actions, end);
}

proof fn closed_no_data(con: ConView, s: StreamRef, reason: Option<Reason>)
    requires
        con.has(s),
    ensures
        adds_no_data(con.actions, con.send_close(s, reason).actions),
        con.with_slot(
            s,
            StreamState { send: HalfState::Closed(reason), ..con.slot(s) },
        ).keeps(con.send_close(s, reason)),
{
    let st = StreamState { send: HalfState::Closed(reason), ..con.slot(s) };
    let woken = con.with_slot(s, st).act(ActionView::WakeSend(s));
    let reset = woken.act(ActionView::WakeReset(s)).act(ActionView::WakeSend(s));
    dropped_no_data(reset, st.id.0);
    let end = con.send_close(s, reason);
    assert(woken.actions.take(con.actions.len() as int) =~= con.actions);
    assert(reset.actions.take(con.actions.len() as int) =~= con.actions);
    if st.recv is Closed {
        no_data_chain(con.actions, reset.actions, end.actions);
    }
}

/// What one DATA frame does: its bytes are the next ones of the payload, and both
/// windows have lost as many.
proof fn chunk_sent(con: ConView, s: StreamRef, data: Seq<u8>, eof: bool)
    requires
        con.has(s),
        con.available(s) > 0,
    ensures
        ({
            let size = con.chunk(s, data.len() as int);
            let next = con.write_chunk(s, data, eof);
            &&& 0 <= size <= data.len()
            &&& size <= con.state.remote_frame_size
            &&& data_sent(next.actions) == data_sent(con.actions) + data.take(size)
            &&& con.actions.len() <= next.actions.len()
            &&& data_frames_fit(
                next.actions,
                con.actions.len() as int,
                con.slot(s).id,
                con.state.remote_frame_size as int,
            )
            &&& next.actions.take(con.actions.len() as int) == con.actions
            &&& next.has(s)
            &&& next.slot(s).id == con.slot(s).id
            &&& next.state.remote_frame_size == con.state.remote_frame_size
            &&& next.slot(s).send_window.window_size == con.slot(s).send_window.window_size - size
            &&& next.state.send_window.window_size == con.state.send_window.window_size - size
        }),
{
    let size = con.chunk(s, data.len() as int);
    let next = con.write_chunk(s, data, eof);
    let last = size >= data.len();
    let frame = con.data_frame(
        s,
        if last {
            data
        } else {
            data.take(size)
        },
        last && eof,
    );
    let sent = con.send(frame);
    assert(sent.actions.drop_last() =~= con.actions);
    assert(data.take(data.len() as int) =~= data);
    if last && eof {
        closed_no_data(sent, s, None);
        let closed = sent.send_close(s, None);
        no_data_added(sent.actions, closed.actions);
        assert(next.actions == closed.actions);
        assert forall|k: int| con.actions.len() <= k < next.actions.len() implies (
        #[trigger] next.actions[k] matches ActionView::Send(FrameView::Data(v)) ==> v.stream_id
            == con.slot(s).id && v.data.len() <= con.state.remote_frame_size) by {
            if k < sent.actions.len() {
                assert(next.actions[k] == closed.actions.take(sent.actions.len() as int)[k]);
            }
        }
        assert(next.actions.take(con.actions.len() as int) =~= con.actions) by {
            assert forall|k: int| 0 <= k < con.actions.len() implies next.actions[k]
                == con.actions[k] by {
                assert(next.actions[k] == closed.actions.take(sent.actions.len() as int)[k]);
            }
        }
    } else {
        assert(next.actions == sent.actions);
        assert(next.actions.take(con.actions.len() as int) =~= con.actions);
    }
}

/// Payload is sent in its order and without loss: what the DATA frames hold and
/// what is left for later make up the payload. No DATA frame is larger than the
/// peer accepts, and no more is sent than the windows of the stream and of the
/// connection admit: both shrink by exactly what is sent and never below zero.
#[verifier::spinoff_prover]
#[verifier::rlimit(40)]
pub proof fn payload_in_order(con: ConView, s: StreamRef, data: Seq<u8>, eof: bool)
    requires
        con.has(s),
        con.state.remote_frame_size > 0,
    ensures
        ({
            let (next, rest) = con.write_payload(s, data, eof);
            let left = match rest {
                Some(r) => r,
                None => Seq::empty(),
            };
            &&& left.len() <= data.len()
            &&& left == data.skip(data.len() - left.len())
            &&& data_sent(next.actions) == data_sent(con.actions) + data.take(
                data.len() - left.len(),
            )
            &&& data_frames_fit(
                next.actions,
                con.actions.len() as int,
                con.slot(s).id,
                con.state.remote_frame_size as int,
            )
            &&& data.len() - left.len() <= con.available(s)
            &&& next.slot(s).send_window.window_size == con.slot(s).send_window.window_size - (
            data.len() - left.len())
            &&& next.state.send_window.window_size == con.state.send_window.window_size - (
            data.len() - left.len())
            &&& rest is Some ==> next.available(s) == 0
        }),
    decreases data.len(),
{
    reveal_with_fuel(ConView::write_payload, 1);
    let size = con.chunk(s, data.len() as int);
    if con.available(s) <= 0 {
        let next = con.write_payload(s, data, eof).0;
        assert(data.skip(0) =~= data);
        assert(data.take(0) =~= Seq::<u8>::empty());
        assert(data_sent(con.actions) + data.take(0) =~= data_sent(con.actions));
        assert(next.actions.drop_last() =~= con.actions || next.actions == con.actions);
    } else {
        chunk_sent(con, s, data, eof);
        let mid = con.write_chunk(s, data, eof);
        if size >= data.len() {
            assert(data.skip(data.len() as int) =~= Seq::<u8>::empty());
        } else {
            let tail = data.skip(size);
            payload_in_order(mid, s, tail, eof);
            let (next, rest) = mid.write_payload(s, tail, eof);
            let left = match rest {
                Some(r) => r,
                None => Seq::empty(),
            };
            let n = data.len() - left.len();
            assert(tail.skip(tail.len() - left.len()) =~= data.skip(n));
            assert(data.take(size) + tail.take(tail.len() - left.len()) =~= data.take(n));
            assert(data_sent(con.actions) + data.take(size) + tail.take(tail.len() - left.len())
                =~= data_sent(con.actions) + data.take(n));
            payload_keeps(mid, s, tail, eof);
            assert forall|k: int| con.actions.len() <= k < next.actions.len() implies (
            #[trigger] next.actions[k] matches ActionView::Send(FrameView::Data(v)) ==> v.stream_id
                == con.slot(s).id && v.data.len() <= con.state.remote_frame_size) by {
                if k < mid.actions.len() {
                    assert(next.actions[k] == next.actions.take(mid.actions.len() as int)[k]);
                    assert(mid.actions[k] == next.actions[k]);
                }
            }
        }
    }
}

proof fn payload_keeps(con: ConView, s: StreamRef, data: Seq<u8>, eof: bool)
    requires
        con.has(s),
        con.state.remote_frame_size > 0,
    ensures
        con.actions.len() <= con.write_payload(s, data, eof).0.actions.len(),
        con.write_payload(s, data, eof).0.actions.take(con.actions.len() as int) == con.actions,
    decreases data.len(),
{
    reveal_with_fuel(ConView::write_payload, 1);
    let next = con.write_payload(s, data, eof).0;
    let size = con.chunk(s, data.len() as int);
    if con.available(s) <= 0 {
        assert(next.actions.take(con.actions.len() as int) =~= con.actions);
    } else {
        chunk_sent(con, s, data, eof);
        if size < data.len() {
            let mid = con.write_chunk(s, data, eof);
            payload_keeps(mid, s, data.skip(size), eof);
            assert(next.actions.take(con.actions.len() as int) =~= con.actions) by {
                assert forall|k: int| 0 <= k < con.actions.len() implies next.actions[k]
                    == con.actions[k] by {
                    assert(next.actions[k] == next.actions.take(mid.actions.len() as int)[k]);
                    assert(mid.actions[k] == mid.actions.take(con.actions.len() as int)[k]);
                }
            }
        }
    }
}

// ===== Closing streams =====

/// Nothing but a dropped stream's registration goes, and its identifier is known
/// for a while, where late frames are to be told from wrong ones.
proof fn dropped(con: ConView, id: u32)
    requires
        con.wf(),
    ensures
        !con.drop_stream(id).streams.dom().contains(id),
        con.state.flags.unknown_streams && !con.state.flags.disconnect_when_ready
            ==> con.drop_stream(id).pending.ids.contains(id),
        con.keeps(con.drop_stream(id)),
{
    reveal(ConView::drop_stream);
    let next = con.unregister(id);
    next.pending.add_keeps_limit(
        id,
        next.state.now,
        next.state.config.reset_duration * 1000,
        next.state.config.reset_max as nat,
    );
}

/// A stream that is reset is closed in both directions and not registered any
/// more. The peer is told so first, and it is told once: resetting the stream
/// again does nothing.
pub proof fn reset_once(con: ConView, s: StreamRef, reason: Reason, again: Reason)
    requires
        con.wf(),
        con.has(s),
        !con.slot(s).closed(),
    ensures
        ({
            let next = con.reset(s, reason);
            &&& next.slot(s).closed()
            &&& next.slot(s).error == Some(OperationError::LocalReset(reason))
            &&& !next.streams.dom().contains(con.slot(s).id.0)
            &&& next.actions.len() > con.actions.len()
            &&& next.actions[con.actions.len() as int] == ActionView::Send(
                FrameView::Reset(Reset { stream_id: con.slot(s).id, error_code: reason }),
            )
            &&& next.reset(s, again) == next
        }),
{
    let id = con.slot(s).id;
    let sent = con.reset_frame(id, reason);
    let st = StreamState {
        recv: HalfState::Closed(Some(reason)),
        send: HalfState::Closed(None),
        error: Some(OperationError::LocalReset(reason)),
        ..sent.slot(s)
    };
    let mid = sent.with_slot(s, st).act(ActionView::WakeReset(s)).act(ActionView::WakeSend(s));
    slot_wf(con, sent, s, st, mid);
    dropped(mid, id.0);
    dropped_no_data(mid, id.0);
    let next = con.reset(s, reason);
    assert(next == mid.drop_stream(id.0));
    assert(next.actions[con.actions.len() as int] == next.actions.take(mid.actions.len() as int)[con.actions.len() as int]);
}

/// Replacing the state of a stream keeps a connection well-formed, as long as it
/// keeps what identifies the stream and its counters.
proof fn slot_wf(con: ConView, sent: ConView, s: StreamRef, st: StreamState, mid: ConView)
    requires
        con.wf(),
        con.has(s),
        sent == (ConView { actions: sent.actions, ..con }),
        mid == (ConView { actions: mid.actions, ..sent.with_slot(s, st) }),
        st.id == con.slot(s).id,
        st.flags.remote == con.slot(s).flags.remote,
        st.recv_size == con.slot(s).recv_size,
        st.recv_window == con.slot(s).recv_window,
        st.send_window == con.slot(s).send_window,
    ensures
        mid.wf(),
{
    con.table_kept(mid);
    assert forall|i: int| 0 <= i < mid.slots.len() implies (#[trigger] mid.slots[i]).wf(
        mid.base(),
    ) by {
        assert(con.slots[i].wf(con.base()));
    }
}

/// Frames that were on their way when a stream was reset are no error, for as
/// long as its identifier is known: DATA is answered with RST_STREAM, and a
/// WINDOW_UPDATE is ignored.
pub proof fn late_frames_tolerated(
    con: ConView,
    s: StreamRef,
    reason: Reason,
    data: DataView,
    increment: u32,
)
    requires
        con.wf(),
        con.has(s),
        !con.slot(s).closed(),
        con.state.flags.unknown_streams,
        !con.state.flags.disconnect_when_ready,
        data.stream_id == con.slot(s).id,
    ensures
        ({
            let next = con.reset(s, reason);
            let id = con.slot(s).id;
            let update = crate::frame::WindowUpdate { stream_id: id, size_increment: increment };
            &&& next.recv_data(data) == (
                next.reset_frame(id, Reason::STREAM_CLOSED),
                Ok::<Option<crate::message::MessageView>, EitherError>(None),
            )
            &&& next.recv_window_update(update) == (next, Ok::<(), EitherError>(()))
        }),
{
    reveal(ConView::recv_data);
    reveal(ConView::recv_window_update);
    reset_once(con, s, reason, reason);
    let id = con.slot(s).id;
    let sent = con.reset_frame(id, reason);
    let st = StreamState {
        recv: HalfState::Closed(Some(reason)),
        send: HalfState::Closed(None),
        error: Some(OperationError::LocalReset(reason)),
        ..sent.slot(s)
    };
    let mid = sent.with_slot(s, st).act(ActionView::WakeReset(s)).act(ActionView::WakeSend(s));
    slot_wf(con, sent, s, st, mid);
    dropped(mid, id.0);
    assert(con.reset(s, reason) == mid.drop_stream(id.0));
    assert(con.slots[s.0 as int].wf(con.base()));
}

/// A frame of a stream that is neither open nor known ends the connection, with
/// a protocol error.
pub proof fn unknown_frames_refused(con: ConView, data: DataView, increment: u32)
    requires
        con.query(data.stream_id) is None,
        !con.pending.ids.contains(data.stream_id.0),
        con.state.flags.unknown_streams,
        data.stream_id.0 != 0,
    ensures
        con.recv_data(data) == (
            con,
            Err::<Option<crate::message::MessageView>, EitherError>(
                EitherError::Connection(ConnectionError::UnknownStream("Received data")),
            ),
        ),
        con.recv_window_update(
            crate::frame::WindowUpdate {
                stream_id: data.stream_id,
                size_increment: increment,
            },
        ) == (
            con,
            Err::<(), EitherError>(
                EitherError::Connection(ConnectionError::UnknownStream("WINDOW_UPDATE")),
            ),
        ),
        ConnectionError::UnknownStream("Received data").goaway_reason() == Reason::PROTOCOL_ERROR,
{
    reveal(ConView::recv_data);
    reveal(ConView::recv_window_update);
}

/// Once the peer has reset a stream that was reset from this side too, nothing
/// may follow on it: its identifier is not known any more.
pub proof fn peer_reset_forgets(con: ConView, frm: Reset, data: DataView)
    requires
        con.wf(),
        con.query(frm.stream_id) is None,
        con.pending.ids.contains(frm.stream_id.0),
        frm.stream_id.0 != 0,
        con.state.flags.unknown_streams,
        data.stream_id == frm.stream_id,
        con.recv_rst_stream(frm).1 is Ok,
    ensures
        con.recv_rst_stream(frm).0.recv_data(data).1 == Err::<
            Option<crate::message::MessageView>,
            EitherError,
        >(EitherError::Connection(ConnectionError::UnknownStream("Received data"))),
{
    reveal(ConView::recv_rst_stream);
    con.pending.remove_forgets(frm.stream_id.0);
    unknown_frames_refused(con.recv_rst_stream(frm).0, data, 0);
}

// ===== Limits =====

/// A peer that opens one stream too many has it refused. Where it opens another
/// one all the same, the connection ends with a flow control error.
pub proof fn one_stream_too_many(con: ConView, first: HeadersView, second: HeadersView)
    requires
        con.state.is_server,
        !con.state.flags.disconnect_when_ready,
        !con.state.flags.stream_refused,
        con.remote_full(),
        first.stream_id.0 % 2 == 1,
        second.stream_id.0 % 2 == 1,
        con.query(first.stream_id) is None,
        con.query(second.stream_id) is None,
    ensures
        ({
            let (next, r) = con.recv_headers(first);
            &&& r == Ok::<Option<crate::message::MessageView>, EitherError>(None)
            &&& next.actions == con.actions.push(
                ActionView::Send(
                    FrameView::Reset(
                        Reset { stream_id: first.stream_id, error_code: Reason::REFUSED_STREAM },
                    ),
                ),
            )
            &&& next.streams == con.streams
            &&& next.recv_headers(second).1 == Err::<
                Option<crate::message::MessageView>,
                EitherError,
            >(EitherError::Connection(ConnectionError::ConcurrencyOverflow))
        }),
        ConnectionError::ConcurrencyOverflow.goaway_reason() == Reason::FLOW_CONTROL_ERROR,
{
    reveal(ConView::recv_headers);
    reveal(ConView::new_stream);
}

/// A connection that is about to close takes no new streams, from either side.
pub proof fn closing_takes_no_streams(con: ConView, hdrs: HeadersView)
    requires
        con.state.flags.disconnect_when_ready,
        con.state.error is None,
        con.state.is_server ==> hdrs.stream_id.0 % 2 == 1,
        !con.state.is_server ==> !con.tolerated(hdrs.stream_id),
        con.query(hdrs.stream_id) is None,
    ensures
        con.request_error() == Some(OperationError::Disconnecting),
        con.recv_headers(hdrs) == (
            con.refuse(hdrs.stream_id),
            Ok::<Option<crate::message::MessageView>, EitherError>(None),
        ),
{
    reveal(ConView::recv_headers);
    reveal(ConView::new_stream);
}

/// A connection that is about to close does so with its last stream.
pub proof fn last_stream_closes(con: ConView, id: u32)
    requires
        con.wf(),
        con.state.flags.disconnect_when_ready,
        con.state.reserved_streams == 0,
        con.streams.dom() == set![id],
    ensures
        con.drop_stream(id).state.closed,
        con.drop_stream(id).actions.contains(ActionView::Close),
{
    reveal(ConView::drop_stream);
    let next = con.unregister(id);
    assert(con.streams.remove(id).dom() =~= Set::<u32>::empty());
    assert(next.streams.dom().len() == 0);
    let end = con.drop_stream(id);
    assert(end.actions[end.actions.len() - 2] == ActionView::Close);
}

/// Reserving a stream and giving it back leaves the counters as they were.
pub proof fn reservation_returned(con: ConView)
    requires
        con.wf(),
        con.reserve() is Some,
        con.state.active_local_streams < u32::MAX,
    ensures
        ({
            let next = con.reserve()->0.release_reserved();
            &&& next.state.active_local_streams == con.state.active_local_streams
            &&& next.state.reserved_streams == con.state.reserved_streams
            &&& next.streams == con.streams
        }),
{
}

/// Requests get identifiers of their own: each opens the stream that comes next,
/// and the one after it has a greater identifier.
pub proof fn requests_ascend(
    con: ConView,
    authority: Seq<char>,
    method: Seq<char>,
    path: Seq<char>,
    fields: crate::frame::headers::Fields,
    eof: bool,
)
    requires
        con.wf(),
        con.slots.len() < usize::MAX,
        con.state.active_local_streams < u32::MAX,
    ensures
        ({
            let (next, r) = con.request(authority, method, path, fields, eof);
            r matches Ok(s) ==> {
                &&& next.slot(s).id == con.state.next_stream_id
                &&& next.state.next_stream_id.0 == con.state.next_stream_id.0 + 2
            }
        }),
{
    let opened = con.open(con.state.next_stream_id, false);
    let s = con.next_slot();
    if con.free.len() > 0 {
        assert(con.free[con.free.len() - 1] < con.slots.len());
    }
    assert(opened.has(s));
    let state = ConnectionState {
        next_stream_id: StreamId((con.state.next_stream_id.0 + 2) as u32),
        ..opened.state
    };
    closed_no_data(opened.with_state(state), s, None);
}

// ===== Active streams =====

/// How many requests have been sent whose streams are not closed or reset yet.
pub open spec fn open_requests(con: ConView) -> nat {
    view::count(con.streams, false)
}

/// The active streams are those of requests that were sent and are not closed, and the
/// reserved ones. This holds until the connection fails.
pub proof fn active_streams_counted(con: ConView)
    requires
        con.wf(),
        con.state.error is None,
    ensures
        con.state.active_local_streams == open_requests(con) + con.state.reserved_streams,
{
    reveal(view::tally);
}

/// A request that is sent has an active stream, one more than there were. One that is
/// refused changes nothing.
pub proof fn request_is_active(
    con: ConView,
    authority: Seq<char>,
    method: Seq<char>,
    path: Seq<char>,
    fields: crate::frame::headers::Fields,
    eof: bool,
)
    requires
        con.wf(),
        con.slots.len() < usize::MAX,
        con.state.active_local_streams < u32::MAX,
    ensures
        ({
            let (next, r) = con.request(authority, method, path, fields, eof);
            r matches Ok(s) ==> {
                &&& next.state.active_local_streams == con.state.active_local_streams + 1
                &&& next.state.reserved_streams == con.state.reserved_streams
                &&& next.registered(s.0 as int)
                &&& next.streams == con.streams.insert(
                    con.state.next_stream_id.0,
                    (view::Entry { slot: s.0, remote: false }),
                )
            }
        }),
        ({
            let (next, r) = con.request(authority, method, path, fields, eof);
            r is Err ==> next == con
        }),
{
    if con.free.len() > 0 {
        assert(con.free[con.free.len() - 1] < con.slots.len());
    }
}

/// What a request is made of.
pub struct RequestView {
    pub authority: Seq<char>,
    pub method: Seq<char>,
    pub path: Seq<char>,
    pub fields: crate::frame::headers::Fields,
    pub eof: bool,
}

/// The requests are sent one after the other, and none is refused.
pub open spec fn all_sent(cons: Seq<ConView>, requests: Seq<RequestView>) -> bool {
    &&& cons.len() == requests.len() + 1
    &&& forall|i: int| 0 <= i < requests.len() ==> #[trigger] one_sent(cons, requests, i)
}

/// One of the requests is sent.
pub open spec fn one_sent(cons: Seq<ConView>, requests: Seq<RequestView>, i: int) -> bool {
    let request = requests[i];
    let (next, r) = cons[i].request(
        request.authority,
        request.method,
        request.path,
        request.fields,
        request.eof,
    );
    &&& cons[i].wf()
    &&& cons[i].slots.len() < usize::MAX
    &&& cons[i].state.active_local_streams < u32::MAX
    &&& r is Ok
    &&& next == cons[i + 1]
}

/// As many streams are active as requests were sent, if there were none before and
/// no stream was closed.
pub proof fn requests_add_up(cons: Seq<ConView>, requests: Seq<RequestView>)
    requires
        all_sent(cons, requests),
    ensures
        cons.last().state.active_local_streams == cons[0].state.active_local_streams
            + requests.len(),
        cons.last().state.reserved_streams == cons[0].state.reserved_streams,
    decreases requests.len(),
{
    if requests.len() > 0 {
        let n = requests.len() - 1;
        let before = cons.drop_last();
        let others = requests.drop_last();
        assert forall|i: int| 0 <= i < n implies #[trigger] one_sent(before, others, i) by {
            assert(one_sent(cons, requests, i));
        }
        requests_add_up(before, others);
        assert(one_sent(cons, requests, n));
        let request = requests[n];
        request_is_active(
            cons[n],
            request.authority,
            request.method,
            request.path,
            request.fields,
            request.eof,
        );
    }
}

/// A stream is active until both of its sides are closed, as they are when it is
/// reset. Then there is one active stream less, if it was a local one that was still
/// registered.
pub proof fn closed_stream_is_inactive(con: ConView, s: StreamRef)
    requires
        con.wf(),
        con.has(s),
    ensures
        ({
            let st = con.slot(s);
            let next = con.settle(s);
            if st.recv is Closed && st.send is Closed {
                &&& next.streams == con.streams.remove(st.id.0)
                &&& next.state.active_local_streams == con.state.active_local_streams - (
                if con.streams.dom().contains(st.id.0) && !con.streams[st.id.0].remote {
                    1int
                } else {
                    0
                })
                &&& next.state.reserved_streams == con.state.reserved_streams
            } else {
                &&& next.streams == con.streams
                &&& next.state == con.state
            }
        }),
{
    reveal(ConView::drop_stream);
    let id = con.slot(s).id.0;
    if con.streams.dom().contains(id) {
        count_remove(con.streams, id, false);
    } else {
        assert(con.streams.remove(id) =~= con.streams);
    }
}

/// A reserved stream is active until the reservation is given back. A request that
/// uses it takes its place.
pub proof fn reservation_is_active(
    con: ConView,
    authority: Seq<char>,
    method: Seq<char>,
    path: Seq<char>,
    fields: crate::frame::headers::Fields,
    eof: bool,
)
    requires
        con.wf(),
        con.slots.len() < usize::MAX,
        con.state.active_local_streams < u32::MAX,
    ensures
        con.reserve() matches Some(next) ==> next.state.active_local_streams
            == con.state.active_local_streams + 1 && next.streams == con.streams,
        con.state.reserved_streams > 0 ==> {
            let next = con.release_reserved();
            &&& next.state.active_local_streams == con.state.active_local_streams - 1
            &&& next.state.reserved_streams == con.state.reserved_streams - 1
            &&& next.streams == con.streams
        },
        con.state.reserved_streams > 0 ==> {
            let (next, r) = con.reserved_request(authority, method, path, fields, eof);
            r is Ok ==> {
                &&& next.state.active_local_streams == con.state.active_local_streams
                &&& next.state.reserved_streams == con.state.reserved_streams - 1
            }
        },
{
    if con.free.len() > 0 {
        assert(con.free[con.free.len() - 1] < con.slots.len());
    }
}

// ===== Keep-alive =====

/// A ping that is not answered before the next one is due is a timeout; one that
/// is answered is followed by the next ping.
pub proof fn ping_needs_pong(con: ConView)
    requires
        !con.state.closed,
        con.state.flags.recv_pong,
        con.state.pings_count < u16::MAX - 1,
    ensures
        ({
            let (next, step) = con.ping();
            &&& step == PingStep::Sent
            &&& next.ping() == (next, PingStep::Timeout)
            &&& next.with_pong(true).ping().1 == PingStep::Sent
        }),
{
}

// ===== Capacity timeout =====

/// A stream that finds no send capacity has its timeout started, once: asking
/// again does not put it off. When the windows admit payload again, the timeout
/// is taken off and the stream is woken up.
pub proof fn capacity_is_timed(con: ConView, s: StreamRef, timeout: u16, inc: int)
    requires
        con.wf(),
        con.has(s),
        con.state.config.capacity_timeout == Some(timeout),
        con.stream_error(s) is None,
        !con.slot(s).flags.wait_for_capacity,
        con.available(s) == 0,
        con.slot(s).send_window.size() == 0,
        0 < con.slot(s).send_window.window_size + inc <= i32::MAX,
    ensures
        ({
            let (next, r) = con.poll_capacity(s);
            &&& r == Ok::<Option<crate::frame::WindowSize>, OperationError>(None)
            &&& next.actions == con.actions.push(ActionView::TimerStart(s, timeout))
            &&& next.poll_capacity(s) == (
                next,
                Ok::<Option<crate::frame::WindowSize>, OperationError>(None),
            )
            &&& next.stream_window_update(s, inc).0.actions == next.actions.push(
                ActionView::WakeSend(s),
            ).push(ActionView::TimerStop(s))
        }),
{
    let next = con.poll_capacity(s).0;
    assert(next.waiting(s, true).slots =~= next.slots);
}

// ===== Receive windows =====

/// When a window is announced, what the peer may send and what has not been
/// consumed yet make up the configured window exactly.
pub proof fn announced_window_is_full(con: ConView, s: StreamRef, size: int)
    requires
        con.wf(),
        con.has(s),
        0 <= size <= con.slot(s).recv_size,
    ensures
        ({
            let next = con.consumed(s, size);
            &&& next.slot(s).recv_size == con.slot(s).recv_size - size
            &&& next.slot(s).recv_window != con.slot(s).recv_window
                ==> next.slot(s).recv_window.window_size + next.slot(s).recv_size
                == con.state.config.window_sz
        }),
{
    reveal(ConView::consumed);
    assert(con.slots[s.0 as int].wf(con.base()));
}

/// The window of the connection never falls behind by more than its threshold,
/// whatever the peer sends.
pub proof fn connection_window_kept(con: ConView, size: int)
    requires
        con.wf(),
        0 <= size,
        con.state.config.connection_window_sz - (con.state.recv_window.window_size - size)
            <= i32::MAX,
    ensures
        con.con_received(size).state.recv_window.window_size
            + con.state.config.connection_window_sz_threshold
            >= con.state.config.connection_window_sz,
{
}

// ===== Stream capacity =====

/// The capacity callback is called by a step.
pub open spec fn tells_capacity(before: Seq<ActionView>, after: Seq<ActionView>) -> bool {
    exists|k: int| before.len() <= k < after.len() && #[trigger] after[k] == ActionView::Capacity
}

proof fn capacity_told(
    before: Seq<ActionView>,
    told: Seq<ActionView>,
    after: Seq<ActionView>,
)
    requires
        before.len() < told.len(),
        told.last() == ActionView::Capacity,
        adds_no_data(told, after),
    ensures
        tells_capacity(before, after),
{
    let k = told.len() - 1;
    assert(after[k] == after.take(told.len() as int)[k]);
}

/// The capacity callback is called when a stream of this side is released, when a
/// reservation is given back, when the peer changes how many streams it accepts,
/// and when the connection fails or is closed.
pub proof fn capacity_is_reported(
    con: ConView,
    id: u32,
    max: u32,
    reason: Reason,
    err: ConnectionError,
)
    requires
        con.wf(),
        con.slots.len() <= usize::MAX,
    ensures
        con.streams.dom().contains(id) && !con.streams[id].remote ==> tells_capacity(
            con.actions,
            con.drop_stream(id).actions,
        ),
        tells_capacity(con.actions, con.release_reserved().actions),
        tells_capacity(con.actions, con.max_streams_changed(Some(max)).actions),
        tells_capacity(con.actions, con.recv_go_away(reason).actions),
        tells_capacity(con.actions, con.proto_error(err).actions),
        tells_capacity(con.actions, con.timed_out(err).actions),
        tells_capacity(con.actions, con.disconnect().actions),
        tells_capacity(con.actions, con.close().actions),
{
    drop_tells(con, id);
    release_tells(con);
    let end = con.max_streams_changed(Some(max)).actions;
    assert(end[end.len() - 1] == ActionView::Capacity);
    go_away_tells(con, reason);
    proto_error_tells(con, err);
    timeout_tells(con, err);
    disconnect_tells(con);
    let end = con.close().actions;
    assert(end[end.len() - 1] == ActionView::Capacity);
}

proof fn drop_tells(con: ConView, id: u32)
    ensures
        con.streams.dom().contains(id) && !con.streams[id].remote ==> tells_capacity(
            con.actions,
            con.drop_stream(id).actions,
        ),
{
    reveal(ConView::drop_stream);
    let freed = con.unregister(id);
    let end = con.drop_stream(id);
    assert(end.actions.take(freed.actions.len() as int) =~= freed.actions);
    if con.streams.dom().contains(id) && !con.streams[id].remote {
        capacity_told(con.actions, freed.actions, end.actions);
    }
}

proof fn release_tells(con: ConView)
    ensures
        tells_capacity(con.actions, con.release_reserved().actions),
{
    let back = con.with_state(
        ConnectionState {
            reserved_streams: (con.state.reserved_streams - 1) as u32,
            ..con.state
        },
    ).local_released();
    let end = con.release_reserved();
    assert(end.actions.take(back.actions.len() as int) =~= back.actions);
    capacity_told(con.actions, back.actions, end.actions);
}

proof fn go_away_tells(con: ConView, reason: Reason)
    requires
        con.wf(),
        con.slots.len() <= usize::MAX,
    ensures
        tells_capacity(con.actions, con.recv_go_away(reason).actions),
{
    reveal(ConView::recv_go_away);
    con.streams_listed(con.slots.len());
    let away = con.with_error(
        OperationError::Connection(ConnectionError::GoAway(reason)),
    ).gone_all().act(ActionView::Capacity).without_streams();
    reset_all_closes(away, con.all_streams(), reason, 0);
    capacity_told(con.actions, away.actions, con.recv_go_away(reason).actions);
}

proof fn proto_error_tells(con: ConView, err: ConnectionError)
    requires
        con.wf(),
        con.slots.len() <= usize::MAX,
    ensures
        tells_capacity(con.actions, con.proto_error(err).actions),
{
    reveal(ConView::proto_error);
    con.streams_listed(con.slots.len());
    let oper = OperationError::Connection(err);
    let broken = con.with_error(oper).gone_all().act(ActionView::Capacity).without_streams();
    failed_all_closes(broken, con.all_streams(), oper, 0);
    capacity_told(con.actions, broken.actions, con.proto_error(err).actions);
}

proof fn timeout_tells(con: ConView, err: ConnectionError)
    requires
        con.wf(),
        con.slots.len() <= usize::MAX,
    ensures
        tells_capacity(con.actions, con.timed_out(err).actions),
{
    reveal(ConView::timed_out);
    con.streams_listed(con.slots.len());
    let oper = OperationError::Connection(err);
    let late = con.with_error(oper).without_streams();
    failed_all_closes(late, con.all_streams(), oper, 0);
    let end = con.timed_out(err).actions;
    assert(end[end.len() - 1] == ActionView::Capacity);
}

proof fn disconnect_tells(con: ConView)
    requires
        con.wf(),
        con.slots.len() <= usize::MAX,
    ensures
        tells_capacity(con.actions, con.disconnect().actions),
{
    reveal(ConView::disconnect);
    con.streams_listed(con.slots.len());
    let lost = con.with_error(
        match con.state.error {
            Some(e) => e,
            None => OperationError::Disconnected,
        },
    ).act(ActionView::Capacity).without_streams();
    failed_all_closes(lost, con.all_streams(), OperationError::Disconnected, 0);
    capacity_told(con.actions, lost.actions, con.disconnect().actions);
}

// ===== The end =====

/// A GOAWAY of the peer ends all streams with its reason, and no request is
/// accepted any more.
pub proof fn go_away_ends_all(con: ConView, reason: Reason, k: int)
    requires
        con.wf(),
        con.slots.len() <= usize::MAX,
        0 <= k < con.all_streams().len(),
    ensures
        ({
            let next = con.recv_go_away(reason);
            let s = con.all_streams()[k];
            &&& next.slot(s).closed()
            &&& next.slot(s).error == Some(OperationError::RemoteReset(reason))
            &&& next.request_error() == Some(
                OperationError::Connection(ConnectionError::GoAway(reason)),
            )
        }),
{
    reveal(ConView::recv_go_away);
    con.streams_listed(con.slots.len());
    let start = con.with_error(
        OperationError::Connection(ConnectionError::GoAway(reason)),
    ).gone_all().act(ActionView::Capacity).without_streams();
    reset_all_closes(start, con.all_streams(), reason, k);
}

proof fn reset_all_closes(con: ConView, list: Seq<StreamRef>, reason: Reason, k: int)
    requires
        forall|i: int| 0 <= i < list.len() ==> con.has(#[trigger] list[i]),
    ensures
        con.remote_reset_all(list, reason).slots.len() == con.slots.len(),
        con.remote_reset_all(list, reason).state.error == con.state.error,
        adds_no_data(con.actions, con.remote_reset_all(list, reason).actions),
        0 <= k < list.len() ==> {
            let st = con.remote_reset_all(list, reason).slot(list[k]);
            &&& st.closed()
            &&& st.error == Some(OperationError::RemoteReset(reason))
        },
    decreases list.len(),
{
    if list.len() > 0 {
        let init = list.drop_last();
        assert forall|i: int| 0 <= i < init.len() implies con.has(#[trigger] init[i]) by {
            assert(init[i] == list[i]);
        }
        reset_all_closes(con, init, reason, k);
        let prev = con.remote_reset_all(init, reason);
        let s = list.last();
        let st = StreamState {
            recv: HalfState::Closed(None),
            send: HalfState::Closed(Some(reason)),
            error: Some(OperationError::RemoteReset(reason)),
            ..prev.slot(s)
        };
        let mid = prev.with_slot(s, st).act(ActionView::WakeReset(s)).act(
            ActionView::WakeSend(s),
        );
        dropped_no_data(mid, st.id.0);
        let end = mid.drop_stream(st.id.0);
        assert(mid.actions.take(prev.actions.len() as int) =~= prev.actions);
        no_data_chain(prev.actions, mid.actions, end.actions);
        no_data_chain(con.actions, prev.actions, end.actions);
    } else {
        assert(con.actions.take(con.actions.len() as int) =~= con.actions);
    }
}

/// A connection that breaks the protocol fails all its streams, and no request is
/// accepted any more.
pub proof fn proto_error_fails_all(con: ConView, err: ConnectionError, k: int)
    requires
        con.wf(),
        con.slots.len() <= usize::MAX,
        0 <= k < con.all_streams().len(),
    ensures
        ({
            let next = con.proto_error(err);
            let s = con.all_streams()[k];
            &&& next.slot(s).closed()
            &&& next.slot(s).flags.failed
            &&& next.slot(s).error == Some(OperationError::Connection(err))
            &&& next.request_error() == Some(OperationError::Connection(err))
        }),
{
    reveal(ConView::proto_error);
    con.streams_listed(con.slots.len());
    let start = con.with_error(OperationError::Connection(err)).gone_all().act(
        ActionView::Capacity,
    ).without_streams();
    failed_all_closes(start, con.all_streams(), OperationError::Connection(err), k);
}

proof fn failed_all_closes(con: ConView, list: Seq<StreamRef>, err: OperationError, k: int)
    requires
        forall|i: int| 0 <= i < list.len() ==> con.has(#[trigger] list[i]),
    ensures
        con.failed_all(list, err).slots.len() == con.slots.len(),
        con.failed_all(list, err).state.error == con.state.error,
        adds_no_data(con.actions, con.failed_all(list, err).actions),
        0 <= k < list.len() ==> {
            let st = con.failed_all(list, err).slot(list[k]);
            &&& st.closed()
            &&& st.flags.failed
            &&& st.error == Some(err)
        },
    decreases list.len(),
{
    if list.len() > 0 {
        let init = list.drop_last();
        assert forall|i: int| 0 <= i < init.len() implies con.has(#[trigger] init[i]) by {
            assert(init[i] == list[i]);
        }
        failed_all_closes(con, init, err, k);
        let prev = con.failed_all(init, err);
        let s = list.last();
        let st = StreamState {
            recv: ConView::shut(prev.slot(s).recv),
            send: ConView::shut(prev.slot(s).send),
            error: Some(err),
            flags: crate::stream::StreamFlags { failed: true, ..prev.slot(s).flags },
            ..prev.slot(s)
        };
        let mid = prev.with_slot(s, st).act(ActionView::WakeReset(s)).act(
            ActionView::WakeSend(s),
        );
        dropped_no_data(mid, st.id.0);
        let end = mid.drop_stream(st.id.0);
        assert(mid.actions.take(prev.actions.len() as int) =~= prev.actions);
        no_data_chain(prev.actions, mid.actions, end.actions);
        no_data_chain(con.actions, prev.actions, end.actions);
    } else {
        assert(con.actions.take(con.actions.len() as int) =~= con.actions);
    }
}

} // verus!
