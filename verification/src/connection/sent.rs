//! What a connection sends for what it is asked to send.
use vstd::prelude::*;

use crate::connection::view::{ActionView, ConView, ConnectionState};
use crate::error::OperationError;
use crate::frame::data::{DataFlags, DataView};
use crate::frame::headers::{BlockView, Fields, HeadersFlag, HeadersView};
use crate::frame::pseudo::PseudoView;
use crate::frame::{FrameView, Reason, Reset, StreamId};
use crate::stream::{HalfState, StreamRef, StreamState};

verus! {

/// The frames that are to be written, first to last.
pub open spec fn frames(actions: Seq<ActionView>) -> Seq<FrameView>
    decreases actions.len(),
{
    if actions.len() == 0 {
        Seq::empty()
    } else {
        match actions.last() {
            ActionView::Send(f) => frames(actions.drop_last()).push(f),
            _ => frames(actions.drop_last()),
        }
    }
}

pub proof fn frames_push(actions: Seq<ActionView>, a: ActionView)
    ensures
        frames(actions.push(a)) == match a {
            ActionView::Send(f) => frames(actions).push(f),
            _ => frames(actions),
        },
{
    assert(actions.push(a).drop_last() =~= actions);
}

/// A step that writes nothing and touches no window of the connection, no setting and
/// no stream but for their registration.
pub open spec fn silent(con: ConView, next: ConView) -> bool {
    &&& frames(next.actions) == frames(con.actions)
    &&& next.slots == con.slots
    &&& next.state.send_window == con.state.send_window
    &&& next.state.recv_window == con.state.recv_window
    &&& next.state.remote_window_sz == con.state.remote_window_sz
    &&& next.state.remote_frame_size == con.state.remote_frame_size
    &&& next.state.next_stream_id == con.state.next_stream_id
    &&& next.state.error == con.state.error
    &&& next.state.config == con.state.config
}

pub proof fn drop_is_silent(con: ConView, id: u32)
    ensures
        silent(con, con.drop_stream(id)),
{
    reveal(ConView::drop_stream);
    let rest = ConView { streams: con.streams.remove(id), ..con };
    let less = rest.with_state(
        ConnectionState {
            active_local_streams: (con.state.active_local_streams - 1) as u32,
            ..con.state
        },
    );
    if con.readiness.len() > 0 {
        frames_push(less.actions, ActionView::Ready(con.readiness[0]));
        frames_push(
            less.actions.push(ActionView::Ready(con.readiness[0])),
            ActionView::Capacity,
        );
    }
    frames_push(less.actions, ActionView::Capacity);
    let next = con.unregister(id);
    assert(frames(next.actions) == frames(con.actions));
    frames_push(next.actions, ActionView::Close);
    frames_push(next.actions.push(ActionView::Close), ActionView::Capacity);
}

pub proof fn settle_is_silent(con: ConView, s: StreamRef)
    ensures
        silent(con, con.settle(s)),
{
    let reset = con.act(ActionView::WakeReset(s));
    frames_push(con.actions, ActionView::WakeReset(s));
    frames_push(reset.actions, ActionView::WakeSend(s));
    drop_is_silent(reset.act(ActionView::WakeSend(s)), con.slot(s).id.0);
}

/// Closing the send side writes nothing by itself.
pub proof fn close_is_silent(con: ConView, s: StreamRef, reason: Option<Reason>)
    requires
        con.has(s),
    ensures
        silent(
            con.with_slot(s, StreamState { send: HalfState::Closed(reason), ..con.slot(s) }),
            con.send_close(s, reason),
        ),
        frames(con.send_close(s, reason).actions) == frames(con.actions),
        silent(
            con.with_slot(s, StreamState { recv: HalfState::Closed(reason), ..con.slot(s) }),
            con.recv_close(s, reason),
        ),
        frames(con.recv_close(s, reason).actions) == frames(con.actions),
{
    let a = con.with_slot(s, StreamState { send: HalfState::Closed(reason), ..con.slot(s) });
    frames_push(a.actions, ActionView::WakeSend(s));
    settle_is_silent(a.act(ActionView::WakeSend(s)), s);
    let b = con.with_slot(s, StreamState { recv: HalfState::Closed(reason), ..con.slot(s) });
    settle_is_silent(b, s);
}

// ===== Requests and responses =====

/// The state of a stream after headers have been sent on it.
pub open spec fn after_headers(eof: bool) -> HalfState {
    if eof {
        HalfState::Closed(None)
    } else {
        HalfState::Payload
    }
}

/// A request that is accepted is one HEADERS frame: on the next stream of this side,
/// with the method, the path, the authority and the fields that were asked for, with
/// the scheme of the transport, and with the end of the stream if nothing is to follow.
pub proof fn request_frame(
    con: ConView,
    authority: Seq<char>,
    method: Seq<char>,
    path: Seq<char>,
    fields: Fields,
    eof: bool,
)
    requires
        con.wf(),
        con.slots.len() < usize::MAX,
        con.state.active_local_streams < u32::MAX,
    ensures
        ({
            let (next, r) = con.request(authority, method, path, fields, eof);
            &&& r is Err ==> frames(next.actions) == frames(con.actions)
            &&& r matches Ok(s) ==> {
                &&& frames(next.actions) == frames(con.actions).push(
                    FrameView::Headers(
                        HeadersView {
                            stream_id: con.state.next_stream_id,
                            flags: HeadersFlag(
                                if eof {
                                    5
                                } else {
                                    4
                                },
                            ),
                            block: BlockView {
                                pseudo: PseudoView {
                                    method: Some(method),
                                    scheme: Some(
                                        if con.state.flags.secure {
                                            "https"@
                                        } else {
                                            "http"@
                                        },
                                    ),
                                    authority: Some(authority),
                                    path: Some(path),
                                    protocol: None,
                                    status: None,
                                },
                                fields,
                            },
                        },
                    ),
                )
                &&& next.has(s)
                &&& next.slot(s).id == con.state.next_stream_id
                &&& next.slot(s).send == after_headers(eof)
                &&& next.slot(s).recv == HalfState::Idle
                &&& next.slot(s).error is None
                &&& !next.slot(s).flags.remote
                &&& next.slot(s).send_window.window_size == con.state.remote_window_sz
                &&& next.state.send_window == con.state.send_window
                &&& next.state.error is None
            }
            &&& (r is Ok <==> con.state.error is None && !con.state.flags.disconnect_when_ready
                && con.state.next_stream_id.0 < 0x7fff_fffe)
            &&& r matches Err(e) ==> (match con.state.error {
                Some(err) => e == err,
                None => if con.state.flags.disconnect_when_ready {
                    e == OperationError::Disconnecting
                } else {
                    e == OperationError::OverflowedStreamId
                },
            })
        }),
{
    if con.free.len() > 0 {
        assert(con.free[con.free.len() - 1] < con.slots.len());
    }
    let id = con.state.next_stream_id;
    let opened = con.open(id, false);
    let s = con.next_slot();
    let mid = opened.with_state(
        ConnectionState { next_stream_id: StreamId((id.0 + 2) as u32), ..opened.state },
    );
    close_is_silent(mid, s, None);
    assert(5u8 & 1 == 1 && 4u8 & 1 != 1) by (bit_vector);
    let hdrs = FrameView::Headers(con.request_headers(authority, method, path, fields, eof));
    frames_push(mid.actions, ActionView::Send(hdrs));
    frames_push(mid.send_close(s, None).actions, ActionView::Send(hdrs));
}

/// A response that is accepted is one HEADERS frame: on its stream, with the status and
/// the fields that were asked for, and with the end of the stream if nothing is to
/// follow. A stream is answered once.
pub proof fn response_frame(con: ConView, s: StreamRef, status: u16, fields: Fields, eof: bool)
    requires
        con.has(s),
    ensures
        ({
            let st = con.slot(s);
            let (next, r) = con.send_response(s, status, fields, eof);
            &&& (r is Ok <==> st.error is None && st.send is Idle)
            &&& match r {
                Ok(_) => {
                    &&& frames(next.actions) == frames(con.actions).push(
                        FrameView::Headers(
                            HeadersView {
                                stream_id: st.id,
                                flags: HeadersFlag(
                                    if eof {
                                        5
                                    } else {
                                        4
                                    },
                                ),
                                block: BlockView {
                                    pseudo: PseudoView {
                                        method: None,
                                        scheme: None,
                                        authority: None,
                                        path: None,
                                        protocol: None,
                                        status: Some(status),
                                    },
                                    fields,
                                },
                            },
                        ),
                    )
                    &&& next.slot(s) == (StreamState { send: after_headers(eof), ..st })
                    &&& next.state.send_window == con.state.send_window
                },
                Err(e) => {
                    &&& next == con
                    &&& e == match st.error {
                        Some(err) => err,
                        None => if st.send is Payload {
                            OperationError::Payload
                        } else {
                            OperationError::Closed(st.send->Closed_0)
                        },
                    }
                },
            }
        }),
{
    let st = con.slot(s);
    close_is_silent(con, s, None);
    let hdrs = FrameView::Headers(
        HeadersView {
            stream_id: st.id,
            flags: HeadersView::new_flags(eof),
            block: BlockView {
                pseudo: PseudoView { status: Some(status), ..PseudoView::empty() },
                fields,
            },
        },
    );
    frames_push(con.actions, ActionView::Send(hdrs));
    frames_push(con.send_close(s, None).actions, ActionView::Send(hdrs));
}

/// Trailers are one HEADERS frame with the fields that were asked for and with the end
/// of the stream. They can be sent while payload can.
pub proof fn trailers_frame(con: ConView, s: StreamRef, fields: Fields)
    requires
        con.has(s),
    ensures
        ({
            let st = con.slot(s);
            let next = con.send_trailers(s, fields);
            if st.send is Payload {
                &&& frames(next.actions) == frames(con.actions).push(
                    FrameView::Headers(
                        HeadersView {
                            stream_id: st.id,
                            flags: HeadersFlag(5),
                            block: BlockView {
                                pseudo: PseudoView {
                                    method: None,
                                    scheme: None,
                                    authority: None,
                                    path: None,
                                    protocol: None,
                                    status: None,
                                },
                                fields,
                            },
                        },
                    ),
                )
                &&& next.slot(s) == (StreamState { send: HalfState::Closed(None), ..st })
                &&& next.state.send_window == con.state.send_window
            } else {
                next == con
            }
        }),
{
    let st = con.slot(s);
    let hdrs = FrameView::Headers(
        HeadersView {
            stream_id: st.id,
            flags: HeadersView::new_flags(true),
            block: BlockView { pseudo: PseudoView::empty(), fields },
        },
    );
    frames_push(con.actions, ActionView::Send(hdrs));
    close_is_silent(con.send(hdrs), s, None);
}

/// A stream that is reset from this side is one RST_STREAM frame with the reason, and
/// closed in both directions. One that is closed already stays as it is.
pub proof fn reset_frame_sent(con: ConView, s: StreamRef, reason: Reason)
    requires
        con.has(s),
    ensures
        ({
            let st = con.slot(s);
            let next = con.reset(s, reason);
            if st.recv is Closed && st.send is Closed {
                next == con
            } else {
                &&& frames(next.actions) == frames(con.actions).push(
                    FrameView::Reset(Reset { stream_id: st.id, error_code: reason }),
                )
                &&& next.slot(s).recv is Closed
                &&& next.slot(s).send is Closed
                &&& next.slot(s).error == Some(OperationError::LocalReset(reason))
                &&& next.state.send_window == con.state.send_window
            }
        }),
{
    let st = con.slot(s);
    let told = con.reset_frame(st.id, reason);
    frames_push(
        con.actions,
        ActionView::Send(FrameView::Reset(Reset { stream_id: st.id, error_code: reason })),
    );
    settle_is_silent(
        told.with_slot(
            s,
            StreamState {
                recv: HalfState::Closed(Some(reason)),
                send: HalfState::Closed(None),
                error: Some(OperationError::LocalReset(reason)),
                ..st
            },
        ),
        s,
    );
}

// ===== Payload =====

pub proof fn chunk_frame(con: ConView, s: StreamRef, data: Seq<u8>, eof: bool)
    requires
        con.has(s),
        con.available(s) > 0,
        con.state.remote_frame_size > 0,
    ensures
        ({
            let size = con.chunk(s, data.len() as int);
            let next = con.write_chunk(s, data, eof);
            let last = size >= data.len();
            &&& 0 <= size <= data.len()
            &&& size <= con.state.remote_frame_size
            &&& size <= con.slot(s).send_window.window_size
            &&& size <= con.state.send_window.window_size
            &&& data.len() > 0 ==> size > 0
            &&& frames(next.actions) == frames(con.actions).push(
                FrameView::Data(
                    DataView {
                        stream_id: con.slot(s).id,
                        data: data.take(size),
                        flags: DataFlags(
                            if last && eof {
                                1
                            } else {
                                0
                            },
                        ),
                    },
                ),
            )
            &&& next.has(s)
            &&& next.slot(s).id == con.slot(s).id
            &&& next.slot(s).send == if last && eof {
                HalfState::Closed(None)
            } else {
                con.slot(s).send
            }
            &&& next.state.remote_frame_size == con.state.remote_frame_size
            &&& next.slot(s).send_window.window_size == con.slot(s).send_window.window_size - size
            &&& next.state.send_window.window_size == con.state.send_window.window_size - size
            &&& next.slots.len() == con.slots.len()
            &&& forall|i: int|
                0 <= i < con.slots.len() && i != s.0 ==> #[trigger] next.slots[i] == con.slots[i]
        }),
{
    let size = con.chunk(s, data.len() as int);
    let last = size >= data.len();
    let frame = con.data_frame(
        s,
        if last {
            data
        } else {
            data.take(size)
        },
        last && eof,
    );
    assert(data.take(data.len() as int) =~= data);
    let sent = con.send(frame);
    frames_push(con.actions, ActionView::Send(frame));
    close_is_silent(sent, s, None);
}

/// Payload is sent in DATA frames of its stream and in no others. None of them is larger
/// than the peer accepts, and the last one alone has the end of the stream, if nothing
/// is to follow and nothing is left for later. Then this side is closed, and it is not
/// otherwise.
///
/// No more is sent than either window holds, and something is left for later only where
/// one of them is used up. The streams beside it stay as they are.
pub proof fn payload_frames(con: ConView, s: StreamRef, data: Seq<u8>, eof: bool)
    requires
        con.has(s),
        con.state.remote_frame_size > 0,
    ensures
        ({
            let (next, rest) = con.write_payload(s, data, eof);
            let before = frames(con.actions);
            let after = frames(next.actions);
            let sent = data.len() - (match rest {
                Some(r) => r.len(),
                None => 0,
            });
            &&& before.len() <= after.len()
            &&& after.take(before.len() as int) == before
            &&& rest is None ==> before.len() < after.len()
            &&& forall|k: int|
                before.len() <= k < after.len() ==> {
                    &&& (#[trigger] after[k]) matches FrameView::Data(v)
                    &&& v.stream_id == con.slot(s).id
                    &&& v.data.len() <= con.state.remote_frame_size
                    &&& v.flags.0 == if rest is None && eof && k == after.len() - 1 {
                        1u8
                    } else {
                        0
                    }
                }
            &&& next.slot(s).send == if rest is None && eof {
                HalfState::Closed(None)
            } else {
                con.slot(s).send
            }
            &&& sent > 0 ==> sent <= con.slot(s).send_window.window_size && sent
                <= con.state.send_window.window_size
            &&& rest is Some ==> next.slot(s).send_window.window_size <= 0
                || next.state.send_window.window_size <= 0
            &&& next.slots.len() == con.slots.len()
            &&& forall|i: int|
                0 <= i < con.slots.len() && i != s.0 ==> #[trigger] next.slots[i] == con.slots[i]
        }),
    decreases data.len(),
{
    reveal_with_fuel(ConView::write_payload, 1);
    let before = frames(con.actions);
    let size = con.chunk(s, data.len() as int);
    if con.available(s) <= 0 {
        if con.state.config.capacity_timeout is Some {
            frames_push(
                con.actions,
                ActionView::TimerStart(s, con.state.config.capacity_timeout->0),
            );
        }
        assert(before.take(before.len() as int) =~= before);
    } else {
        chunk_frame(con, s, data, eof);
        let mid = con.write_chunk(s, data, eof);
        if size >= data.len() {
            assert(frames(mid.actions).take(before.len() as int) =~= before);
        } else {
            let tail = data.skip(size);
            payload_frames(mid, s, tail, eof);
            let (next, rest) = mid.write_payload(s, tail, eof);
            let after = frames(next.actions);
            let between = frames(mid.actions);
            assert(between.drop_last() =~= before);
            assert(after.take(before.len() as int) =~= before) by {
                assert(after.take(before.len() as int) =~= after.take(
                    between.len() as int,
                ).drop_last());
            }
            assert(after[before.len() as int] == after.take(between.len() as int)[before.len() as int]);
        }
    }
}

/// Payload is accepted while a stream is at that point and has not failed. The end of a
/// stream without payload is one empty DATA frame.
pub proof fn payload_accepted(con: ConView, s: StreamRef, data: Seq<u8>, eof: bool)
    requires
        con.has(s),
        con.state.remote_frame_size > 0,
    ensures
        ({
            let st = con.slot(s);
            let (next, r) = con.send_payload(s, data, eof);
            &&& (r is Ok <==> st.send is Payload && st.error is None)
            &&& match r {
                Ok(rest) => if eof && data.len() == 0 {
                    &&& rest is None
                    &&& frames(next.actions) == frames(con.actions).push(
                        FrameView::Data(
                            DataView { stream_id: st.id, data, flags: DataFlags(1) },
                        ),
                    )
                    &&& next.slot(s) == (StreamState { send: HalfState::Closed(None), ..st })
                    &&& next.state.send_window == con.state.send_window
                } else {
                    (next, rest) == con.write_payload(s, data, eof)
                },
                Err(e) => {
                    &&& next == con
                    &&& e == match st.send {
                        HalfState::Idle => OperationError::Idle,
                        HalfState::Closed(reason) => OperationError::Closed(reason),
                        HalfState::Payload => st.error->0,
                    }
                },
            }
        }),
{
    close_is_silent(con, s, None);
    frames_push(
        con.send_close(s, None).actions,
        ActionView::Send(con.data_frame(s, data, true)),
    );
}

/// A stream may send what both windows hold, the smaller one of them, and waits where
/// there is none.
pub proof fn capacity_is_the_smaller_window(con: ConView, s: StreamRef)
    requires
        con.has(s),
        con.slot(s).error is None,
        con.state.error is None,
    ensures
        ({
            let (next, r) = con.poll_capacity(s);
            let a = con.slot(s).send_window.window_size;
            let b = con.state.send_window.window_size;
            &&& (r == Ok::<Option<u32>, OperationError>(None) <==> a <= 0 || b <= 0)
            &&& r matches Ok(Some(n)) ==> n == if a <= b {
                a as int
            } else {
                b as int
            }
            &&& r is Ok
            &&& next.slot(s).flags.wait_for_capacity == (a <= 0 || b <= 0)
            &&& frames(next.actions) == frames(con.actions)
            &&& next.slot(s).send_window == con.slot(s).send_window
            &&& next.state == con.state
        }),
{
    if let Some(t) = con.state.config.capacity_timeout {
        frames_push(con.actions, ActionView::TimerStart(s, t));
        frames_push(con.actions, ActionView::TimerStop(s));
    }
}

// ===== The end of a stream =====

/// Whether the HEADERS and DATA frames of a stream have the end of the stream, first to
/// last.
pub open spec fn ends(list: Seq<FrameView>, id: StreamId) -> Seq<bool>
    decreases list.len(),
{
    if list.len() == 0 {
        Seq::empty()
    } else {
        let rest = ends(list.drop_last(), id);
        match list.last() {
            FrameView::Headers(v) if v.stream_id == id => rest.push(v.flags.0 & 1 == 1),
            FrameView::Data(v) if v.stream_id == id => rest.push(v.flags.0 & 1 == 1),
            _ => rest,
        }
    }
}

/// How a step goes on with the frames of a stream. As long as this side is open none has
/// the end of the stream; what closes it without a reset writes exactly one, as the last
/// one.
pub open spec fn goes_on(con: ConView, next: ConView, s: StreamRef) -> bool {
    let id = con.slot(s).id;
    let a = ends(frames(con.actions), id);
    let b = ends(frames(next.actions), id);
    &&& a.len() <= b.len()
    &&& b.take(a.len() as int) == a
    &&& if con.slot(s).send is Closed {
        b.len() == a.len()
    } else if next.slot(s).send is Closed {
        &&& a.len() < b.len()
        &&& b.last()
        &&& forall|k: int| a.len() <= k < b.len() - 1 ==> !(#[trigger] b[k])
    } else {
        forall|k: int| a.len() <= k < b.len() ==> !(#[trigger] b[k])
    }
}

proof fn ends_push(list: Seq<FrameView>, f: FrameView, id: StreamId)
    ensures
        ends(list.push(f), id) == match f {
            FrameView::Headers(v) if v.stream_id == id => ends(list, id).push(v.flags.0 & 1 == 1),
            FrameView::Data(v) if v.stream_id == id => ends(list, id).push(v.flags.0 & 1 == 1),
            _ => ends(list, id),
        },
{
    assert(list.push(f).drop_last() =~= list);
}

/// DATA frames of a stream of which the last one may end it.
proof fn ends_of_data(before: Seq<FrameView>, after: Seq<FrameView>, id: StreamId, end: bool)
    requires
        before.len() <= after.len(),
        after.take(before.len() as int) == before,
        end ==> before.len() < after.len(),
        forall|k: int|
            before.len() <= k < after.len() ==> {
                &&& (#[trigger] after[k]) matches FrameView::Data(v)
                &&& v.stream_id == id
                &&& v.flags.0 == if end && k == after.len() - 1 {
                    1u8
                } else {
                    0
                }
            },
    ensures
        ({
            let a = ends(before, id);
            let b = ends(after, id);
            &&& b.len() == a.len() + after.len() - before.len()
            &&& b.take(a.len() as int) == a
            &&& forall|k: int|
                a.len() <= k < b.len() ==> #[trigger] b[k] == (end && k == b.len() - 1)
        }),
    decreases after.len(),
{
    let a = ends(before, id);
    let b = ends(after, id);
    if after.len() == before.len() {
        assert(after =~= before);
        assert(b.take(a.len() as int) =~= a);
    } else {
        let rest = after.drop_last();
        assert(rest.take(before.len() as int) =~= before);
        assert forall|k: int| before.len() <= k < rest.len() implies {
            &&& (#[trigger] rest[k]) matches FrameView::Data(v)
            &&& v.stream_id == id
            &&& v.flags.0 == 0
        } by {
            assert(rest[k] == after[k]);
        }
        ends_of_data(before, rest, id, false);
        let last = after[after.len() - 1];
        assert(1u8 & 1 == 1 && 0u8 & 1 != 1) by (bit_vector);
        assert(b.take(a.len() as int) =~= ends(rest, id).take(a.len() as int));
    }
}

/// Whatever closes this side of a stream without a reset, be it response headers,
/// payload or trailers, writes exactly one frame with the end of the stream, and it is
/// the last HEADERS or DATA frame of the stream: once a side is closed, nothing follows.
pub proof fn end_is_written_once(
    con: ConView,
    s: StreamRef,
    status: u16,
    fields: Fields,
    data: Seq<u8>,
    eof: bool,
)
    requires
        con.has(s),
        con.state.remote_frame_size > 0,
    ensures
        goes_on(con, con.send_response(s, status, fields, eof).0, s),
        goes_on(con, con.send_payload(s, data, eof).0, s),
        goes_on(con, con.send_trailers(s, fields), s),
{
    let id = con.slot(s).id;
    let before = frames(con.actions);
    let a = ends(before, id);
    assert(5u8 & 1 == 1 && 4u8 & 1 != 1 && 1u8 & 1 == 1) by (bit_vector);
    assert(a.take(a.len() as int) =~= a);
    response_frame(con, s, status, fields, eof);
    trailers_frame(con, s, fields);
    payload_accepted(con, s, data, eof);
    let response = con.send_response(s, status, fields, eof).0;
    let trailers = con.send_trailers(s, fields);
    let payload = con.send_payload(s, data, eof);
    if con.send_response(s, status, fields, eof).1 is Ok {
        ends_push(before, frames(response.actions).last(), id);
        assert(frames(response.actions) =~= before.push(frames(response.actions).last()));
        assert(ends(frames(response.actions), id).take(a.len() as int) =~= a);
    }
    if con.slot(s).send is Payload {
        ends_push(before, frames(trailers.actions).last(), id);
        assert(frames(trailers.actions) =~= before.push(frames(trailers.actions).last()));
        assert(ends(frames(trailers.actions), id).take(a.len() as int) =~= a);
        if con.slot(s).error is None {
            if eof && data.len() == 0 {
                ends_push(before, frames(payload.0.actions).last(), id);
                assert(frames(payload.0.actions) =~= before.push(frames(payload.0.actions).last()));
                assert(ends(frames(payload.0.actions), id).take(a.len() as int) =~= a);
            } else {
                payload_frames(con, s, data, eof);
                let (next, rest) = con.write_payload(s, data, eof);
                ends_of_data(before, frames(next.actions), id, rest is None && eof);
            }
        }
    }
}

/// Going on with payload that was left for later keeps to the same.
pub proof fn end_is_written_later(con: ConView, s: StreamRef, data: Seq<u8>, eof: bool)
    requires
        con.has(s),
        con.state.remote_frame_size > 0,
        con.slot(s).send is Payload,
    ensures
        goes_on(con, con.write_payload(s, data, eof).0, s),
{
    let before = frames(con.actions);
    payload_frames(con, s, data, eof);
    let (next, rest) = con.write_payload(s, data, eof);
    ends_of_data(before, frames(next.actions), con.slot(s).id, rest is None && eof);
}

} // verus!
