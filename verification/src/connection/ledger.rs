//! What the send windows are, whatever has happened on a connection.
use vstd::prelude::*;

use crate::connection::sent::{self, frames};
use crate::connection::view::{ActionView, ConView, ConnectionState, EitherError};
use crate::error::{ConnectionError, OperationError, StreamError, StreamErrorInner};
use crate::frame::go_away::GoAwayView;
use crate::frame::{FrameView, Reason, Reset, StreamId, WindowUpdate};
use crate::stream::{HalfState, StreamFlags, StreamRef, StreamState};
use crate::window::Window;

verus! {

// ===== WINDOW_UPDATE =====

proof fn grown_keeps(con: ConView, s: StreamRef)
    requires
        con.has(s),
    ensures
        ({
            let next = con.con_window_grown(s);
            &&& frames(next.actions) == frames(con.actions)
            &&& next.state == con.state
            &&& next.streams == con.streams
            &&& next.slots.len() == con.slots.len()
            &&& forall|i: int|
                0 <= i < con.slots.len() ==> (#[trigger] next.slots[i]) == (StreamState {
                    flags: next.slots[i].flags,
                    ..con.slots[i]
                })
        }),
{
    sent::frames_push(con.actions, ActionView::WakeSend(s));
    sent::frames_push(con.actions.push(ActionView::WakeSend(s)), ActionView::TimerStop(s));
}

pub proof fn grown_all_keeps(con: ConView, list: Seq<StreamRef>)
    requires
        forall|k: int| 0 <= k < list.len() ==> con.has(#[trigger] list[k]),
    ensures
        ({
            let next = con.con_window_grown_all(list);
            &&& frames(next.actions) == frames(con.actions)
            &&& next.state == con.state
            &&& next.streams == con.streams
            &&& next.slots.len() == con.slots.len()
            &&& forall|i: int|
                0 <= i < con.slots.len() ==> (#[trigger] next.slots[i]) == (StreamState {
                    flags: next.slots[i].flags,
                    ..con.slots[i]
                })
        }),
    decreases list.len(),
{
    if list.len() > 0 {
        let rest = list.drop_last();
        assert forall|k: int| 0 <= k < rest.len() implies con.has(#[trigger] rest[k]) by {
            assert(rest[k] == list[k]);
        }
        grown_all_keeps(con, rest);
        assert(con.has(list[list.len() - 1]));
        grown_keeps(con.con_window_grown_all(rest), list.last());
    }
}

/// A WINDOW_UPDATE of the connection adds its increment to the send window of the
/// connection, and to no other. It is refused, and changes nothing, if it is zero or the
/// window would become too large.
pub proof fn connection_window_grows(con: ConView, n: u32)
    requires
        con.wf(),
        con.slots.len() <= usize::MAX,
    ensures
        ({
            let (next, r) = con.recv_window_update(
                WindowUpdate { stream_id: StreamId(0), size_increment: n },
            );
            let before = con.state.send_window.window_size;
            if n == 0 {
                &&& r == Err::<(), EitherError>(
                    EitherError::Connection(ConnectionError::ZeroWindowUpdateValue),
                )
                &&& next == con
            } else if before + n > 0x7fff_ffff {
                &&& r == Err::<(), EitherError>(
                    EitherError::Connection(ConnectionError::WindowValueOverflow),
                )
                &&& next == con
            } else {
                &&& r is Ok
                &&& next.state.send_window.window_size == before + n
                &&& next.state == (ConnectionState {
                    send_window: next.state.send_window,
                    ..con.state
                })
                &&& frames(next.actions) == frames(con.actions)
                &&& forall|i: int|
                    0 <= i < con.slots.len() ==> (#[trigger] next.slots[i]).send_window
                        == con.slots[i].send_window && next.slots[i].send == con.slots[i].send
            }
        }),
{
    reveal(ConView::recv_window_update);
    con.streams_listed(con.slots.len());
    let list = con.all_streams();
    let grown = con.with_state(
        ConnectionState {
            send_window: Window {
                window_size: (con.state.send_window.window_size + n) as i32,
            },
            ..con.state
        },
    );
    assert forall|k: int| 0 <= k < list.len() implies grown.has(#[trigger] list[k]) by {}
    grown_all_keeps(grown, list);
}

/// A WINDOW_UPDATE of a stream adds its increment to the send window of that stream, and
/// to no other. It is refused, and changes nothing, if it is zero or the window would
/// become too large.
pub proof fn stream_window_grows(con: ConView, id: StreamId, s: StreamRef, n: u32)
    requires
        con.wf(),
        con.has(s),
        id.0 != 0,
        con.query(id) == Some(s),
    ensures
        ({
            let (next, r) = con.recv_window_update(
                WindowUpdate { stream_id: id, size_increment: n },
            );
            let before = con.slot(s).send_window.window_size;
            if n == 0 {
                &&& r == Err::<(), EitherError>(
                    EitherError::Stream(
                        StreamErrorInner { kind: StreamError::WindowZeroUpdateValue, stream: s },
                    ),
                )
                &&& next == con
            } else if before + n > 0x7fff_ffff {
                &&& r == Err::<(), EitherError>(
                    EitherError::Stream(
                        StreamErrorInner { kind: StreamError::WindowOverflowed, stream: s },
                    ),
                )
                &&& next == con
            } else {
                &&& r is Ok
                &&& next.slot(s).send_window.window_size == before + n
                &&& next.slot(s).send == con.slot(s).send
                &&& next.slot(s).recv_window == con.slot(s).recv_window
                &&& next.state == con.state
                &&& frames(next.actions) == frames(con.actions)
                &&& forall|i: int|
                    0 <= i < con.slots.len() && i != s.0 ==> (#[trigger] next.slots[i])
                        == con.slots[i]
                &&& before + n > 0 ==> exists|k: int|
                    con.actions.len() <= k < next.actions.len() && #[trigger] next.actions[k]
                        == ActionView::WakeSend(s)
            }
        }),
{
    reveal(ConView::recv_window_update);
    sent::frames_push(con.actions, ActionView::WakeSend(s));
    sent::frames_push(con.actions.push(ActionView::WakeSend(s)), ActionView::TimerStop(s));
    let next = con.recv_window_update(WindowUpdate { stream_id: id, size_increment: n }).0;
    if n > 0 && con.slot(s).send_window.window_size + n > 0 && con.slot(s).send_window.window_size
        + n <= 0x7fff_ffff {
        assert(next.actions[con.actions.len() as int] == ActionView::WakeSend(s));
    }
}

/// A stream that has waited for the window of the connection goes on when that grows,
/// unless its own window is used up.
pub proof fn waiting_streams_go_on(con: ConView, n: u32, s: StreamRef)
    requires
        con.wf(),
        con.slots.len() <= usize::MAX,
        con.has(s),
        con.registered(s.0 as int),
        con.slot(s).flags.wait_for_capacity,
        con.slot(s).send_window.window_size > 0,
        n > 0,
        con.state.send_window.window_size + n <= 0x7fff_ffff,
    ensures
        ({
            let next = con.recv_window_update(
                WindowUpdate { stream_id: StreamId(0), size_increment: n },
            ).0;
            &&& !next.slot(s).flags.wait_for_capacity
            &&& exists|k: int|
                con.actions.len() <= k < next.actions.len() && #[trigger] next.actions[k]
                    == ActionView::WakeSend(s)
        }),
{
    reveal(ConView::recv_window_update);
    con.streams_listed(con.slots.len());
    let list = con.all_streams();
    let grown = con.with_state(
        ConnectionState {
            send_window: Window {
                window_size: (con.state.send_window.window_size + n) as i32,
            },
            ..con.state
        },
    );
    assert(list.contains(StreamRef(s.0)));
    let k = choose|k: int| 0 <= k < list.len() && list[k] == StreamRef(s.0);
    assert forall|j: int| 0 <= j < list.len() implies grown.has(#[trigger] list[j]) by {}
    woken(grown, list, s, k);
}

proof fn woken(con: ConView, list: Seq<StreamRef>, s: StreamRef, k: int)
    requires
        forall|j: int| 0 <= j < list.len() ==> con.has(#[trigger] list[j]),
        0 <= k < list.len(),
        list[k] == s,
        con.slot(s).flags.wait_for_capacity,
        con.slot(s).send_window.window_size > 0,
    ensures
        ({
            let next = con.con_window_grown_all(list);
            &&& con.actions.len() <= next.actions.len()
            &&& !next.slot(s).flags.wait_for_capacity
            &&& exists|j: int|
                con.actions.len() <= j < next.actions.len() && #[trigger] next.actions[j]
                    == ActionView::WakeSend(s)
        }),
    decreases list.len(),
{
    let rest = list.drop_last();
    assert forall|j: int| 0 <= j < rest.len() implies con.has(#[trigger] rest[j]) by {
        assert(rest[j] == list[j]);
    }
    let mid = con.con_window_grown_all(rest);
    let next = con.con_window_grown_all(list);
    grown_all_keeps(con, rest);
    actions_grow(con, rest);
    assert(con.has(list[list.len() - 1]));
    if k < list.len() - 1 {
        woken(con, rest, s, k);
        let j = choose|j: int|
            con.actions.len() <= j < mid.actions.len() && #[trigger] mid.actions[j]
                == ActionView::WakeSend(s);
        assert(next.actions[j] == mid.actions[j]);
    } else if mid.slot(s).flags.wait_for_capacity {
        assert(next.actions[mid.actions.len() as int] == ActionView::WakeSend(s));
    } else {
        cleared(con, rest, s);
        let j = choose|j: int|
            con.actions.len() <= j < mid.actions.len() && #[trigger] mid.actions[j]
                == ActionView::WakeSend(s);
        assert(next.actions[j] == mid.actions[j]);
    }
}

proof fn actions_grow(con: ConView, list: Seq<StreamRef>)
    ensures
        con.actions.len() <= con.con_window_grown_all(list).actions.len(),
    decreases list.len(),
{
    if list.len() > 0 {
        actions_grow(con, list.drop_last());
    }
}

/// A stream that does not wait any more has been woken up.
proof fn cleared(con: ConView, list: Seq<StreamRef>, s: StreamRef)
    requires
        forall|j: int| 0 <= j < list.len() ==> con.has(#[trigger] list[j]),
        con.has(s),
        con.slot(s).flags.wait_for_capacity,
        !con.con_window_grown_all(list).slot(s).flags.wait_for_capacity,
    ensures
        exists|j: int|
            con.actions.len() <= j < con.con_window_grown_all(list).actions.len()
                && #[trigger] con.con_window_grown_all(list).actions[j] == ActionView::WakeSend(s),
    decreases list.len(),
{
    if list.len() > 0 {
        let rest = list.drop_last();
        assert forall|j: int| 0 <= j < rest.len() implies con.has(#[trigger] rest[j]) by {
            assert(rest[j] == list[j]);
        }
        let mid = con.con_window_grown_all(rest);
        let next = con.con_window_grown_all(list);
        grown_all_keeps(con, rest);
        actions_grow(con, rest);
        assert(con.has(list[list.len() - 1]));
        if mid.slot(s).flags.wait_for_capacity {
            assert(list.last() == s);
            assert(next.actions[mid.actions.len() as int] == ActionView::WakeSend(s));
        } else {
            cleared(con, rest, s);
            let j = choose|j: int|
                con.actions.len() <= j < mid.actions.len() && #[trigger] mid.actions[j]
                    == ActionView::WakeSend(s);
            assert(next.actions[j] == mid.actions[j]);
        }
    }
}

// ===== Runs =====

/// The payload bytes in a list of frames.
pub open spec fn data_total(list: Seq<FrameView>) -> int
    decreases list.len(),
{
    if list.len() == 0 {
        0
    } else {
        data_total(list.drop_last()) + match list.last() {
            FrameView::Data(v) => v.data.len() as int,
            _ => 0,
        }
    }
}

pub proof fn data_total_push(list: Seq<FrameView>, f: FrameView)
    ensures
        data_total(list.push(f)) == data_total(list) + match f {
            FrameView::Data(v) => v.data.len() as int,
            _ => 0,
        },
{
    assert(list.push(f).drop_last() =~= list);
}

/// A step that sends no payload and leaves the send window of the connection as it is.
pub open spec fn calm(con: ConView, next: ConView) -> bool {
    &&& next.state.send_window == con.state.send_window
    &&& data_total(frames(next.actions)) == data_total(frames(con.actions))
    &&& next.slots.len() >= con.slots.len()
}

pub proof fn act_is_calm(con: ConView, a: ActionView)
    requires
        !(a matches ActionView::Send(FrameView::Data(_))),
    ensures
        calm(con, con.act(a)),
{
    sent::frames_push(con.actions, a);
    if let ActionView::Send(f) = a {
        data_total_push(frames(con.actions), f);
    }
}

pub proof fn slot_closing_is_calm(con: ConView, s: StreamRef, st: StreamState)
    requires
        con.has(s),
    ensures
        calm(con, con.with_slot(s, st).settle(s)),
{
    sent::settle_is_silent(con.with_slot(s, st), s);
}

pub proof fn reset_is_calm(con: ConView, s: StreamRef, reason: Reason)
    requires
        con.has(s),
    ensures
        calm(con, con.reset(s, reason)),
        con.reset(s, reason).has(s),
{
    sent::reset_frame_sent(con, s, reason);
    data_total_push(
        frames(con.actions),
        FrameView::Reset(Reset { stream_id: con.slot(s).id, error_code: reason }),
    );
    let told = con.reset_frame(con.slot(s).id, reason);
    sent::settle_is_silent(
        told.with_slot(
            s,
            StreamState {
                recv: HalfState::Closed(Some(reason)),
                send: HalfState::Closed(None),
                error: Some(OperationError::LocalReset(reason)),
                ..con.slot(s)
            },
        ),
        s,
    );
}

pub proof fn failed_is_calm(con: ConView, s: StreamRef, err: OperationError)
    requires
        con.has(s),
    ensures
        calm(con, con.failed(s, err)),
{
    let st = con.slot(s);
    slot_closing_is_calm(
        con,
        s,
        StreamState {
            recv: ConView::shut(st.recv),
            send: ConView::shut(st.send),
            error: Some(err),
            flags: StreamFlags { failed: true, ..st.flags },
            ..st
        },
    );
}

pub proof fn remote_reset_is_calm(con: ConView, s: StreamRef, reason: Reason)
    requires
        con.has(s),
    ensures
        calm(con, con.remote_reset(s, reason)),
{
    slot_closing_is_calm(
        con,
        s,
        StreamState {
            recv: HalfState::Closed(None),
            send: HalfState::Closed(Some(reason)),
            error: Some(OperationError::RemoteReset(reason)),
            ..con.slot(s)
        },
    );
}

proof fn failed_all_is_calm(con: ConView, list: Seq<StreamRef>, err: OperationError)
    requires
        forall|k: int| 0 <= k < list.len() ==> con.has(#[trigger] list[k]),
    ensures
        calm(con, con.failed_all(list, err)),
    decreases list.len(),
{
    if list.len() > 0 {
        let rest = list.drop_last();
        assert forall|k: int| 0 <= k < rest.len() implies con.has(#[trigger] rest[k]) by {
            assert(rest[k] == list[k]);
        }
        failed_all_is_calm(con, rest, err);
        assert(con.has(list[list.len() - 1]));
        failed_is_calm(con.failed_all(rest, err), list.last(), err);
    }
}

proof fn remote_reset_all_is_calm(con: ConView, list: Seq<StreamRef>, reason: Reason)
    requires
        forall|k: int| 0 <= k < list.len() ==> con.has(#[trigger] list[k]),
    ensures
        calm(con, con.remote_reset_all(list, reason)),
    decreases list.len(),
{
    if list.len() > 0 {
        let rest = list.drop_last();
        assert forall|k: int| 0 <= k < rest.len() implies con.has(#[trigger] rest[k]) by {
            assert(rest[k] == list[k]);
        }
        remote_reset_all_is_calm(con, rest, reason);
        assert(con.has(list[list.len() - 1]));
        remote_reset_is_calm(con.remote_reset_all(rest, reason), list.last(), reason);
    }
}

pub proof fn waiters_are_calm(con: ConView, list: Seq<ActionView>)
    requires
        forall|k: int|
            0 <= k < list.len() ==> !((#[trigger] list[k]) matches ActionView::Send(_)),
    ensures
        frames(con.actions + list) == frames(con.actions),
    decreases list.len(),
{
    if list.len() == 0 {
        assert(con.actions + list =~= con.actions);
    } else {
        let rest = list.drop_last();
        assert forall|k: int| 0 <= k < rest.len() implies !((
        #[trigger] rest[k]) matches ActionView::Send(_)) by {
            assert(rest[k] == list[k]);
        }
        waiters_are_calm(con, rest);
        assert((con.actions + list).drop_last() =~= con.actions + rest);
        assert(!(list[list.len() - 1] matches ActionView::Send(_)));
    }
}

pub proof fn ending_is_calm(con: ConView, err: ConnectionError, reason: Reason)
    requires
        con.wf(),
        con.slots.len() <= usize::MAX,
    ensures
        calm(con, con.recv_go_away(reason)),
        calm(con, con.proto_error(err)),
        calm(con, con.timed_out(err)),
        calm(con, con.disconnect()),
{
    reveal(ConView::recv_go_away);
    reveal(ConView::proto_error);
    reveal(ConView::timed_out);
    reveal(ConView::disconnect);
    con.streams_listed(con.slots.len());
    let list = con.all_streams();
    let gone = con.readiness.map_values(|w: u64| ActionView::Gone(w));
    waiters_are_calm(con, gone);
    let told = con.gone_all();
    act_is_calm(told, ActionView::Capacity);
    act_is_calm(con, ActionView::Capacity);
    let away = con.with_error(
        OperationError::Connection(ConnectionError::GoAway(reason)),
    ).gone_all().act(ActionView::Capacity).without_streams();
    assert(away.actions == told.act(ActionView::Capacity).actions);
    assert forall|k: int| 0 <= k < list.len() implies away.has(#[trigger] list[k]) by {}
    remote_reset_all_is_calm(away, list, reason);
    let oper = OperationError::Connection(err);
    let broken = con.with_error(oper).gone_all().act(ActionView::Capacity).without_streams();
    assert(broken.actions == told.act(ActionView::Capacity).actions);
    assert forall|k: int| 0 <= k < list.len() implies broken.has(#[trigger] list[k]) by {}
    failed_all_is_calm(broken, list, oper);
    let late = con.with_error(oper).without_streams();
    assert forall|k: int| 0 <= k < list.len() implies late.has(#[trigger] list[k]) by {}
    failed_all_is_calm(late, list, oper);
    let dead = late.failed_all(list, oper);
    let bye = FrameView::GoAway(GoAwayView::plain(Reason::NO_ERROR));
    act_is_calm(dead, ActionView::Send(bye));
    act_is_calm(dead.send(bye), ActionView::Close);
    act_is_calm(dead.send(bye).act(ActionView::Close), ActionView::Capacity);
    let err = match con.state.error {
        Some(e) => e,
        None => OperationError::Disconnected,
    };
    let lost = con.with_error(err).act(ActionView::Capacity).without_streams();
    assert(lost.actions == con.act(ActionView::Capacity).actions);
    assert forall|k: int| 0 <= k < list.len() implies lost.has(#[trigger] list[k]) by {}
    failed_all_is_calm(lost, list, OperationError::Disconnected);
}

} // verus!
