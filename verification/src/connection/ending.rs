//! How a connection ends, and what its streams are told.
use vstd::prelude::*;

use crate::connection::ledger;
use crate::connection::sent::{self, frames};
use crate::connection::view::{ActionView, ConView, Entry};
use crate::error::{ConnectionError, OperationError};
use crate::frame::go_away::GoAwayView;
use crate::frame::{FrameView, Reason, StreamId};
use crate::stream::{HalfState, StreamFlags, StreamRef, StreamState};

verus! {

/// A half that has been open is closed without a reason.
pub open spec fn half_over(before: HalfState, after: HalfState) -> bool {
    after == match before {
        HalfState::Closed(_) => before,
        _ => HalfState::Closed(None),
    }
}

/// A stream that has failed: closed, and with the error.
pub open spec fn stream_over(before: StreamState, after: StreamState, err: OperationError) -> bool {
    &&& half_over(before.recv, after.recv)
    &&& half_over(before.send, after.send)
    &&& after.error == Some(err)
    &&& after.flags.failed
    &&& after.id == before.id
}

/// A stream that the peer has reset.
pub open spec fn stream_reset(before: StreamState, after: StreamState, reason: Reason) -> bool {
    &&& after.recv == HalfState::Closed(None)
    &&& after.send == HalfState::Closed(Some(reason))
    &&& after.error == Some(OperationError::RemoteReset(reason))
    &&& after.id == before.id
}

proof fn settled(con: ConView, s: StreamRef)
    requires
        con.streams == Map::<u32, Entry>::empty(),
    ensures
        con.settle(s).streams == con.streams,
{
    reveal(ConView::drop_stream);
}

proof fn failed_once(con: ConView, s: StreamRef, err: OperationError)
    requires
        con.has(s),
        con.streams == Map::<u32, Entry>::empty(),
    ensures
        ({
            let next = con.failed(s, err);
            &&& next.streams == con.streams
            &&& next.state.error == con.state.error
            &&& frames(next.actions) == frames(con.actions)
            &&& next.slots == con.slots.update(s.0 as int, next.slot(s))
            &&& stream_over(con.slot(s), next.slot(s), err)
        }),
{
    let st = con.slot(s);
    let shut = con.with_slot(
        s,
        StreamState {
            recv: ConView::shut(st.recv),
            send: ConView::shut(st.send),
            error: Some(err),
            flags: StreamFlags { failed: true, ..st.flags },
            ..st
        },
    );
    sent::settle_is_silent(shut, s);
    settled(shut, s);
}

proof fn reset_once(con: ConView, s: StreamRef, reason: Reason)
    requires
        con.has(s),
        con.streams == Map::<u32, Entry>::empty(),
    ensures
        ({
            let next = con.remote_reset(s, reason);
            &&& next.streams == con.streams
            &&& next.state.error == con.state.error
            &&& frames(next.actions) == frames(con.actions)
            &&& next.slots == con.slots.update(s.0 as int, next.slot(s))
            &&& stream_reset(con.slot(s), next.slot(s), reason)
        }),
{
    let shut = con.with_slot(
        s,
        StreamState {
            recv: HalfState::Closed(None),
            send: HalfState::Closed(Some(reason)),
            error: Some(OperationError::RemoteReset(reason)),
            ..con.slot(s)
        },
    );
    sent::settle_is_silent(shut, s);
    settled(shut, s);
}

proof fn all_failed(con: ConView, list: Seq<StreamRef>, err: OperationError)
    requires
        con.streams == Map::<u32, Entry>::empty(),
        forall|k: int| 0 <= k < list.len() ==> con.has(#[trigger] list[k]),
        forall|j: int, k: int|
            0 <= j < k < list.len() ==> (#[trigger] list[j]).0 < (#[trigger] list[k]).0,
    ensures
        ({
            let next = con.failed_all(list, err);
            &&& next.streams == con.streams
            &&& next.state.error == con.state.error
            &&& frames(next.actions) == frames(con.actions)
            &&& next.slots.len() == con.slots.len()
            &&& forall|k: int|
                0 <= k < list.len() ==> stream_over(
                    con.slot(#[trigger] list[k]),
                    next.slot(list[k]),
                    err,
                )
            &&& forall|i: int|
                0 <= i < con.slots.len() && !list.contains(StreamRef(i as usize))
                    ==> #[trigger] next.slots[i] == con.slots[i]
        }),
    decreases list.len(),
{
    if list.len() > 0 {
        let rest = list.drop_last();
        let last = list.len() - 1;
        assert forall|k: int| 0 <= k < rest.len() implies con.has(#[trigger] rest[k]) && rest[k].0
            < list[last].0 by {
            assert(rest[k] == list[k]);
        }
        assert forall|j: int, k: int| 0 <= j < k < rest.len() implies (#[trigger] rest[j]).0 < (
        #[trigger] rest[k]).0 by {
            assert(rest[j] == list[j] && rest[k] == list[k]);
        }
        all_failed(con, rest, err);
        let mid = con.failed_all(rest, err);
        assert(con.has(list[last]));
        failed_once(mid, list[last], err);
        let next = con.failed_all(list, err);
        assert(!rest.contains(StreamRef(list[last].0)));
        assert(mid.slots[list[last].0 as int] == con.slots[list[last].0 as int]);
        assert forall|k: int| 0 <= k < list.len() implies stream_over(
            con.slot(#[trigger] list[k]),
            next.slot(list[k]),
            err,
        ) by {
            if k < last {
                assert(rest[k] == list[k]);
            }
        }
        assert forall|i: int|
            0 <= i < con.slots.len() && !list.contains(StreamRef(i as usize)) implies #[trigger] next.slots[i]
            == con.slots[i] by {
            assert(list[last].0 != i) by {
                if list[last].0 == i {
                    assert(list[last] == StreamRef(i as usize));
                }
            }
            if rest.contains(StreamRef(i as usize)) {
                let k = choose|k: int| 0 <= k < rest.len() && rest[k] == StreamRef(i as usize);
                assert(list[k] == StreamRef(i as usize));
            }
            assert(mid.slots[i] == con.slots[i]);
        }
    }
}

proof fn all_reset(con: ConView, list: Seq<StreamRef>, reason: Reason)
    requires
        con.streams == Map::<u32, Entry>::empty(),
        forall|k: int| 0 <= k < list.len() ==> con.has(#[trigger] list[k]),
        forall|j: int, k: int|
            0 <= j < k < list.len() ==> (#[trigger] list[j]).0 < (#[trigger] list[k]).0,
    ensures
        ({
            let next = con.remote_reset_all(list, reason);
            &&& next.streams == con.streams
            &&& next.state.error == con.state.error
            &&& frames(next.actions) == frames(con.actions)
            &&& next.slots.len() == con.slots.len()
            &&& forall|k: int|
                0 <= k < list.len() ==> stream_reset(
                    con.slot(#[trigger] list[k]),
                    next.slot(list[k]),
                    reason,
                )
            &&& forall|i: int|
                0 <= i < con.slots.len() && !list.contains(StreamRef(i as usize))
                    ==> #[trigger] next.slots[i] == con.slots[i]
        }),
    decreases list.len(),
{
    if list.len() > 0 {
        let rest = list.drop_last();
        let last = list.len() - 1;
        assert forall|k: int| 0 <= k < rest.len() implies con.has(#[trigger] rest[k]) && rest[k].0
            < list[last].0 by {
            assert(rest[k] == list[k]);
        }
        assert forall|j: int, k: int| 0 <= j < k < rest.len() implies (#[trigger] rest[j]).0 < (
        #[trigger] rest[k]).0 by {
            assert(rest[j] == list[j] && rest[k] == list[k]);
        }
        all_reset(con, rest, reason);
        let mid = con.remote_reset_all(rest, reason);
        assert(con.has(list[last]));
        reset_once(mid, list[last], reason);
        let next = con.remote_reset_all(list, reason);
        assert(!rest.contains(StreamRef(list[last].0)));
        assert(mid.slots[list[last].0 as int] == con.slots[list[last].0 as int]);
        assert forall|k: int| 0 <= k < list.len() implies stream_reset(
            con.slot(#[trigger] list[k]),
            next.slot(list[k]),
            reason,
        ) by {
            if k < last {
                assert(rest[k] == list[k]);
            }
        }
        assert forall|i: int|
            0 <= i < con.slots.len() && !list.contains(StreamRef(i as usize)) implies #[trigger] next.slots[i]
            == con.slots[i] by {
            assert(list[last].0 != i) by {
                if list[last].0 == i {
                    assert(list[last] == StreamRef(i as usize));
                }
            }
            if rest.contains(StreamRef(i as usize)) {
                let k = choose|k: int| 0 <= k < rest.len() && rest[k] == StreamRef(i as usize);
                assert(list[k] == StreamRef(i as usize));
            }
            assert(mid.slots[i] == con.slots[i]);
        }
    }
}

/// A connection that has ended: no stream is open on it, no more can be opened, and every
/// stream that was open has failed with an error. The others stay as they are.
pub open spec fn all_over(
    con: ConView,
    next: ConView,
    con_error: OperationError,
    error: OperationError,
) -> bool {
    &&& next.streams == Map::<u32, Entry>::empty()
    &&& next.state.error == Some(con_error)
    &&& next.slots.len() == con.slots.len()
    &&& forall|i: int|
        0 <= i < con.slots.len() ==> if con.registered(i) {
            stream_over(con.slots[i], #[trigger] next.slots[i], error)
        } else {
            next.slots[i] == con.slots[i]
        }
}

proof fn listed_over(con: ConView, start: ConView, err: OperationError)
    requires
        con.wf(),
        con.slots.len() <= usize::MAX,
        start.slots == con.slots,
        start.streams == Map::<u32, Entry>::empty(),
    ensures
        ({
            let next = start.failed_all(con.all_streams(), err);
            &&& next.streams == start.streams
            &&& next.state.error == start.state.error
            &&& frames(next.actions) == frames(start.actions)
            &&& next.slots.len() == con.slots.len()
            &&& forall|i: int|
                0 <= i < con.slots.len() ==> if con.registered(i) {
                    stream_over(con.slots[i], #[trigger] next.slots[i], err)
                } else {
                    next.slots[i] == con.slots[i]
                }
        }),
{
    con.streams_listed(con.slots.len());
    let list = con.all_streams();
    assert forall|k: int| 0 <= k < list.len() implies start.has(#[trigger] list[k]) by {}
    all_failed(start, list, err);
    let next = start.failed_all(list, err);
    assert forall|i: int| 0 <= i < con.slots.len() implies if con.registered(i) {
        stream_over(con.slots[i], #[trigger] next.slots[i], err)
    } else {
        next.slots[i] == con.slots[i]
    } by {
        if con.registered(i) {
            assert(list.contains(StreamRef(i as usize)));
            let k = choose|k: int| 0 <= k < list.len() && list[k] == StreamRef(i as usize);
            assert(list[k].0 == i);
        } else if list.contains(StreamRef(i as usize)) {
            let k = choose|k: int| 0 <= k < list.len() && list[k] == StreamRef(i as usize);
            assert(con.registered(list[k].0 as int));
        }
    }
}

/// A peer that breaks the protocol loses all of its streams, each with the error. Nothing
/// is written.
pub proof fn fault_ends_all(con: ConView, err: ConnectionError)
    requires
        con.wf(),
        con.slots.len() <= usize::MAX,
    ensures
        all_over(
            con,
            con.proto_error(err),
            OperationError::Connection(err),
            OperationError::Connection(err),
        ),
        frames(con.proto_error(err).actions) == frames(con.actions),
{
    reveal(ConView::proto_error);
    let oper = OperationError::Connection(err);
    let gone = con.readiness.map_values(|w: u64| ActionView::Gone(w));
    ledger::waiters_are_calm(con, gone);
    sent::frames_push(con.actions + gone, ActionView::Capacity);
    let start = con.with_error(oper).gone_all().act(ActionView::Capacity).without_streams();
    assert(start.actions == (con.actions + gone).push(ActionView::Capacity));
    listed_over(con, start, oper);
}

/// A connection that times out loses all of its streams, and the peer is told with one
/// GOAWAY frame that there was no error. Then it is closed.
pub proof fn timeout_ends_all(con: ConView, err: ConnectionError)
    requires
        con.wf(),
        con.slots.len() <= usize::MAX,
    ensures
        all_over(
            con,
            con.timed_out(err),
            OperationError::Connection(err),
            OperationError::Connection(err),
        ),
        frames(con.timed_out(err).actions) == frames(con.actions).push(
            FrameView::GoAway(
                GoAwayView {
                    last_stream_id: StreamId(0),
                    error_code: Reason::NO_ERROR,
                    data: Seq::empty(),
                },
            ),
        ),
        con.timed_out(err).state.closed,
{
    reveal(ConView::timed_out);
    let oper = OperationError::Connection(err);
    let start = con.with_error(oper).without_streams();
    listed_over(con, start, oper);
    let dead = start.failed_all(con.all_streams(), oper);
    let bye = FrameView::GoAway(GoAwayView::plain(Reason::NO_ERROR));
    sent::frames_push(dead.actions, ActionView::Send(bye));
    sent::frames_push(dead.send(bye).actions, ActionView::Close);
    sent::frames_push(dead.send(bye).act(ActionView::Close).actions, ActionView::Capacity);
}

/// A connection whose transport is lost loses all of its streams. An error that it has
/// had before stays its error. Nothing is written.
pub proof fn loss_ends_all(con: ConView)
    requires
        con.wf(),
        con.slots.len() <= usize::MAX,
    ensures
        all_over(
            con,
            con.disconnect(),
            match con.state.error {
                Some(e) => e,
                None => OperationError::Disconnected,
            },
            OperationError::Disconnected,
        ),
        frames(con.disconnect().actions) == frames(con.actions),
{
    reveal(ConView::disconnect);
    let err = match con.state.error {
        Some(e) => e,
        None => OperationError::Disconnected,
    };
    sent::frames_push(con.actions, ActionView::Capacity);
    let start = con.with_error(err).act(ActionView::Capacity).without_streams();
    listed_over(con, start, OperationError::Disconnected);
}

/// A peer that goes away takes all streams along: each is reset for the reason that it
/// gives. Nothing is written.
pub proof fn leave_ends_all(con: ConView, reason: Reason)
    requires
        con.wf(),
        con.slots.len() <= usize::MAX,
    ensures
        ({
            let next = con.recv_go_away(reason);
            &&& next.streams == Map::<u32, Entry>::empty()
            &&& next.state.error == Some(
                OperationError::Connection(ConnectionError::GoAway(reason)),
            )
            &&& next.slots.len() == con.slots.len()
            &&& frames(next.actions) == frames(con.actions)
            &&& forall|i: int|
                0 <= i < con.slots.len() ==> if con.registered(i) {
                    stream_reset(con.slots[i], #[trigger] next.slots[i], reason)
                } else {
                    next.slots[i] == con.slots[i]
                }
        }),
{
    reveal(ConView::recv_go_away);
    con.streams_listed(con.slots.len());
    let list = con.all_streams();
    let gone = con.readiness.map_values(|w: u64| ActionView::Gone(w));
    ledger::waiters_are_calm(con, gone);
    sent::frames_push(con.actions + gone, ActionView::Capacity);
    let start = con.with_error(
        OperationError::Connection(ConnectionError::GoAway(reason)),
    ).gone_all().act(ActionView::Capacity).without_streams();
    assert(start.actions == (con.actions + gone).push(ActionView::Capacity));
    assert forall|k: int| 0 <= k < list.len() implies start.has(#[trigger] list[k]) by {}
    all_reset(start, list, reason);
    let next = start.remote_reset_all(list, reason);
    assert forall|i: int| 0 <= i < con.slots.len() implies if con.registered(i) {
        stream_reset(con.slots[i], #[trigger] next.slots[i], reason)
    } else {
        next.slots[i] == con.slots[i]
    } by {
        if con.registered(i) {
            assert(list.contains(StreamRef(i as usize)));
            let k = choose|k: int| 0 <= k < list.len() && list[k] == StreamRef(i as usize);
            assert(list[k].0 == i);
        } else if list.contains(StreamRef(i as usize)) {
            let k = choose|k: int| 0 <= k < list.len() && list[k] == StreamRef(i as usize);
            assert(con.registered(list[k].0 as int));
        }
    }
}

} // verus!
