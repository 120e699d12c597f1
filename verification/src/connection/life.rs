//! How a connection starts, and how its streams come and go.
use vstd::prelude::*;

use crate::codec::Codec;
use crate::config::ServiceConfig;
use crate::connection::pending::PendingView;
use crate::connection::received::{self, con_account};
use crate::connection::sent::{self, frames};
use crate::connection::view::{ActionView, ConView, EitherError};
use crate::error::{ConnectionError, OperationError, StreamError, StreamErrorInner};
use crate::frame::headers::HeadersView;
use crate::frame::{FrameView, Reason, Reset, StreamId, WindowUpdate};
use crate::message::MessageView;
use crate::stream::{HalfState, StreamFlags, StreamRef, StreamState};

verus! {

// ===== The start =====

/// A connection starts with its settings, behind the preface where it is a client. Then
/// the peer is told of the window of the connection, where that is larger than 65,535 by
/// enough. Both windows of the connection are 65,535 apart from that, and the first
/// stream is the first odd one.
pub proof fn opening(
    codec: Codec,
    config: ServiceConfig,
    is_server: bool,
    secure: bool,
    skip_streams: bool,
)
    requires
        config.wf(),
    ensures
        ({
            let con = ConView::start(codec, config, is_server, secure, skip_streams);
            let more = config.connection_window_sz - 65_535;
            let settings = FrameView::Settings(config.settings);
            &&& frames(con.actions) == if more > 0 && more
                >= config.connection_window_sz_threshold {
                seq![
                    settings,
                    FrameView::WindowUpdate(
                        WindowUpdate { stream_id: StreamId(0), size_increment: more as u32 },
                    ),
                ]
            } else {
                seq![settings]
            }
            &&& con.actions.len() > 0
            &&& (con.actions[0] is Preface <==> !is_server)
            &&& con.actions.len() == frames(con.actions).len() + if is_server {
                0int
            } else {
                1
            }
            &&& con.state.send_window.window_size == 65_535
            &&& config.connection_window_sz >= 65_535 ==> con_account(con) == 65_535
            &&& con.state.next_stream_id.0 == 1
            &&& con.state.remote_window_sz == 65_535
            &&& con.state.local_max_concurrent_streams is None
            &&& con.state.error is None
            &&& !con.state.closed
            &&& con.state.is_server == is_server
            &&& con.state.flags.secure == secure
            &&& !con.state.flags.settings_processed
            &&& con.state.active_local_streams == 0
            &&& con.state.active_remote_streams == 0
            &&& con.slots.len() == 0
            &&& con.streams.dom() =~= Set::<u32>::empty()
        }),
{
    let con = ConView::start(codec, config, is_server, secure, skip_streams);
    let none = Seq::<ActionView>::empty();
    let head = if is_server {
        none
    } else {
        none.push(ActionView::Preface)
    };
    let settings = FrameView::Settings(config.settings);
    let more = config.connection_window_sz - 65_535;
    let update = FrameView::WindowUpdate(
        WindowUpdate { stream_id: StreamId(0), size_increment: more as u32 },
    );
    assert(frames(none) =~= Seq::<FrameView>::empty());
    sent::frames_push(none, ActionView::Preface);
    sent::frames_push(head, ActionView::Send(settings));
    sent::frames_push(head.push(ActionView::Send(settings)), ActionView::Send(update));
    let first = Seq::<FrameView>::empty().push(settings);
    received::announced_push(Seq::<FrameView>::empty(), settings, StreamId(0));
    received::announced_push(first, update, StreamId(0));
    assert(seq![settings] =~= first);
    assert(seq![settings, update] =~= first.push(update));
}

// ===== New streams =====

/// A stream starts with the windows that both sides have asked for: the send window is
/// the initial size of the peer. The receive window is the one of this side as soon as
/// the peer has taken it, and 65,535 before. It has nothing received, no length and no
/// error, and takes a slot that no open stream has.
pub proof fn streams_start_anew(con: ConView, id: StreamId, remote: bool)
    requires
        con.wf(),
        con.slots.len() < usize::MAX,
        con.state.active_remote_streams < u32::MAX,
        con.state.active_local_streams < u32::MAX,
        con.state.streams_count < u32::MAX,
    ensures
        ({
            let next = con.open(id, remote);
            let s = con.next_slot();
            let st = next.slot(s);
            &&& next.has(s)
            &&& con.has(s) ==> !con.registered(s.0 as int)
            &&& next.query(id) == Some(s)
            &&& st.id == id
            &&& st.send_window.window_size == con.state.remote_window_sz
            &&& st.recv_window.window_size == if con.state.flags.settings_processed {
                con.state.config.window_sz as int
            } else {
                65_535
            }
            &&& st.recv_size == 0
            &&& st.content_length is Omitted
            &&& st.error is None
            &&& st.recv is Idle
            &&& st.send is Idle
            &&& st.flags.remote == remote
            &&& forall|i: int|
                0 <= i < con.slots.len() && i != s.0 ==> #[trigger] next.slots[i] == con.slots[i]
            &&& next.state.active_remote_streams == con.state.active_remote_streams + if remote {
                1int
            } else {
                0
            }
            &&& next.state.active_local_streams == con.state.active_local_streams + if remote {
                0int
            } else {
                1
            }
            &&& next.state.streams_count == con.state.streams_count + if remote {
                1int
            } else {
                0
            }
            &&& next.actions == con.actions
        }),
{
    if con.free.len() > 0 {
        assert(con.free[con.free.len() - 1] < con.slots.len());
    }
}

/// A stream that cannot be opened is refused with one RST_STREAM frame: while the
/// connection is about to close, and where the peer has as many streams as it may have.
pub proof fn streams_are_refused(con: ConView, hdrs: HeadersView)
    requires
        con.state.is_server,
        hdrs.stream_id.0 % 2 == 1,
        !con.streams.dom().contains(hdrs.stream_id.0),
        con.state.flags.disconnect_when_ready || (!con.state.flags.stream_refused && (
        con.state.config.remote_max_concurrent_streams matches Some(max)
            && con.state.active_remote_streams >= max)),
    ensures
        ({
            let (next, r) = con.recv_headers(hdrs);
            &&& r == Ok::<Option<MessageView>, EitherError>(None)
            &&& frames(next.actions) == frames(con.actions).push(
                FrameView::Reset(
                    Reset { stream_id: hdrs.stream_id, error_code: Reason::REFUSED_STREAM },
                ),
            )
            &&& next.streams == con.streams
            &&& next.slots == con.slots
            &&& next.state.flags.stream_refused
            &&& next.state.error == con.state.error
        }),
{
    reveal(ConView::recv_headers);
    reveal(ConView::new_stream);
    sent::frames_push(
        con.actions,
        ActionView::Send(
            FrameView::Reset(
                Reset { stream_id: hdrs.stream_id, error_code: Reason::REFUSED_STREAM },
            ),
        ),
    );
}

/// A client may open odd streams only, and a request has no status.
pub proof fn bad_requests(con: ConView, hdrs: HeadersView)
    requires
        con.state.is_server,
    ensures
        hdrs.stream_id.0 % 2 == 0 ==> con.recv_headers(hdrs) == (
            con,
            Err::<Option<MessageView>, EitherError>(
                EitherError::Connection(
                    ConnectionError::InvalidStreamId("Invalid id in received headers frame"),
                ),
            ),
        ),
        hdrs.stream_id.0 % 2 == 1 && !con.streams.dom().contains(hdrs.stream_id.0)
            && !con.state.flags.disconnect_when_ready
            && con.state.config.remote_max_concurrent_streams is None
            && hdrs.block.pseudo.status is Some ==> {
            let (next, r) = con.recv_headers(hdrs);
            &&& next == con
            &&& r matches Err(EitherError::Connection(e))
            &&& (e is MissingPseudo || e is UnexpectedPseudo)
        },
{
    reveal(ConView::recv_headers);
    reveal(ConView::new_stream);
}

/// A server answers late headers of a stream that this side knows no more with one
/// RST_STREAM frame.
pub proof fn late_headers(con: ConView, hdrs: HeadersView)
    requires
        !con.state.is_server,
        !con.streams.dom().contains(hdrs.stream_id.0),
        con.pending.ids.contains(hdrs.stream_id.0) || !con.state.flags.unknown_streams,
    ensures
        ({
            let (next, r) = con.recv_headers(hdrs);
            &&& r == Ok::<Option<MessageView>, EitherError>(None)
            &&& frames(next.actions) == frames(con.actions).push(
                FrameView::Reset(
                    Reset { stream_id: hdrs.stream_id, error_code: Reason::STREAM_CLOSED },
                ),
            )
            &&& next.slots == con.slots
            &&& next.streams == con.streams
            &&& next.state == con.state
        }),
{
    reveal(ConView::recv_headers);
    sent::frames_push(
        con.actions,
        ActionView::Send(
            FrameView::Reset(
                Reset { stream_id: hdrs.stream_id, error_code: Reason::STREAM_CLOSED },
            ),
        ),
    );
}

// ===== Reservations =====

/// A stream can be reserved as long as the connection is open and the peer accepts one
/// more. Then one more is active and reserved.
pub proof fn streams_are_reserved(con: ConView)
    requires
        con.state.active_local_streams < u32::MAX,
        con.state.reserved_streams < u32::MAX,
    ensures
        con.reserve() is Some <==> {
            &&& con.state.error is None
            &&& !con.state.flags.disconnect_when_ready
            &&& con.state.local_max_concurrent_streams matches Some(max)
                ==> con.state.active_local_streams < max
        },
        con.reserve() matches Some(next) ==> {
            &&& next.state.active_local_streams == con.state.active_local_streams + 1
            &&& next.state.reserved_streams == con.state.reserved_streams + 1
            &&& next.actions == con.actions
            &&& next.slots == con.slots
            &&& next.streams == con.streams
        },
{
}

/// The tasks that wait for a stream get one in the order in which they have asked: the
/// first one is woken up when a stream is closed that was one of as many as the peer
/// accepts.
pub proof fn waiters_in_order(con: ConView)
    requires
        con.readiness.len() > 0,
        con.state.active_local_streams > 0,
    ensures
        ({
            let next = con.local_released();
            let full = con.state.local_max_concurrent_streams == Some(
                con.state.active_local_streams,
            );
            &&& next.state.active_local_streams == con.state.active_local_streams - 1
            &&& full ==> {
                &&& next.actions.contains(ActionView::Ready(con.readiness[0]))
                &&& next.readiness == con.readiness.skip(1)
            }
            &&& !full ==> next.readiness == con.readiness
            &&& next.actions.last() is Capacity
        }),
{
    let next = con.local_released();
    if con.state.local_max_concurrent_streams == Some(con.state.active_local_streams) {
        assert(next.actions[con.actions.len() as int] == ActionView::Ready(con.readiness[0]));
    }
}

// ===== Resets =====

/// Whether one more reset is one too many: a peer that has opened ten streams or more
/// may reset fewer than half of them.
pub open spec fn one_reset_too_many(con: ConView) -> bool {
    con.state.streams_count >= 10 && 2 * (con.state.rst_count + 1) >= con.state.streams_count - (
    con.state.streams_count as int) % 2
}

/// A stream that the peer resets is closed for its reason, and its user learns of it.
/// The reset is counted.
pub proof fn peer_reset_closes(con: ConView, id: StreamId, s: StreamRef, reason: Reason)
    requires
        con.wf(),
        id.0 != 0,
        con.query(id) == Some(s),
        con.state.rst_count < u32::MAX,
    ensures
        ({
            let (next, r) = con.recv_rst_stream(Reset { stream_id: id, error_code: reason });
            &&& next.slot(s).recv is Closed
            &&& next.slot(s).send == HalfState::Closed(Some(reason))
            &&& next.slot(s).error == Some(OperationError::RemoteReset(reason))
            &&& !next.streams.dom().contains(id.0)
            &&& frames(next.actions) == frames(con.actions)
            &&& forall|i: int|
                0 <= i < con.slots.len() && i != s.0 ==> #[trigger] next.slots[i] == con.slots[i]
            &&& if one_reset_too_many(con) {
                r == Err::<(), EitherError>(
                    EitherError::Connection(ConnectionError::StreamResetsLimit),
                )
            } else {
                &&& r == Err::<(), EitherError>(
                    EitherError::Stream(
                        StreamErrorInner { kind: StreamError::Reset(reason), stream: s },
                    ),
                )
                &&& next.state.rst_count == con.state.rst_count + 1
            }
        }),
{
    reveal(ConView::recv_rst_stream);
    reveal(ConView::drop_stream);
    assert(con.entry_wf(id.0));
    let shut = con.with_slot(
        s,
        StreamState {
            recv: HalfState::Closed(None),
            send: HalfState::Closed(Some(reason)),
            error: Some(OperationError::RemoteReset(reason)),
            ..con.slot(s)
        },
    );
    sent::settle_is_silent(shut, s);
}

/// Resets of streams that are not open are counted too, where such frames are not
/// skipped.
pub proof fn stray_resets(con: ConView, id: StreamId, reason: Reason)
    requires
        !con.streams.dom().contains(id.0),
        con.state.rst_count < u32::MAX,
    ensures
        ({
            let (next, r) = con.recv_rst_stream(Reset { stream_id: id, error_code: reason });
            let known = con.pending.ids.contains(id.0);
            &&& next.actions == con.actions
            &&& next.slots == con.slots
            &&& next.streams == con.streams
            &&& id.0 == 0 ==> r is Err && next == con
            &&& id.0 != 0 && (known || con.state.flags.unknown_streams) && one_reset_too_many(con)
                ==> r == Err::<(), EitherError>(
                EitherError::Connection(ConnectionError::StreamResetsLimit),
            )
            &&& id.0 != 0 && (known || con.state.flags.unknown_streams) && !one_reset_too_many(con)
                ==> next.state.rst_count == con.state.rst_count + 1 && (r is Ok <==> known)
            &&& id.0 != 0 && !known && !con.state.flags.unknown_streams ==> r is Ok && next == con
        }),
{
    reveal(ConView::recv_rst_stream);
}

/// A stream that is canceled is reset with CANCEL, once. Its connection follows as soon
/// as it has no other stream, where the stream was to take it along.
pub proof fn cancel_resets(con: ConView, s: StreamRef)
    requires
        con.has(s),
    ensures
        ({
            let next = con.cancel(s);
            let open = !(con.slot(s).recv is Closed && con.slot(s).send is Closed);
            &&& open ==> frames(next.actions) == frames(con.actions).push(
                FrameView::Reset(
                    Reset { stream_id: con.slot(s).id, error_code: Reason::CANCEL },
                ),
            )
            &&& !open ==> frames(next.actions) == frames(con.actions)
            &&& next.slot(s).recv is Closed
            &&& next.slot(s).send is Closed
            &&& con.slot(s).flags.disconnect_on_drop ==> next.state.closed
                || next.state.flags.disconnect_when_ready
        }),
{
    sent::reset_frame_sent(con, s, Reason::CANCEL);
    let next = con.reset(s, Reason::CANCEL);
    sent::frames_push(next.actions, ActionView::Close);
    sent::frames_push(next.actions.push(ActionView::Close), ActionView::Capacity);
    let told = con.reset_frame(con.slot(s).id, Reason::CANCEL);
    sent::settle_is_silent(
        told.with_slot(
            s,
            StreamState {
                recv: HalfState::Closed(Some(Reason::CANCEL)),
                send: HalfState::Closed(None),
                error: Some(OperationError::LocalReset(Reason::CANCEL)),
                ..con.slot(s)
            },
        ),
        s,
    );
}

/// A stream that gets no capacity in time is reset for flow control, and fails.
pub proof fn capacity_in_time(con: ConView, s: StreamRef)
    requires
        con.has(s),
        !(con.slot(s).recv is Closed && con.slot(s).send is Closed),
    ensures
        ({
            let next = con.capacity_timeout(s);
            &&& frames(next.actions) == frames(con.actions).push(
                FrameView::Reset(
                    Reset {
                        stream_id: con.slot(s).id,
                        error_code: Reason::FLOW_CONTROL_ERROR,
                    },
                ),
            )
            &&& next.slot(s).recv is Closed
            &&& next.slot(s).send is Closed
            &&& next.slot(s).error == Some(OperationError::Stream(StreamError::CapacityTimeout))
        }),
{
    let reason = Reason::FLOW_CONTROL_ERROR;
    sent::reset_frame_sent(con, s, reason);
    let told = con.reset_frame(con.slot(s).id, reason);
    sent::settle_is_silent(
        told.with_slot(
            s,
            StreamState {
                recv: HalfState::Closed(Some(reason)),
                send: HalfState::Closed(None),
                error: Some(OperationError::LocalReset(reason)),
                ..con.slot(s)
            },
        ),
        s,
    );
    let next = con.reset(s, reason);
    let st = next.slot(s);
    let shut = next.with_slot(
        s,
        StreamState {
            recv: ConView::shut(st.recv),
            send: ConView::shut(st.send),
            error: Some(OperationError::Stream(StreamError::CapacityTimeout)),
            flags: StreamFlags { failed: true, ..st.flags },
            ..st
        },
    );
    sent::settle_is_silent(shut, s);
}

// ===== Keep-alive =====

/// The number in the payload of a ping.
pub open spec fn ping_number(payload: Seq<u8>) -> int {
    payload[6] * 256 + payload[7]
}

/// Pings are numbered, one after the other, in their last two bytes.
pub proof fn pings_are_numbered(con: ConView)
    requires
        !con.state.closed,
        con.state.flags.recv_pong,
        con.state.pings_count < u16::MAX,
    ensures
        ({
            let next = con.ping().0;
            let f = frames(next.actions).last();
            &&& frames(next.actions) == frames(con.actions).push(f)
            &&& f matches FrameView::Ping(v)
            &&& !v.ack
            &&& v.payload.len() == 8
            &&& ping_number(v.payload) == con.state.pings_count + 1
            &&& forall|i: int| 0 <= i < 6 ==> #[trigger] v.payload[i] == 0
            &&& next.state.pings_count == con.state.pings_count + 1
            &&& !next.state.flags.recv_pong
        }),
{
    let next = con.ping().0;
    sent::frames_push(con.actions, next.actions.last());
    let counter = (con.state.pings_count + 1) as u16;
    assert(counter / 256 <= 255 && counter % 256 <= 255);
}

// ===== The end =====

/// A connection that is to be closed when it is ready is closed at once without streams,
/// and is only marked as long as a stream is open or reserved.
pub proof fn closes_when_ready(con: ConView)
    requires
        con.streams.dom().finite(),
    ensures
        ({
            let next = con.disconnect_when_ready();
            let busy = con.state.reserved_streams > 0 || exists|id: u32| #[trigger]
                con.streams.dom().contains(id);
            &&& frames(next.actions) == frames(con.actions)
            &&& next.slots == con.slots
            &&& next.streams == con.streams
            &&& busy ==> next.state.flags.disconnect_when_ready && next.actions == con.actions
                && next.state.closed == con.state.closed
            &&& !busy ==> next.state.closed && next.actions.contains(ActionView::Close)
        }),
{
    sent::frames_push(con.actions, ActionView::Close);
    sent::frames_push(con.actions.push(ActionView::Close), ActionView::Capacity);
    let next = con.disconnect_when_ready();
    if con.idle() {
        assert(next.actions[con.actions.len() as int] == ActionView::Close);
        assert(con.streams.dom() =~= Set::empty()) by {
            con.streams.dom().lemma_len0_is_empty();
        }
    } else if con.state.reserved_streams == 0 {
        if !(exists|id: u32| #[trigger] con.streams.dom().contains(id)) {
            assert(con.streams.dom() =~= Set::empty());
        }
    }
}

/// A stream that is let go is reset with CANCEL where it was marked for it, and left
/// alone otherwise.
pub proof fn streams_are_let_go(con: ConView, s: StreamRef)
    requires
        con.has(s),
        !(con.slot(s).recv is Closed && con.slot(s).send is Closed),
    ensures
        con.slot(s).flags.reset_on_drop ==> frames(con.give_up(s).actions) == frames(
            con.actions,
        ).push(
            FrameView::Reset(Reset { stream_id: con.slot(s).id, error_code: Reason::CANCEL }),
        ),
        !con.slot(s).flags.reset_on_drop ==> con.give_up(s) == con,
{
    sent::reset_frame_sent(con, s, Reason::CANCEL);
}

// ===== Streams that were reset =====

proof fn young_ids_stay(pending: PendingView, now: int, max_age: int, id: u32)
    requires
        pending.ids.contains(id),
        forall|k: int|
            0 <= k < pending.queue.len() && (#[trigger] pending.queue[k]).0 == id
                ==> pending.queue[k].1 + max_age >= now,
    ensures
        pending.purge(now, max_age).ids.contains(id),
    decreases pending.queue.len(),
{
    if pending.queue.len() > 0 && pending.queue[0].1 + max_age < now {
        let next = pending.pop();
        assert(pending.queue[0].0 != id);
        assert forall|k: int|
            0 <= k < next.queue.len() && (#[trigger] next.queue[k]).0 == id implies next.queue[k].1
            + max_age >= now by {
            assert(next.queue[k] == pending.queue[k + 1]);
        }
        young_ids_stay(next, now, max_age, id);
    }
}

/// A stream that was reset is known for as many seconds as configured, and no longer.
pub proof fn resets_are_known_for_a_while(con: ConView, now: u64, id: u32)
    requires
        con.pending.wf(),
        con.pending.ordered(),
        con.pending.ids.contains(id),
    ensures
        (forall|k: int|
            0 <= k < con.pending.queue.len() && (#[trigger] con.pending.queue[k]).0 == id ==> now
                - con.pending.queue[k].1 <= con.state.config.reset_duration * 1000) ==> con.at(
            now,
        ).pending.ids.contains(id),
        (forall|k: int|
            0 <= k < con.pending.queue.len() && (#[trigger] con.pending.queue[k]).0 == id ==> now
                - con.pending.queue[k].1 > con.state.config.reset_duration * 1000) ==> !con.at(
            now,
        ).pending.ids.contains(id),
        con.at(now).state.now == now,
        con.at(now).actions == con.actions,
        con.at(now).streams == con.streams,
{
    let max_age = con.state.config.reset_duration * 1000;
    if forall|k: int|
        0 <= k < con.pending.queue.len() && (#[trigger] con.pending.queue[k]).0 == id ==> now
            - con.pending.queue[k].1 <= max_age {
        young_ids_stay(con.pending, now as int, max_age, id);
    }
    if forall|k: int|
        0 <= k < con.pending.queue.len() && (#[trigger] con.pending.queue[k]).0 == id ==> now
            - con.pending.queue[k].1 > max_age {
        con.pending.purge_forgets(now as int, max_age, id);
    }
}

proof fn last_ids_stay(pending: PendingView, max: nat, id: u32)
    requires
        pending.ids.contains(id),
        forall|k: int|
            0 <= k < pending.queue.len() && (#[trigger] pending.queue[k]).0 == id
                ==> pending.queue.len() - k < max,
    ensures
        pending.shrink(max).ids.contains(id),
    decreases pending.queue.len(),
{
    if pending.queue.len() > 0 && pending.queue.len() >= max {
        let next = pending.pop();
        assert(pending.queue[0].0 != id);
        assert forall|k: int|
            0 <= k < next.queue.len() && (#[trigger] next.queue[k]).0 == id implies next.queue.len()
            - k < max by {
            assert(next.queue[k] == pending.queue[k + 1]);
        }
        last_ids_stay(next, max, id);
    }
}

/// Of the streams that were reset the last ones are known, as many as configured: one
/// that is dropped is known from then on, and one that has been known before goes only
/// for its age or where as many others have come behind it.
pub proof fn last_resets_are_known(con: ConView, id: u32, other: u32)
    requires
        con.pending.wf(),
        con.pending.ids.contains(other),
        con.state.config.reset_max > 0,
        forall|k: int|
            0 <= k < con.pending.queue.len() && (#[trigger] con.pending.queue[k]).0 == other ==> {
                &&& con.state.now - con.pending.queue[k].1 <= con.state.config.reset_duration * 1000
                &&& con.pending.queue.len() - k < con.state.config.reset_max
            },
    ensures
        con.remember(id).pending.ids.contains(id),
        con.remember(id).pending.ids.contains(other),
        con.remember(id).pending.queue.len() <= con.state.config.reset_max,
{
    let max_age = con.state.config.reset_duration * 1000;
    let now = con.state.now as int;
    let max = con.state.config.reset_max as nat;
    con.pending.add_keeps_limit(id, con.state.now, max_age, max);
    young_ids_stay(con.pending, now, max_age, other);
    purged_is_a_tail(con.pending, now, max_age, other, max);
    last_ids_stay(con.pending.purge(now, max_age), max, other);
}

proof fn purged_is_a_tail(pending: PendingView, now: int, max_age: int, id: u32, max: nat)
    requires
        forall|k: int|
            0 <= k < pending.queue.len() && (#[trigger] pending.queue[k]).0 == id
                ==> pending.queue.len() - k < max,
    ensures
        ({
            let next = pending.purge(now, max_age);
            forall|k: int|
                0 <= k < next.queue.len() && (#[trigger] next.queue[k]).0 == id
                    ==> next.queue.len() - k < max
        }),
    decreases pending.queue.len(),
{
    if pending.queue.len() > 0 && pending.queue[0].1 + max_age < now {
        let next = pending.pop();
        assert forall|k: int|
            0 <= k < next.queue.len() && (#[trigger] next.queue[k]).0 == id implies next.queue.len()
            - k < max by {
            assert(next.queue[k] == pending.queue[k + 1]);
        }
        purged_is_a_tail(next, now, max_age, id, max);
        assert(pending.purge(now, max_age) == next.purge(now, max_age));
    } else {
        assert(pending.purge(now, max_age) == pending);
    }
}

} // verus!
