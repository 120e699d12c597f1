//! What the send window of a connection is after any run.
use vstd::prelude::*;

use crate::codec::Codec;
use crate::config::ServiceConfig;
use crate::connection::ledger::{self, data_total};
use crate::connection::sent::{self, frames};
use crate::connection::settings;
use crate::connection::view::{ActionView, ConView, ConnectionState};
use crate::error::{ConnectionError, OperationError, StreamError};
use crate::frame::data::DataView;
use crate::frame::headers::{Fields, HeadersView};
use crate::frame::{FrameView, Reason, Reset, Settings, StreamId, WindowUpdate};
use crate::stream::{StreamRef, StreamState};

verus! {

/// What can happen on a connection.
pub enum Event {
    /// Frames of the peer.
    Headers(HeadersView),
    Data(DataView),
    Settings(Settings),
    WindowUpdate(WindowUpdate),
    Reset(Reset),
    GoAway(Reason),
    /// The end of the connection.
    ProtoError(ConnectionError),
    TimedOut(ConnectionError),
    Disconnect,
    DisconnectWhenReady,
    Close,
    /// What this side sends.
    Request { authority: Seq<char>, method: Seq<char>, path: Seq<char>, fields: Fields, eof: bool },
    ReservedRequest {
        authority: Seq<char>,
        method: Seq<char>,
        path: Seq<char>,
        fields: Fields,
        eof: bool,
    },
    Response(StreamRef, u16, Fields, bool),
    Payload(StreamRef, Seq<u8>, bool),
    Trailers(StreamRef, Fields),
    SendReset(StreamRef, Reason),
    Cancel(StreamRef),
    GiveUp(StreamRef),
    Ping,
    /// What this side asks for.
    PollCapacity(StreamRef),
    CapacityTimeout(StreamRef),
    Consumed(StreamRef, u32),
    Reserve,
    ReleaseReserved,
    Time(u64),
    /// The actions are carried out.
    TakeActions,
}

/// The connection after an event.
pub open spec fn after(con: ConView, event: Event) -> ConView {
    match event {
        Event::Headers(v) => con.recv_headers(v).0,
        Event::Data(v) => con.recv_data(v).0,
        Event::Settings(v) => con.recv_settings(v).0,
        Event::WindowUpdate(v) => con.recv_window_update(v).0,
        Event::Reset(v) => con.recv_rst_stream(v).0,
        Event::GoAway(reason) => con.recv_go_away(reason),
        Event::ProtoError(e) => con.proto_error(e),
        Event::TimedOut(e) => con.timed_out(e),
        Event::Disconnect => con.disconnect(),
        Event::DisconnectWhenReady => con.disconnect_when_ready(),
        Event::Close => con.close(),
        Event::Request { authority, method, path, fields, eof } => con.request(
            authority,
            method,
            path,
            fields,
            eof,
        ).0,
        Event::ReservedRequest { authority, method, path, fields, eof } => con.reserved_request(
            authority,
            method,
            path,
            fields,
            eof,
        ).0,
        Event::Response(s, status, fields, eof) => con.send_response(s, status, fields, eof).0,
        Event::Payload(s, data, eof) => con.send_payload(s, data, eof).0,
        Event::Trailers(s, fields) => con.send_trailers(s, fields),
        Event::SendReset(s, reason) => con.reset(s, reason),
        Event::Cancel(s) => con.cancel(s),
        Event::GiveUp(s) => con.give_up(s),
        Event::Ping => con.ping().0,
        Event::PollCapacity(s) => con.poll_capacity(s).0,
        Event::CapacityTimeout(s) => con.capacity_timeout(s),
        Event::Consumed(s, size) => con.consumed(s, size as int),
        Event::Reserve => match con.reserve() {
            Some(next) => next,
            None => con,
        },
        Event::ReleaseReserved => con.release_reserved(),
        Event::Time(now) => con.at(now),
        Event::TakeActions => ConView { actions: Seq::empty(), ..con },
    }
}

/// The stream of an event, where it has one, is one of the connection.
pub open spec fn possible(con: ConView, event: Event) -> bool {
    match event {
        Event::Response(s, _, _, _) => con.has(s),
        Event::Payload(s, _, _) => con.has(s),
        Event::Trailers(s, _) => con.has(s),
        Event::SendReset(s, _) => con.has(s),
        Event::Cancel(s) => con.has(s),
        Event::GiveUp(s) => con.has(s),
        Event::PollCapacity(s) => con.has(s),
        Event::CapacityTimeout(s) => con.has(s),
        Event::Consumed(s, _) => con.has(s),
        Event::Settings(v) => v.initial_window_size matches Some(n) ==> n <= 0x7fff_ffff,
        _ => true,
    }
}

/// How much an event gives the connection to send: the increment of stream 0, if it is
/// accepted.
pub open spec fn granted(con: ConView, event: Event) -> int {
    match event {
        Event::WindowUpdate(v) if v.stream_id.0 == 0 && con.recv_window_update(v).1 is Ok => {
            v.size_increment as int
        },
        _ => 0,
    }
}

/// How many bytes of payload an event adds to the frames that are to be written.
pub open spec fn paid(con: ConView, event: Event) -> int {
    match event {
        Event::TakeActions => 0,
        _ => data_total(frames(after(con, event).actions)) - data_total(frames(con.actions)),
    }
}

/// A step that sends no payload and leaves the send window of the connection as it is.
pub open spec fn even(con: ConView, next: ConView) -> bool {
    &&& next.state.send_window == con.state.send_window
    &&& data_total(frames(next.actions)) == data_total(frames(con.actions))
}

proof fn push_is_even(list: Seq<FrameView>, f: FrameView)
    requires
        !(f is Data),
    ensures
        data_total(list.push(f)) == data_total(list),
{
    ledger::data_total_push(list, f);
}

proof fn close_is_even(con: ConView)
    ensures
        even(con, con.close()),
        even(con, con.disconnect_when_ready()),
{
    ledger::act_is_calm(con, ActionView::Close);
    ledger::act_is_calm(con.act(ActionView::Close), ActionView::Capacity);
}

proof fn stream_headers_are_even(con: ConView, s: StreamRef, hdrs: HeadersView)
    requires
        con.has(s),
    ensures
        even(con, con.stream_headers(s, hdrs).0),
{
    reveal(ConView::stream_headers);
    sent::close_is_silent(con, s, None);
}

proof fn headers_are_even(con: ConView, hdrs: HeadersView)
    requires
        con.wf(),
        con.slots.len() < usize::MAX,
    ensures
        even(con, con.recv_headers(hdrs).0),
{
    reveal(ConView::recv_headers);
    reveal(ConView::new_stream);
    let id = hdrs.stream_id;
    let closed = Reset { stream_id: id, error_code: Reason::STREAM_CLOSED };
    let refused = Reset { stream_id: id, error_code: Reason::REFUSED_STREAM };
    ledger::act_is_calm(con, ActionView::Send(FrameView::Reset(closed)));
    ledger::act_is_calm(con, ActionView::Send(FrameView::Reset(refused)));
    if con.free.len() > 0 {
        assert(con.free[con.free.len() - 1] < con.slots.len());
    }
    let s = con.next_slot();
    stream_headers_are_even(con.open(id, true), s, hdrs);
    if con.streams.dom().contains(id.0) {
        assert(con.entry_wf(id.0));
        stream_headers_are_even(con, StreamRef(con.streams[id.0].slot), hdrs);
    }
}

proof fn received_is_even(con: ConView, s: StreamRef, size: int)
    requires
        con.has(s),
    ensures
        even(con, con.taken(s, size)),
        con.taken(s, size).has(s),
{
    reveal(ConView::received);
    let st = con.slot(s);
    let window = crate::window::Window {
        window_size: (con.state.recv_window.window_size - size) as i32,
    };
    if let Some(n) = window.increment(
        0,
        con.state.config.connection_window_sz as int,
        con.state.config.connection_window_sz_threshold as int,
    ) {
        let f = FrameView::WindowUpdate(
            WindowUpdate { stream_id: StreamId(0), size_increment: n as u32 },
        );
        ledger::act_is_calm(con, ActionView::Send(f));
    }
}

proof fn consumed_is_even(con: ConView, s: StreamRef, size: int)
    requires
        con.has(s),
    ensures
        even(con, con.consumed(s, size)),
        even(con, con.released(s, size)),
{
    reveal(ConView::consumed);
    let st = StreamState { recv_size: (con.slot(s).recv_size - size) as u32, ..con.slot(s) };
    if let Some(n) = st.recv_window.increment(
        st.recv_size as int,
        con.state.config.window_sz as int,
        con.state.config.window_sz_threshold as int,
    ) {
        let f = FrameView::WindowUpdate(
            WindowUpdate { stream_id: st.id, size_increment: n as u32 },
        );
        ledger::act_is_calm(con, ActionView::Send(f));
    }
}

proof fn data_is_even(con: ConView, data: DataView)
    requires
        con.wf(),
    ensures
        even(con, con.recv_data(data).0),
{
    reveal(ConView::recv_data);
    reveal(ConView::stream_data);
    let id = data.stream_id;
    let closed = Reset { stream_id: id, error_code: Reason::STREAM_CLOSED };
    ledger::act_is_calm(con, ActionView::Send(FrameView::Reset(closed)));
    if con.streams.dom().contains(id.0) {
        assert(con.entry_wf(id.0));
        let s = StreamRef(con.streams[id.0].slot);
        let size = data.data.len() as int;
        let eof = data.flags.end_stream();
        received_is_even(con, s, size);
        let next = con.taken(s, size);
        consumed_is_even(next, s, size);
        let counted = next.length_checked(s, size, eof).0;
        consumed_is_even(counted, s, size);
        sent::close_is_silent(counted, s, None);
        consumed_is_even(counted.recv_close(s, None), s, size);
    }
}

proof fn reset_is_even(con: ConView, frm: Reset)
    requires
        con.wf(),
    ensures
        even(con, con.recv_rst_stream(frm).0),
{
    reveal(ConView::recv_rst_stream);
    if con.streams.dom().contains(frm.stream_id.0) {
        assert(con.entry_wf(frm.stream_id.0));
        ledger::remote_reset_is_calm(
            con,
            StreamRef(con.streams[frm.stream_id.0].slot),
            frm.error_code,
        );
    }
}

proof fn window_update_is_even(con: ConView, frm: WindowUpdate)
    requires
        con.wf(),
        con.slots.len() <= usize::MAX,
    ensures
        frm.stream_id.0 != 0 ==> even(con, con.recv_window_update(frm).0),
        frm.stream_id.0 == 0 ==> {
            let (next, r) = con.recv_window_update(frm);
            &&& next.state.send_window.window_size == con.state.send_window.window_size + if r is Ok {
                frm.size_increment as int
            } else {
                0
            }
            &&& data_total(frames(next.actions)) == data_total(frames(con.actions))
        },
{
    if frm.stream_id.0 == 0 {
        assert(frm == (WindowUpdate { stream_id: StreamId(0), size_increment: frm.size_increment }));
        ledger::connection_window_grows(con, frm.size_increment);
    } else {
        let id = frm.stream_id;
        reveal(ConView::recv_window_update);
        let closed = Reset { stream_id: id, error_code: Reason::STREAM_CLOSED };
        ledger::act_is_calm(con, ActionView::Send(FrameView::Reset(closed)));
        if con.streams.dom().contains(id.0) {
            assert(con.entry_wf(id.0));
            let s = StreamRef(con.streams[id.0].slot);
            ledger::stream_window_grows(con, id, s, frm.size_increment);
        }
    }
}

proof fn settings_are_even(con: ConView, settings: Settings)
    requires
        con.wf(),
        con.slots.len() <= usize::MAX,
        settings.initial_window_size matches Some(n) ==> n <= 0x7fff_ffff,
    ensures
        even(con, con.recv_settings(settings).0),
{
    if settings.ack {
        settings::answer_is_calm(con, settings);
    } else {
        settings::settings_taken(con, settings);
        push_is_even(frames(con.actions), settings::settings_ack());
    }
}

proof fn open_is_even(
    con: ConView,
    authority: Seq<char>,
    method: Seq<char>,
    path: Seq<char>,
    fields: Fields,
    eof: bool,
)
    requires
        forall|k: int| 0 <= k < con.free.len() ==> #[trigger] con.free[k] < con.slots.len(),
        con.slots.len() < usize::MAX,
    ensures
        even(con, con.new_request(authority, method, path, fields, eof).0),
{
    if con.free.len() > 0 {
        assert(con.free[con.free.len() - 1] < con.slots.len());
    }
    let id = con.state.next_stream_id;
    let opened = con.open(id, false);
    let s = con.next_slot();
    let mid = opened.with_state(
        ConnectionState { next_stream_id: StreamId((id.0 + 2) as u32), ..opened.state },
    );
    sent::close_is_silent(mid, s, None);
    let hdrs = FrameView::Headers(con.request_headers(authority, method, path, fields, eof));
    ledger::act_is_calm(mid, ActionView::Send(hdrs));
    ledger::act_is_calm(mid.send_close(s, None), ActionView::Send(hdrs));
}

proof fn timers_are_even(con: ConView, s: StreamRef)
    ensures
        even(con, con.stop_timer(s)),
        even(con, con.start_timer(s)),
{
    ledger::act_is_calm(con, ActionView::TimerStop(s));
    if let Some(t) = con.state.config.capacity_timeout {
        ledger::act_is_calm(con, ActionView::TimerStart(s, t));
    }
}

proof fn release_is_even(con: ConView)
    ensures
        even(con, con.release_reserved()),
{
    let less = con.with_state(
        ConnectionState {
            reserved_streams: (con.state.reserved_streams - 1) as u32,
            ..con.state
        },
    );
    let fewer = less.with_state(
        ConnectionState {
            active_local_streams: (con.state.active_local_streams - 1) as u32,
            ..less.state
        },
    );
    if con.readiness.len() > 0 {
        ledger::act_is_calm(con, ActionView::Ready(con.readiness[0]));
        ledger::act_is_calm(con.act(ActionView::Ready(con.readiness[0])), ActionView::Capacity);
    }
    ledger::act_is_calm(con, ActionView::Capacity);
    let next = less.local_released();
    assert(even(con, next));
    close_is_even(next);
}

/// Payload is paid for by the window of the connection, byte by byte.
proof fn payload_is_paid(con: ConView, s: StreamRef, data: Seq<u8>, eof: bool)
    requires
        con.has(s),
        con.state.remote_frame_size > 0,
    ensures
        ({
            let next = con.write_payload(s, data, eof).0;
            next.state.send_window.window_size + data_total(frames(next.actions))
                == con.state.send_window.window_size + data_total(frames(con.actions))
        }),
    decreases data.len(),
{
    reveal_with_fuel(ConView::write_payload, 1);
    if con.available(s) <= 0 {
        timers_are_even(con, s);
        timers_are_even(con.waiting(s, true), s);
    } else {
        let size = con.chunk(s, data.len() as int);
        sent::chunk_frame(con, s, data, eof);
        let mid = con.write_chunk(s, data, eof);
        let f = frames(mid.actions).last();
        ledger::data_total_push(frames(con.actions), f);
        assert(frames(mid.actions) == frames(con.actions).push(f));
        if size < data.len() {
            payload_is_paid(mid, s, data.skip(size), eof);
        }
    }
}

proof fn sending_balances(con: ConView, event: Event)
    requires
        con.wf(),
        con.slots.len() < usize::MAX,
        possible(con, event),
        event is Request || event is ReservedRequest || event is Response || event is Payload
            || event is Trailers || event is SendReset || event is Cancel || event is GiveUp
            || event is Ping,
    ensures
        after(con, event).state.send_window.window_size + paid(con, event)
            == con.state.send_window.window_size,
{
    match event {
        Event::Request { authority, method, path, fields, eof } => {
            open_is_even(con, authority, method, path, fields, eof);
        },
        Event::ReservedRequest { authority, method, path, fields, eof } => {
            let free = con.with_state(
                ConnectionState {
                    active_local_streams: (con.state.active_local_streams - 1) as u32,
                    reserved_streams: (con.state.reserved_streams - 1) as u32,
                    ..con.state
                },
            );
            open_is_even(free, authority, method, path, fields, eof);
        },
        Event::Response(s, status, fields, eof) => {
            sent::response_frame(con, s, status, fields, eof);
            let next = after(con, event);
            if con.send_response(s, status, fields, eof).1 is Ok {
                push_is_even(frames(con.actions), frames(next.actions).last());
                assert(frames(next.actions) == frames(con.actions).push(
                    frames(next.actions).last(),
                ));
            }
        },
        Event::Payload(s, data, eof) => {
            payload_is_paid(con, s, data, eof);
            sent::close_is_silent(con, s, None);
            let f = con.data_frame(s, data, true);
            sent::frames_push(con.send_close(s, None).actions, ActionView::Send(f));
            ledger::data_total_push(frames(con.actions), f);
        },
        Event::Trailers(s, fields) => {
            sent::trailers_frame(con, s, fields);
            let next = after(con, event);
            if con.slot(s).send is Payload {
                push_is_even(frames(con.actions), frames(next.actions).last());
                assert(frames(next.actions) == frames(con.actions).push(
                    frames(next.actions).last(),
                ));
            }
        },
        Event::SendReset(s, reason) => {
            ledger::reset_is_calm(con, s, reason);
        },
        Event::Cancel(s) => {
            ledger::reset_is_calm(con, s, Reason::CANCEL);
            close_is_even(con.reset(s, Reason::CANCEL));
        },
        Event::GiveUp(s) => {
            ledger::reset_is_calm(con, s, Reason::CANCEL);
        },
        _ => {
            let counter = (con.state.pings_count + 1) as u16;
            let f = FrameView::Ping(
                crate::frame::ping::PingView {
                    ack: false,
                    payload: ConView::ping_payload(counter),
                },
            );
            ledger::act_is_calm(con.with_pong(false), ActionView::Send(f));
        },
    }
}

/// Every event leaves a send window of the connection that is larger by what was granted
/// and smaller by the payload that was sent.
pub proof fn window_is_balanced(con: ConView, event: Event)
    requires
        con.wf(),
        con.slots.len() < usize::MAX,
        possible(con, event),
    ensures
        after(con, event).state.send_window.window_size == con.state.send_window.window_size
            + granted(con, event) - paid(con, event),
{
    match event {
        Event::Headers(v) => headers_are_even(con, v),
        Event::Data(v) => data_is_even(con, v),
        Event::Settings(v) => settings_are_even(con, v),
        Event::WindowUpdate(v) => window_update_is_even(con, v),
        Event::Reset(v) => reset_is_even(con, v),
        Event::GoAway(reason) => ledger::ending_is_calm(
            con,
            ConnectionError::GoAway(reason),
            reason,
        ),
        Event::ProtoError(e) => ledger::ending_is_calm(con, e, Reason::NO_ERROR),
        Event::TimedOut(e) => ledger::ending_is_calm(con, e, Reason::NO_ERROR),
        Event::Disconnect => ledger::ending_is_calm(
            con,
            ConnectionError::GoAway(Reason::NO_ERROR),
            Reason::NO_ERROR,
        ),
        Event::DisconnectWhenReady => close_is_even(con),
        Event::Close => close_is_even(con),
        Event::PollCapacity(s) => {
            timers_are_even(con.waiting(s, true), s);
            timers_are_even(con.waiting(s, false), s);
        },
        Event::CapacityTimeout(s) => {
            ledger::reset_is_calm(con, s, Reason::FLOW_CONTROL_ERROR);
            ledger::failed_is_calm(
                con.reset(s, Reason::FLOW_CONTROL_ERROR),
                s,
                OperationError::Stream(StreamError::CapacityTimeout),
            );
        },
        Event::Consumed(s, size) => consumed_is_even(con, s, size as int),
        Event::ReleaseReserved => release_is_even(con),
        Event::Reserve => {},
        Event::Time(_) => {},
        Event::TakeActions => {},
        _ => sending_balances(con, event),
    }
}

/// One step of a run.
pub open spec fn steps(cons: Seq<ConView>, events: Seq<Event>, i: int) -> bool {
    &&& cons[i].wf()
    &&& cons[i].slots.len() < usize::MAX
    &&& possible(cons[i], events[i])
    &&& cons[i + 1] == after(cons[i], events[i])
}

/// A run: every connection comes from the one before by an event.
pub open spec fn runs(cons: Seq<ConView>, events: Seq<Event>) -> bool {
    &&& cons.len() == events.len() + 1
    &&& forall|i: int| 0 <= i < events.len() ==> #[trigger] steps(cons, events, i)
}

/// All that was granted in the first steps of a run.
pub open spec fn granted_in(cons: Seq<ConView>, events: Seq<Event>, n: int) -> int
    decreases n,
{
    if n <= 0 {
        0
    } else {
        granted_in(cons, events, n - 1) + granted(cons[n - 1], events[n - 1])
    }
}

/// All the payload that was sent in the first steps of a run.
pub open spec fn paid_in(cons: Seq<ConView>, events: Seq<Event>, n: int) -> int
    decreases n,
{
    if n <= 0 {
        0
    } else {
        paid_in(cons, events, n - 1) + paid(cons[n - 1], events[n - 1])
    }
}

proof fn window_so_far(cons: Seq<ConView>, events: Seq<Event>, n: int)
    requires
        runs(cons, events),
        0 <= n <= events.len(),
    ensures
        cons[n].state.send_window.window_size == cons[0].state.send_window.window_size
            + granted_in(cons, events, n) - paid_in(cons, events, n),
    decreases n,
{
    if n > 0 {
        window_so_far(cons, events, n - 1);
        assert(steps(cons, events, n - 1));
        window_is_balanced(cons[n - 1], events[n - 1]);
    }
}

/// Over any run from the start of a connection, its send window is 65,535 bytes, plus
/// the increments of stream 0 that were accepted, less the payload that was sent.
pub proof fn send_window_of_a_run(
    codec: Codec,
    config: ServiceConfig,
    is_server: bool,
    secure: bool,
    skip_streams: bool,
    cons: Seq<ConView>,
    events: Seq<Event>,
    n: int,
)
    requires
        runs(cons, events),
        cons[0] == ConView::start(codec, config, is_server, secure, skip_streams),
        0 <= n <= events.len(),
    ensures
        cons[n].state.send_window.window_size == 65_535 + granted_in(cons, events, n) - paid_in(
            cons,
            events,
            n,
        ),
{
    window_so_far(cons, events, n);
}

} // verus!
