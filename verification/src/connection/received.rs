//! What becomes of the headers, the payload and the window updates of the peer.
use vstd::prelude::*;

use crate::connection::sent::{self, frames};
use crate::connection::view::{self, ActionView, ConView, ConnectionState, EitherError};
use crate::error::{ConnectionError, StreamError, StreamErrorInner};
use crate::frame::data::DataView;
use crate::frame::headers::HeadersView;
use crate::frame::{FrameView, StreamId, WindowUpdate};
use crate::http;
use crate::message::{EofView, KindView, MessageView};
use crate::stream::{Capacity, ContentLength, HalfState, StreamRef, StreamState};
use crate::window::Window;

verus! {

// ===== Numbers =====

/// Texts of up to 19 decimal digits are numbers: one more digit is worth ten times what
/// stands before it. A text with any other byte is none.
pub proof fn numbers_are_decimal(text: Seq<u8>, digit: u8, i: int)
    ensures
        view::number_of(Seq::empty()) == Some(0u64),
        0x30 <= digit <= 0x39 && text.len() < 19 ==> view::number_of(text.push(digit)) == match view::number_of(
            text,
        ) {
            Some(n) => Some((10 * n + (digit - 0x30)) as u64),
            None => None,
        },
        0 <= i < text.len() && !(0x30 <= text[i] <= 0x39) ==> view::number_of(text) is None,
        text.len() > 19 ==> view::number_of(text) is None,
{
    let more = text.push(digit);
    assert(more.drop_last() =~= text);
    if text.len() < 19 && 0x30 <= digit <= 0x39 {
        if forall|k: int| 0 <= k < text.len() ==> 0x30 <= #[trigger] text[k] <= 0x39 {
            assert forall|k: int| 0 <= k < more.len() implies 0x30 <= #[trigger] more[k] <= 0x39 by {
                if k < text.len() {
                    assert(more[k] == text[k]);
                }
            }
            digits_bound(text);
        } else {
            let k = choose|k: int| 0 <= k < text.len() && !(0x30 <= #[trigger] text[k] <= 0x39);
            assert(more[k] == text[k]);
        }
    }
}

/// Ten to the power of `n`.
spec fn pow10(n: nat) -> nat
    decreases n,
{
    if n == 0 {
        1
    } else {
        10 * pow10((n - 1) as nat)
    }
}

proof fn digits_bound(text: Seq<u8>)
    requires
        text.len() < 19,
        forall|k: int| 0 <= k < text.len() ==> 0x30 <= #[trigger] text[k] <= 0x39,
    ensures
        view::digits_value(text) < 1_000_000_000_000_000_000,
{
    digits_below(text);
    reveal_with_fuel(pow10, 19);
    assert(pow10(18) == 1_000_000_000_000_000_000);
    pow10_grows(text.len(), 18);
}

proof fn pow10_grows(a: nat, b: nat)
    requires
        a <= b,
    ensures
        pow10(a) <= pow10(b),
    decreases b,
{
    if a < b {
        pow10_grows(a, (b - 1) as nat);
    }
}

proof fn digits_below(text: Seq<u8>)
    requires
        forall|k: int| 0 <= k < text.len() ==> 0x30 <= #[trigger] text[k] <= 0x39,
    ensures
        view::digits_value(text) < pow10(text.len()),
    decreases text.len(),
{
    if text.len() > 0 {
        let rest = text.drop_last();
        assert forall|k: int| 0 <= k < rest.len() implies 0x30 <= #[trigger] rest[k] <= 0x39 by {
            assert(rest[k] == text[k]);
        }
        digits_below(rest);
        assert(0x30 <= text[text.len() - 1] <= 0x39);
    }
}

// ===== Headers =====

/// The length that headers announce, as a text.
pub open spec fn announced_length(hdrs: HeadersView) -> Option<Seq<u8>> {
    let name = http::text_bytes("content-length"@);
    if hdrs.block.fields.dom().contains(name) {
        Some(hdrs.block.fields[name][0].0)
    } else {
        None
    }
}

/// The first headers of a stream are delivered as they came, with the end of the stream
/// if they have it. Later ones are delivered as trailers, and must end the stream.
pub proof fn headers_delivered(con: ConView, s: StreamRef, hdrs: HeadersView)
    requires
        con.has(s),
        con.query(hdrs.stream_id) == Some(s),
        con.state.is_server ==> hdrs.stream_id.0 % 2 == 1,
    ensures
        ({
            let st = con.slot(s);
            let eof = hdrs.flags.0 & 1 == 1;
            let (next, r) = con.recv_headers(hdrs);
            let closing = if eof {
                HalfState::Closed(None)
            } else {
                HalfState::Payload
            };
            &&& frames(next.actions) == frames(con.actions)
            &&& next.state.recv_window == con.state.recv_window
            &&& next.state.send_window == con.state.send_window
            &&& match st.recv {
                HalfState::Idle => match announced_length(hdrs) {
                    Some(text) if st.content_length != ContentLength::Head => match view::number_of(
                        text,
                    ) {
                        Some(n) => {
                            &&& r == Ok::<Option<MessageView>, EitherError>(
                                Some(
                                    MessageView {
                                        stream: s,
                                        kind: KindView::Headers {
                                            pseudo: hdrs.block.pseudo,
                                            headers: hdrs.block.fields,
                                            eof,
                                        },
                                    },
                                ),
                            )
                            &&& next.slot(s) == (StreamState {
                                recv: closing,
                                content_length: ContentLength::Remaining(n),
                                ..st
                            })
                        },
                        None => {
                            &&& r == Err::<Option<MessageView>, EitherError>(
                                EitherError::Stream(
                                    StreamErrorInner {
                                        kind: StreamError::InvalidContentLength,
                                        stream: s,
                                    },
                                ),
                            )
                            &&& next.slot(s) == (StreamState { recv: closing, ..st })
                        },
                    },
                    _ => {
                        &&& r == Ok::<Option<MessageView>, EitherError>(
                            Some(
                                MessageView {
                                    stream: s,
                                    kind: KindView::Headers {
                                        pseudo: hdrs.block.pseudo,
                                        headers: hdrs.block.fields,
                                        eof,
                                    },
                                },
                            ),
                        )
                        &&& next.slot(s) == (StreamState { recv: closing, ..st })
                    },
                },
                HalfState::Payload => if eof {
                    &&& r == Ok::<Option<MessageView>, EitherError>(
                        Some(
                            MessageView {
                                stream: s,
                                kind: KindView::Eof(EofView::Trailers(hdrs.block.fields)),
                            },
                        ),
                    )
                    &&& next.slot(s) == (StreamState { recv: HalfState::Closed(None), ..st })
                } else {
                    &&& r == Err::<Option<MessageView>, EitherError>(
                        EitherError::Stream(
                            StreamErrorInner { kind: StreamError::TrailersWithoutEos, stream: s },
                        ),
                    )
                    &&& next == con
                },
                HalfState::Closed(_) => {
                    &&& r == Err::<Option<MessageView>, EitherError>(
                        EitherError::Stream(
                            StreamErrorInner { kind: StreamError::Closed, stream: s },
                        ),
                    )
                    &&& next == con
                },
            }
        }),
{
    reveal(ConView::recv_headers);
    reveal(ConView::stream_headers);
    sent::close_is_silent(con, s, None);
}

/// Trailers that one side sends on an open stream are delivered by the other side as the
/// end of the stream, with the same fields.
pub proof fn trailers_arrive(
    from: ConView,
    s: StreamRef,
    fields: crate::frame::headers::Fields,
    to: ConView,
    t: StreamRef,
)
    requires
        from.has(s),
        from.slot(s).send is Payload,
        to.has(t),
        to.query(from.slot(s).id) == Some(t),
        to.slot(t).recv is Payload,
        to.state.is_server ==> from.slot(s).id.0 % 2 == 1,
    ensures
        ({
            let written = frames(from.send_trailers(s, fields).actions).last();
            &&& written matches FrameView::Headers(h)
            &&& to.recv_headers(h).1 == Ok::<Option<MessageView>, EitherError>(
                Some(MessageView { stream: t, kind: KindView::Eof(EofView::Trailers(fields)) }),
            )
            &&& to.recv_headers(h).0.slot(t).recv == HalfState::Closed(None)
        }),
{
    sent::trailers_frame(from, s, fields);
    let written = frames(from.send_trailers(s, fields).actions).last();
    assert(5u8 & 1 == 1) by (bit_vector);
    if let FrameView::Headers(h) = written {
        headers_delivered(to, t, h);
    }
}

/// A request that a client sends is delivered by a server that takes new streams: the
/// same method, scheme, authority, path and fields, on a stream of the same identifier.
pub proof fn request_arrives(
    from: ConView,
    authority: Seq<char>,
    method: Seq<char>,
    path: Seq<char>,
    fields: crate::frame::headers::Fields,
    eof: bool,
    to: ConView,
)
    requires
        from.wf(),
        from.slots.len() < usize::MAX,
        from.state.active_local_streams < u32::MAX,
        from.request(authority, method, path, fields, eof).1 is Ok,
        from.state.next_stream_id.0 % 2 == 1,
        path.len() > 0,
        !fields.dom().contains(http::text_bytes("content-length"@)),
        to.wf(),
        to.slots.len() < usize::MAX,
        to.state.is_server,
        !to.streams.dom().contains(from.state.next_stream_id.0),
        !to.state.flags.disconnect_when_ready,
        match to.state.config.remote_max_concurrent_streams {
            Some(max) => to.state.active_remote_streams < max,
            None => true,
        },
    ensures
        ({
            let written = frames(from.request(authority, method, path, fields, eof).0.actions).last();
            &&& written matches FrameView::Headers(h)
            &&& to.recv_headers(h).1 matches Ok(Some(msg))
            &&& msg.kind matches KindView::Headers { pseudo, headers, eof: end }
            &&& pseudo.method == Some(method)
            &&& pseudo.authority == Some(authority)
            &&& pseudo.path == Some(path)
            &&& pseudo.scheme == Some(
                if from.state.flags.secure {
                    "https"@
                } else {
                    "http"@
                },
            )
            &&& headers == fields
            &&& end == eof
            &&& to.recv_headers(h).0.query(from.state.next_stream_id) == Some(msg.stream)
            &&& to.recv_headers(h).0.slot(msg.stream).id == from.state.next_stream_id
            &&& to.recv_headers(h).0.slot(msg.stream).flags.remote
            &&& to.recv_headers(h).0.slot(msg.stream).send == HalfState::Idle
        }),
{
    sent::request_frame(from, authority, method, path, fields, eof);
    let written = frames(from.request(authority, method, path, fields, eof).0.actions).last();
    assert(5u8 & 1 == 1 && 4u8 & 1 != 1) by (bit_vector);
    reveal_strlit("https");
    reveal_strlit("http");
    if let FrameView::Headers(h) = written {
        new_stream_delivered(to, h);
    }
}

/// Headers of a stream that is not known open one on a server, unless it is about to be
/// closed or takes no more streams. A request must have a method, a path and a scheme.
pub proof fn new_stream_delivered(con: ConView, hdrs: HeadersView)
    requires
        con.wf(),
        con.slots.len() < usize::MAX,
        con.state.is_server,
        hdrs.stream_id.0 % 2 == 1,
        !con.streams.dom().contains(hdrs.stream_id.0),
        !con.state.flags.disconnect_when_ready,
        match con.state.config.remote_max_concurrent_streams {
            Some(max) => con.state.active_remote_streams < max,
            None => true,
        },
        announced_length(hdrs) is None,
    ensures
        ({
            let (next, r) = con.recv_headers(hdrs);
            let p = hdrs.block.pseudo;
            let eof = hdrs.flags.0 & 1 == 1;
            if p.path is None || p.path->0.len() == 0 {
                &&& r == Err::<Option<MessageView>, EitherError>(
                    EitherError::Connection(ConnectionError::MissingPseudo("path")),
                )
                &&& next == con
            } else if p.method is None {
                &&& r == Err::<Option<MessageView>, EitherError>(
                    EitherError::Connection(ConnectionError::MissingPseudo("method")),
                )
                &&& next == con
            } else if p.scheme is None || p.scheme->0.len() == 0 {
                &&& r == Err::<Option<MessageView>, EitherError>(
                    EitherError::Connection(ConnectionError::MissingPseudo("scheme")),
                )
                &&& next == con
            } else {
                p.status is None ==> {
                    &&& r matches Ok(Some(msg))
                    &&& msg.kind == KindView::Headers { pseudo: p, headers: hdrs.block.fields, eof }
                    &&& next.has(msg.stream)
                    &&& next.slot(msg.stream).id == hdrs.stream_id
                    &&& next.slot(msg.stream).flags.remote
                    &&& next.slot(msg.stream).send == HalfState::Idle
                    &&& next.slot(msg.stream).recv == if eof {
                        HalfState::Closed(None)
                    } else {
                        HalfState::Payload
                    }
                    &&& next.slot(msg.stream).send_window.window_size == con.state.remote_window_sz
                    &&& next.slot(msg.stream).content_length == ContentLength::Omitted
                    &&& next.query(hdrs.stream_id) == Some(msg.stream)
                    &&& frames(next.actions) == frames(con.actions)
                }
            }
        }),
{
    reveal(ConView::recv_headers);
    reveal(ConView::new_stream);
    reveal(ConView::stream_headers);
    if con.free.len() > 0 {
        assert(con.free[con.free.len() - 1] < con.slots.len());
    }
    let s = con.next_slot();
    let opened = con.open(hdrs.stream_id, true);
    sent::close_is_silent(opened, s, None);
    sent::frames_push(opened.actions, ActionView::WakeReset(s));
}

// ===== Payload =====

/// The bytes that WINDOW_UPDATE frames of a stream have announced.
pub open spec fn announced(list: Seq<FrameView>, id: StreamId) -> int
    decreases list.len(),
{
    if list.len() == 0 {
        0
    } else {
        announced(list.drop_last(), id) + match list.last() {
            FrameView::WindowUpdate(v) if v.stream_id == id => v.size_increment as int,
            _ => 0,
        }
    }
}

pub proof fn announced_push(list: Seq<FrameView>, f: FrameView, id: StreamId)
    ensures
        announced(list.push(f), id) == announced(list, id) + match f {
            FrameView::WindowUpdate(v) if v.stream_id == id => v.size_increment as int,
            _ => 0,
        },
{
    assert(list.push(f).drop_last() =~= list);
}

/// The receive window of the connection without what has been announced.
pub open spec fn con_account(con: ConView) -> int {
    con.state.recv_window.window_size - announced(frames(con.actions), StreamId(0))
}

/// The receive window of a stream without what has been announced.
pub open spec fn stream_account(con: ConView, s: StreamRef) -> int {
    con.slot(s).recv_window.window_size - announced(frames(con.actions), con.slot(s).id)
}

/// Bytes that were received count against both windows, once.
proof fn received_is_counted(con: ConView, s: StreamRef, size: int)
    requires
        con.wf(),
        con.has(s),
        con.slot(s).id.0 != 0,
        0 <= size,
        con.fits(s, size),
    ensures
        ({
            let next = con.received(s, size);
            &&& con_account(next) == con_account(con) - size
            &&& stream_account(next, s) == stream_account(con, s) - size
            &&& next.slot(s).recv_size == con.slot(s).recv_size + size
            &&& next.slot(s) == (StreamState {
                recv_size: next.slot(s).recv_size,
                recv_window: next.slot(s).recv_window,
                ..con.slot(s)
            })
            &&& next.slots.len() == con.slots.len()
            &&& next.state == (ConnectionState {
                recv_window: next.state.recv_window,
                ..con.state
            })
            &&& next.streams == con.streams
        }),
{
    reveal(ConView::received);
    assert(con.slots[s.0 as int].wf(con.base()));
    let next = con.received(s, size);
    let w = Window { window_size: (con.state.recv_window.window_size - size) as i32 };
    let config = con.state.config;
    if let Some(n) = w.increment(
        0,
        config.connection_window_sz as int,
        config.connection_window_sz_threshold as int,
    ) {
        let f = FrameView::WindowUpdate(
            WindowUpdate { stream_id: StreamId(0), size_increment: n as u32 },
        );
        sent::frames_push(con.actions, ActionView::Send(f));
        announced_push(frames(con.actions), f, StreamId(0));
        announced_push(frames(con.actions), f, con.slot(s).id);
    }
}

proof fn given_back(con: ConView, s: StreamRef, size: int)
    requires
        con.has(s),
        con.slot(s).id.0 != 0,
        0 <= size <= con.slot(s).recv_size <= i32::MAX,
        con.state.config.window_sz <= i32::MAX,
    ensures
        ({
            let next = con.consumed(s, size);
            &&& con_account(next) == con_account(con)
            &&& stream_account(next, s) == stream_account(con, s)
            &&& next.slot(s).recv_size == con.slot(s).recv_size - size
            &&& next.slot(s) == (StreamState {
                recv_size: next.slot(s).recv_size,
                recv_window: next.slot(s).recv_window,
                ..con.slot(s)
            })
            &&& next.state == con.state
            &&& next.streams == con.streams
            &&& next.slots.len() == con.slots.len()
            &&& ({
                let missing = con.state.config.window_sz - con.slot(s).recv_window.window_size - (
                con.slot(s).recv_size - size);
                next.slot(s).recv_window.window_size - con.slot(s).recv_window.window_size
                    == if con.slot(s).recv_window.window_size < con.state.config.window_sz && missing
                    > 0 && missing >= con.state.config.window_sz_threshold {
                    missing
                } else {
                    0
                }
            })
        }),
{
    reveal(ConView::consumed);
    let st = con.slot(s);
    let config = con.state.config;
    if let Some(n) = st.recv_window.increment(
        st.recv_size - size,
        config.window_sz as int,
        config.window_sz_threshold as int,
    ) {
        let f = FrameView::WindowUpdate(
            WindowUpdate { stream_id: st.id, size_increment: n as u32 },
        );
        sent::frames_push(con.actions, ActionView::Send(f));
        announced_push(frames(con.actions), f, StreamId(0));
        announced_push(frames(con.actions), f, st.id);
    }
}

/// Bytes that were consumed do not count against a window a second time: what is missing
/// of the window of their stream is announced, as soon as it reaches the threshold.
pub proof fn consumed_is_announced(con: ConView, s: StreamRef, size: int)
    requires
        con.wf(),
        con.has(s),
        con.slot(s).id.0 != 0,
        0 <= size <= con.slot(s).recv_size,
    ensures
        ({
            let next = con.consumed(s, size);
            &&& con_account(next) == con_account(con)
            &&& stream_account(next, s) == stream_account(con, s)
            &&& next.slot(s).recv_size == con.slot(s).recv_size - size
            &&& next.state == con.state
            &&& next.streams == con.streams
            &&& ({
                let missing = con.state.config.window_sz - con.slot(s).recv_window.window_size - (
                con.slot(s).recv_size - size);
                next.slot(s).recv_window.window_size - con.slot(s).recv_window.window_size
                    == if con.slot(s).recv_window.window_size < con.state.config.window_sz && missing
                    > 0 && missing >= con.state.config.window_sz_threshold {
                    missing
                } else {
                    0
                }
            })
        }),
{
    assert(con.slots[s.0 as int].wf(con.base()));
    given_back(con, s, size);
}

/// Whether payload is the announced one, as far as it has come.
pub open spec fn length_admits(length: ContentLength, size: int, eof: bool) -> bool {
    match length {
        ContentLength::Remaining(n) => size <= n && (eof ==> size == n),
        ContentLength::Head => size == 0,
        ContentLength::Omitted => true,
    }
}

/// Payload is delivered byte by byte as it came, with the end of the stream if it has it,
/// unless its length is not the announced one. Whatever becomes of it, it counts against
/// the windows of the stream and of the connection once. Payload that is delivered holds
/// its capacity until it is consumed; no other does.
pub proof fn data_delivered(con: ConView, s: StreamRef, data: DataView)
    requires
        con.wf(),
        con.has(s),
        con.slot(s).id.0 != 0,
        con.query(data.stream_id) == Some(s),
        con.fits(s, data.data.len() as int),
    ensures
        ({
            let st = con.slot(s);
            let size = data.data.len() as int;
            let eof = data.flags.0 & 1 == 1;
            let (next, r) = con.recv_data(data);
            let ok = st.recv is Payload && length_admits(st.content_length, size, eof);
            &&& con_account(next) == con_account(con) - size
            &&& stream_account(next, s) == stream_account(con, s) - size
            &&& next.slot(s).recv_size == st.recv_size + if ok && !eof {
                size
            } else {
                0
            }
            &&& next.slot(s).send == st.send
            &&& next.slot(s).send_window == st.send_window
            &&& next.state.send_window == con.state.send_window
            &&& next.has(s)
            &&& next.slot(s).id == st.id
            &&& if ok {
                &&& r == Ok::<Option<MessageView>, EitherError>(
                    Some(
                        MessageView {
                            stream: s,
                            kind: if eof {
                                KindView::Eof(EofView::Data(data.data))
                            } else {
                                KindView::Data(
                                    data.data,
                                    Capacity { size: size as u32, stream: s },
                                )
                            },
                        },
                    ),
                )
                &&& next.slot(s).recv == if eof {
                    HalfState::Closed(None)
                } else {
                    HalfState::Payload
                }
                &&& next.slot(s).content_length == match st.content_length {
                    ContentLength::Remaining(n) => ContentLength::Remaining((n - size) as u64),
                    other => other,
                }
            } else {
                &&& r == Err::<Option<MessageView>, EitherError>(
                    EitherError::Stream(
                        StreamErrorInner {
                            kind: match st.recv {
                                HalfState::Idle => StreamError::Idle("DATA framed received"),
                                HalfState::Closed(_) => StreamError::Closed,
                                HalfState::Payload => if st.content_length is Head {
                                    StreamError::NonEmptyPayload
                                } else {
                                    StreamError::WrongPayloadLength
                                },
                            },
                            stream: s,
                        },
                    ),
                )
                &&& next.slot(s).recv == st.recv
            }
        }),
{
    reveal(ConView::recv_data);
    reveal(ConView::stream_data);
    assert(con.slots[s.0 as int].wf(con.base()));
    let size = data.data.len() as int;
    let eof = data.flags.0 & 1 == 1;
    let taken = con.taken(s, size);
    if size != 0 {
        received_is_counted(con, s, size);
    }
    let checked = taken.length_checked(s, size, eof).0;
    assert(checked.state == taken.state && checked.actions == taken.actions);
    sent::close_is_silent(checked, s, None);
    if size != 0 {
        given_back(checked, s, size);
        given_back(checked.recv_close(s, None), s, size);
        given_back(taken, s, size);
    }
}

// ===== Content length =====

/// The sum of the first `n` sizes.
pub open spec fn total(list: Seq<DataView>, n: int) -> int
    decreases n,
{
    if n <= 0 {
        0
    } else {
        total(list, n - 1) + list[n - 1].data.len()
    }
}

/// Payload of one stream that came in DATA frames, one after the other. Whatever else
/// happens between them leaves the receive side of the stream as it is.
pub open spec fn payload_run(
    list: Seq<DataView>,
    before: Seq<ConView>,
    results: Seq<view::Received>,
    s: StreamRef,
) -> bool {
    &&& before.len() == list.len()
    &&& results.len() == list.len()
    &&& forall|i: int| 0 <= i < list.len() ==> #[trigger] payload_step(list, before, results, s, i)
}

pub open spec fn payload_step(
    list: Seq<DataView>,
    before: Seq<ConView>,
    results: Seq<view::Received>,
    s: StreamRef,
    i: int,
) -> bool {
    let con = before[i];
    &&& con.wf()
    &&& con.has(s)
    &&& con.slot(s).id.0 != 0
    &&& con.query(list[i].stream_id) == Some(s)
    &&& con.fits(s, list[i].data.len() as int)
    &&& results[i] == con.recv_data(list[i]).1
    &&& (list[i].flags.0 & 1 == 1 <==> i == list.len() - 1)
    &&& i + 1 < list.len() ==> ({
        let next = con.recv_data(list[i]).0.slot(s);
        &&& before[i + 1].slot(s).recv == next.recv
        &&& before[i + 1].slot(s).content_length == next.content_length
    })
}

proof fn payload_so_far(
    list: Seq<DataView>,
    before: Seq<ConView>,
    results: Seq<view::Received>,
    s: StreamRef,
    n: u64,
    k: int,
)
    requires
        payload_run(list, before, results, s),
        0 <= k < list.len(),
        before[0].slot(s).recv is Payload,
        before[0].slot(s).content_length == ContentLength::Remaining(n),
        total(list, k) <= n,
    ensures
        before[k].slot(s).recv is Payload,
        before[k].slot(s).content_length == ContentLength::Remaining((n - total(list, k)) as u64),
        0 <= total(list, k),
        forall|i: int| 0 <= i < k ==> (#[trigger] results[i]) matches Ok(Some(_)),
    decreases k,
{
    if k > 0 {
        assert(payload_step(list, before, results, s, k - 1));
        payload_so_far(list, before, results, s, n, k - 1);
        data_delivered(before[k - 1], s, list[k - 1]);
    }
}

/// Payload with an announced length `n` is delivered, all frames of it, if and only if
/// the sizes of its frames add up to `n`. Otherwise the first frame that exceeds `n`, or
/// the last one, is refused, and those before it are delivered.
pub proof fn announced_length_is_checked(
    list: Seq<DataView>,
    before: Seq<ConView>,
    results: Seq<view::Received>,
    s: StreamRef,
    n: u64,
    k: int,
)
    requires
        payload_run(list, before, results, s),
        list.len() > 0,
        before[0].slot(s).recv is Payload,
        before[0].slot(s).content_length == ContentLength::Remaining(n),
        0 <= k < list.len(),
        total(list, k) <= n,
    ensures
        (forall|i: int| 0 <= i < list.len() ==> (#[trigger] results[i]) matches Ok(Some(_))) <==> total(
            list,
            list.len() as int,
        ) == n,
        results[k] is Ok <==> total(list, k + 1) <= n && (k == list.len() - 1 ==> total(list, k + 1)
            == n),
        results[k] is Err ==> results[k] == Err::<Option<MessageView>, EitherError>(
            EitherError::Stream(
                StreamErrorInner { kind: StreamError::WrongPayloadLength, stream: s },
            ),
        ),
        results[k] is Ok ==> results[k] == Ok::<Option<MessageView>, EitherError>(
            Some(
                MessageView {
                    stream: s,
                    kind: if k == list.len() - 1 {
                        KindView::Eof(EofView::Data(list[k].data))
                    } else {
                        KindView::Data(
                            list[k].data,
                            Capacity { size: list[k].data.len() as u32, stream: s },
                        )
                    },
                },
            ),
        ),
        forall|i: int| 0 <= i < k ==> (#[trigger] results[i]) matches Ok(Some(_)),
{
    assert(payload_step(list, before, results, s, k));
    payload_so_far(list, before, results, s, n, k);
    data_delivered(before[k], s, list[k]);
    let last = list.len() - 1;
    if total(list, last) <= n {
        assert(payload_step(list, before, results, s, last));
        payload_so_far(list, before, results, s, n, last);
        data_delivered(before[last], s, list[last]);
    } else {
        let m = exceeding(list, n, last);
        assert(payload_step(list, before, results, s, m));
        payload_so_far(list, before, results, s, n, m);
        data_delivered(before[m], s, list[m]);
    }
}

/// The first frame with which the sum exceeds a number.
proof fn exceeding(list: Seq<DataView>, n: u64, k: int) -> (m: int)
    requires
        0 <= k < list.len(),
        total(list, k) > n,
    ensures
        0 <= m < k,
        total(list, m) <= n,
        total(list, m + 1) > n,
    decreases k,
{
    if total(list, k - 1) > n {
        exceeding(list, n, k - 1)
    } else {
        k - 1
    }
}

} // verus!
