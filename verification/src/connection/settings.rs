//! What the settings of both sides do.
use vstd::prelude::*;

use crate::connection::ledger::{self, calm};
use crate::connection::received::{self, announced, con_account, stream_account};
use crate::connection::sent::{self, frames};
use crate::connection::view::{
    self, ActionView, ConView, ConnectionFlags, ConnectionState, SettingsErrorView,
};
use crate::connection::walk;
use crate::error::ConnectionError;
use crate::frame::{FrameView, Settings, StreamId, WindowUpdate};
use crate::hpack::encoder;
use crate::stream::{StreamRef, StreamState};

verus! {

/// The answer to settings of the peer.
pub open spec fn settings_ack() -> FrameView {
    FrameView::Settings(
        Settings {
            ack: true,
            header_table_size: None,
            enable_push: None,
            max_concurrent_streams: None,
            initial_window_size: None,
            max_frame_size: None,
            max_header_list_size: None,
            enable_connect_protocol: None,
        },
    )
}

/// The streams in a list, at their places.
pub open spec fn listed(list: Seq<StreamRef>, i: int) -> bool {
    exists|k: int| 0 <= k < list.len() && (#[trigger] list[k]).0 == i
}

proof fn limits_taken(con: ConView, settings: Settings)
    ensures
        ({
            let next = con.limits_changed(settings);
            &&& frames(next.actions) == frames(con.actions).push(settings_ack())
            &&& next.slots == con.slots
            &&& next.streams == con.streams
            &&& next.free == con.free
            &&& next.state == (ConnectionState {
                remote_frame_size: match settings.max_frame_size {
                    Some(n) => n,
                    None => con.state.remote_frame_size,
                },
                local_max_concurrent_streams: match settings.max_concurrent_streams {
                    Some(n) => Some(n),
                    None => con.state.local_max_concurrent_streams,
                },
                ..con.state
            })
            &&& next.codec.encoder_max_frame_size == match settings.max_frame_size {
                Some(n) => n,
                None => con.codec.encoder_max_frame_size,
            }
            &&& settings.header_table_size is None ==> next.codec.encoder_hpack
                == con.codec.encoder_hpack
            &&& settings.header_table_size matches Some(n) ==> encoder::updated_table(
                next.codec.encoder_hpack.table@,
                next.codec.encoder_hpack.size_update,
            ).max_size == n
        }),
{
    sent::frames_push(con.actions, ActionView::Send(settings_ack()));
    let acked = con.send(settings_ack());
    let sized = acked.frame_size_changed(settings.max_frame_size).table_size_changed(
        settings.header_table_size,
    );
    assert(sized.actions == acked.actions);
    assert(sized.readiness == con.readiness);
    let ready = con.readiness.map_values(|w: u64| ActionView::Ready(w));
    ledger::waiters_are_calm(acked, ready);
    sent::frames_push(acked.actions + ready, ActionView::Capacity);
}

/// Settings of the peer are answered once, and hold from then on: the size of its frames,
/// the number of its streams and the size of its compression table. The send window of
/// every open stream moves by the difference between the new initial size and the old
/// one, and new streams start with the new one. The window of the connection does not
/// move.
pub proof fn settings_taken(con: ConView, settings: Settings)
    requires
        con.wf(),
        con.slots.len() <= usize::MAX,
        !settings.ack,
        settings.initial_window_size matches Some(n) ==> n <= 0x7fff_ffff,
    ensures
        ({
            let next = con.recv_settings(settings).0;
            let size = match settings.initial_window_size {
                Some(n) => n,
                None => con.state.remote_window_sz,
            };
            let upd = size - con.state.remote_window_sz;
            &&& frames(next.actions) == frames(con.actions).push(settings_ack())
            &&& next.state == (ConnectionState {
                remote_window_sz: size,
                remote_frame_size: match settings.max_frame_size {
                    Some(n) => n,
                    None => con.state.remote_frame_size,
                },
                local_max_concurrent_streams: match settings.max_concurrent_streams {
                    Some(n) => Some(n),
                    None => con.state.local_max_concurrent_streams,
                },
                ..con.state
            })
            &&& next.codec.encoder_max_frame_size == match settings.max_frame_size {
                Some(n) => n,
                None => con.codec.encoder_max_frame_size,
            }
            &&& settings.header_table_size matches Some(n) ==> encoder::updated_table(
                next.codec.encoder_hpack.table@,
                next.codec.encoder_hpack.size_update,
            ).max_size == n
            &&& next.slots.len() == con.slots.len()
            &&& forall|i: int|
                0 <= i < con.slots.len() ==> {
                    let before = con.slots[i].send_window.window_size;
                    &&& (#[trigger] next.slots[i]).send_window.window_size == if con.registered(i)
                        && before + upd <= 0x7fff_ffff {
                        before + upd
                    } else {
                        before as int
                    }
                    &&& next.slots[i] == (StreamState {
                        send_window: next.slots[i].send_window,
                        ..con.slots[i]
                    })
                }
        }),
{
    reveal(ConView::recv_settings);
    limits_taken(con, settings);
    con.streams_listed(con.slots.len());
    let next = con.limits_changed(settings);
    let list = con.all_streams();
    if let Some(val) = settings.initial_window_size {
        let upd = val - con.state.remote_window_sz;
        let start = next.with_state(ConnectionState { remote_window_sz: val, ..next.state });
        start.send_windows_slots(list, upd);
        let end = start.send_windows_moved(list, upd).0;
        assert forall|i: int| 0 <= i < con.slots.len() implies {
            let before = con.slots[i].send_window.window_size;
            &&& (#[trigger] end.slots[i]).send_window.window_size == if con.registered(i) && before
                + upd <= 0x7fff_ffff {
                before + upd
            } else {
                before as int
            }
            &&& end.slots[i] == (StreamState {
                send_window: end.slots[i].send_window,
                ..con.slots[i]
            })
        } by {
            assert(start.slots[i] == con.slots[i]);
            if con.registered(i) {
                assert(list.contains(StreamRef(i as usize)));
                let k = choose|k: int| 0 <= k < list.len() && list[k] == StreamRef(i as usize);
                assert(list[k].0 == i);
                assert(con.entry_wf(con.slots[i].id.0));
            } else if exists|k: int| 0 <= k < list.len() && (#[trigger] list[k]).0 == i {
                let k = choose|k: int| 0 <= k < list.len() && (#[trigger] list[k]).0 == i;
                assert(con.registered(list[k].0 as int));
            }
        }
    }
}

proof fn window_moved(con: ConView, s: StreamRef, upd: int, other: StreamId)
    requires
        con.has(s),
        con.slot(s).id.0 != 0,
        con.slot(s).recv_size <= i32::MAX,
        con.state.config.window_sz <= i32::MAX,
        con.slot(s).recv_window.window_size + upd >= i32::MIN,
    ensures
        ({
            let (next, r) = con.recv_window_moved(s, upd);
            let told = match r {
                Ok(Some(n)) => next.send(
                    FrameView::WindowUpdate(
                        WindowUpdate { stream_id: next.slot(s).id, size_increment: n },
                    ),
                ),
                _ => next,
            };
            let moves = con.slot(s).recv_window.window_size + upd <= 0x7fff_ffff || upd == 0;
            &&& (r is Ok <==> moves)
            &&& stream_account(told, s) == stream_account(con, s) + if moves {
                upd
            } else {
                0
            }
            &&& con_account(told) == con_account(con)
            &&& calm(con, told)
            &&& told.slot(s).id == con.slot(s).id
            &&& told.slots.len() == con.slots.len()
            &&& forall|i: int|
                0 <= i < con.slots.len() && i != s.0 ==> (#[trigger] told.slots[i])
                    == con.slots[i]
            &&& told.state == con.state
            &&& other != con.slot(s).id ==> announced(frames(told.actions), other) == announced(
                frames(con.actions),
                other,
            )
        }),
{
    let (next, r) = con.recv_window_moved(s, upd);
    if let Ok(Some(n)) = r {
        let f = FrameView::WindowUpdate(
            WindowUpdate { stream_id: next.slot(s).id, size_increment: n },
        );
        sent::frames_push(con.actions, ActionView::Send(f));
        received::announced_push(frames(con.actions), f, StreamId(0));
        received::announced_push(frames(con.actions), f, con.slot(s).id);
        received::announced_push(frames(con.actions), f, other);
        ledger::act_is_calm(next, ActionView::Send(f));
    }
}

/// Whether the receive window of a stream can move by a difference.
pub open spec fn can_move(con: ConView, s: StreamRef, upd: int) -> bool {
    con.slot(s).recv_window.window_size + upd <= 0x7fff_ffff || upd == 0
}

proof fn windows_moved(con: ConView, list: Seq<StreamRef>, upd: int, s: StreamRef)
    requires
        walk::ascending(list, con.slots.len()),
        con.state.config.window_sz <= i32::MAX,
        con.has(s),
        con.slot(s).id.0 != 0,
        forall|k: int|
            0 <= k < list.len() ==> {
                let st = con.slot(#[trigger] list[k]);
                &&& st.id.0 != 0
                &&& st.recv_size <= i32::MAX
                &&& st.recv_window.window_size + upd >= i32::MIN
                &&& list[k] != s ==> st.id != con.slot(s).id
            },
    ensures
        ({
            let (next, errs) = con.recv_windows_moved(list, upd);
            &&& calm(con, next)
            &&& con_account(next) == con_account(con)
            &&& stream_account(next, s) == stream_account(con, s) + if listed(list, s.0 as int)
                && can_move(con, s, upd) {
                upd
            } else {
                0
            }
            &&& (errs.len() == 0 <==> forall|k: int|
                0 <= k < list.len() ==> can_move(con, #[trigger] list[k], upd))
        }),
    decreases list.len(),
{
    if list.len() > 0 {
        let init = list.drop_last();
        let last = list.last();
        let end = list.len() - 1;
        assert forall|k: int| 0 <= k < init.len() implies {
            let st = con.slot(#[trigger] init[k]);
            &&& st.id.0 != 0
            &&& st.recv_size <= i32::MAX
            &&& st.recv_window.window_size + upd >= i32::MIN
            &&& init[k] != s ==> st.id != con.slot(s).id
            &&& init[k].0 < con.slots.len()
            &&& init[k].0 < last.0
        } by {
            assert(init[k] == list[k]);
            assert(list[k].0 < list[end].0);
        }
        assert(walk::ascending(init, con.slots.len())) by {
            assert forall|j: int, k: int| 0 <= j < k < init.len() implies (#[trigger] init[j]).0 < (
            #[trigger] init[k]).0 by {
                assert(init[j] == list[j] && init[k] == list[k]);
            }
        }
        windows_moved(con, init, upd, s);
        con.recv_windows_slots(init, upd);
        let prev = con.recv_windows_moved(init, upd).0;
        assert(list[end] == last);
        assert(!listed(init, last.0 as int));
        assert(prev.slots[last.0 as int] == con.slots[last.0 as int]);
        window_moved(prev, last, upd, con.slot(s).id);
        if s == last {
            assert(listed(list, s.0 as int));
        } else {
            assert(listed(list, s.0 as int) == listed(init, s.0 as int)) by {
                if listed(init, s.0 as int) {
                    let k = choose|k: int| 0 <= k < init.len() && (#[trigger] init[k]).0 == s.0;
                    assert(list[k].0 == s.0);
                }
                if listed(list, s.0 as int) {
                    let k = choose|k: int| 0 <= k < list.len() && (#[trigger] list[k]).0 == s.0;
                    assert(init[k].0 == s.0);
                }
            }
            assert(prev.slot(s).id == con.slot(s).id);
        }
        let errs = con.recv_windows_moved(init, upd).1;
        if errs.len() > 0 {
            let k = choose|k: int| 0 <= k < init.len() && !can_move(con, #[trigger] init[k], upd);
            assert(!can_move(con, list[k], upd));
        } else {
            assert forall|k: int| 0 <= k < end implies can_move(con, #[trigger] list[k], upd) by {
                assert(can_move(con, init[k], upd));
            }
        }
        let (next, all) = con.recv_windows_moved(list, upd);
        assert(calm(con, next));
        assert(con_account(next) == con_account(con));
        if s == last {
            assert(stream_account(prev, s) == stream_account(con, s));
        } else {
            assert(next.slots[s.0 as int] == prev.slots[s.0 as int]);
            assert(prev.slot(last).id != prev.slot(s).id);
            assert(announced(frames(next.actions), prev.slot(s).id) == announced(
                frames(prev.actions),
                prev.slot(s).id,
            ));
        }
        assert(all.len() == 0 <==> errs.len() == 0 && can_move(con, list[end], upd));
    }
}

/// An answer to the settings of this side sends no payload.
pub proof fn answer_is_calm(con: ConView, settings: Settings)
    requires
        con.wf(),
        con.slots.len() <= usize::MAX,
        settings.ack,
    ensures
        calm(con, con.recv_settings(settings).0),
{
    reveal(ConView::recv_settings);
    con.streams_listed(con.slots.len());
    let list = con.all_streams();
    if list.len() > 0 {
        assert(con.registered(list[0].0 as int));
        settings_answered(con, settings, list[0]);
    }
}

/// The peer has taken the settings of this side: the receive window of every open stream
/// moves by the difference between the initial size that was asked for and 65,535, in
/// what the peer is told or in what is left. The receive window of the connection stays as
/// it is. A second answer is an error.
pub proof fn settings_answered(con: ConView, settings: Settings, s: StreamRef)
    requires
        con.wf(),
        con.slots.len() <= usize::MAX,
        settings.ack,
        con.has(s),
        con.registered(s.0 as int),
    ensures
        ({
            let (next, r) = con.recv_settings(settings);
            let upd = con.state.config.window_sz - 65_535;
            if con.state.flags.settings_processed {
                &&& next == con
                &&& r == Err::<(), SettingsErrorView>(
                    SettingsErrorView::Connection(ConnectionError::UnexpectedSettingsAck),
                )
            } else {
                &&& next.state.flags.settings_processed
                &&& con_account(next) == con_account(con)
                &&& stream_account(next, s) == stream_account(con, s) + if can_move(con, s, upd) {
                    upd
                } else {
                    0
                }
                &&& (r is Ok <==> forall|t: StreamRef|
                    con.registered(t.0 as int) ==> #[trigger] can_move(con, t, upd))
                &&& con.state.config.settings.max_frame_size matches Some(n)
                    ==> next.codec.decoder.builder.max_frame_len == n
                &&& calm(con, next)
            }
        }),
{
    reveal(ConView::recv_settings);
    if !con.state.flags.settings_processed {
        con.streams_listed(con.slots.len());
        let list = con.all_streams();
        let upd = con.state.config.window_sz - 65_535;
        let start = con.with_flags(
            ConnectionFlags { settings_processed: true, ..con.state.flags },
        );
        let start = match con.state.config.settings.max_frame_size {
            Some(max) => ConView {
                codec: view::with_recv_frame_size(con.codec, max as usize),
                ..start
            },
            None => start,
        };
        assert forall|k: int| 0 <= k < list.len() implies {
            let st = start.slot(#[trigger] list[k]);
            &&& st.id.0 != 0
            &&& st.recv_size <= i32::MAX
            &&& st.recv_window.window_size + upd >= i32::MIN
            &&& list[k] != s ==> st.id != start.slot(s).id
        } by {
            assert(con.registered(list[k].0 as int));
            assert(con.registered(s.0 as int));
            assert(con.entry_wf(con.slots[list[k].0 as int].id.0));
        }
        assert(con.entry_wf(con.slots[s.0 as int].id.0));
        windows_moved(start, list, upd, s);
        start.recv_windows_slots(list, upd);
        assert(list.contains(StreamRef(s.0)));
        assert(listed(list, s.0 as int));
        assert forall|t: StreamRef| con.registered(t.0 as int) && (forall|k: int|
            0 <= k < list.len() ==> can_move(start, #[trigger] list[k], upd)) implies #[trigger] can_move(
            con,
            t,
            upd,
        ) by {
            assert(list.contains(StreamRef(t.0)));
            let k = choose|k: int| 0 <= k < list.len() && list[k] == t;
            assert(can_move(start, list[k], upd));
        }
        if forall|t: StreamRef| con.registered(t.0 as int) ==> #[trigger] can_move(con, t, upd) {
            assert forall|k: int| 0 <= k < list.len() implies can_move(
                start,
                #[trigger] list[k],
                upd,
            ) by {
                assert(con.registered(list[k].0 as int));
                assert(can_move(con, list[k], upd));
            }
        }
    }
}

} // verus!
