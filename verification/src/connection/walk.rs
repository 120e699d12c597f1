//! Operations on all streams of a connection.
use vstd::prelude::*;

use crate::config::ServiceConfig;
use crate::connection::view::{
    ActionView, ConView, ConnectionFlags, ConnectionState, Entry, SettingsErrorView,
};
use crate::connection::{Action, Connection};
use crate::error::{OperationError, StreamErrorInner};
use crate::frame::{self, Frame, Reason, WindowUpdate};
use crate::stream::{StreamRef, StreamState};
use crate::window::Window;

verus! {

broadcast use vstd::std_specs::hash::group_hash_axioms;

// ===== Which streams =====

impl ConView {
    /// The list of registered streams holds each of them once.
    pub proof fn streams_listed(self, n: nat)
        requires
            n <= self.slots.len(),
            self.slots.len() <= usize::MAX,
        ensures
            forall|k: int|
                0 <= k < self.streams_below(n).len() ==> (#[trigger] self.streams_below(n)[k]).0 < n
                    && self.registered(self.streams_below(n)[k].0 as int),
            forall|j: int, k: int|
                0 <= j < k < self.streams_below(n).len() ==> (#[trigger] self.streams_below(n)[j]).0
                    < (#[trigger] self.streams_below(n)[k]).0,
            forall|i: int|
                0 <= i < n && #[trigger] self.registered(i) ==> self.streams_below(n).contains(
                    StreamRef(i as usize),
                ),
        decreases n,
    {
        if n > 0 {
            self.streams_listed((n - 1) as nat);
            let prev = self.streams_below((n - 1) as nat);
            let list = self.streams_below(n);
            assert forall|i: int| 0 <= i < n && #[trigger] self.registered(i) implies list.contains(
                StreamRef(i as usize),
            ) by {
                if i == n - 1 {
                    assert(list[list.len() - 1] == StreamRef(i as usize));
                } else {
                    assert(prev.contains(StreamRef(i as usize)));
                    let k = choose|k: int| 0 <= k < prev.len() && prev[k] == StreamRef(i as usize);
                    assert(list[k] == StreamRef(i as usize));
                }
            }
        }
    }
}

impl Connection {
    /// The registered streams, in the order of their slots.
    pub fn stream_list(&self) -> (r: Vec<StreamRef>)
        requires
            self@.wf(),
        ensures
            r@ == self@.all_streams(),
    {
        let mut list: Vec<StreamRef> = Vec::new();
        let mut i: usize = 0;
        while i < self.slots.len()
            invariant
                self@.wf(),
                i <= self@.slots.len(),
                list@ == self@.streams_below(i as nat),
            decreases self@.slots.len() - i,
        {
            if self.is_registered(StreamRef(i)) {
                list.push(StreamRef(i));
            }
            i = i + 1;
        }
        list
    }

    /// Unregisters all streams of a connection that has failed.
    pub(crate) fn take_streams(&mut self) -> (r: Vec<StreamRef>)
        requires
            old(self)@.wf(),
            old(self)@.state.error is Some,
        ensures
            r@ == old(self)@.all_streams(),
            final(self)@ == old(self)@.without_streams(),
            final(self)@.wf(),
            forall|k: int| 0 <= k < r@.len() ==> final(self)@.has(#[trigger] r@[k]),
    {
        let list = self.stream_list();
        let len: usize = self.slots.len();
        proof {
            old(self)@.streams_listed(len as nat);
        }
        self.streams.clear();
        proof {
            let none = Map::<u32, Entry>::empty();
            assert(none.dom().filter(|i: u32| none[i].remote == true) =~= Set::<u32>::empty());
            assert(none.dom().filter(|i: u32| none[i].remote == false) =~= Set::<u32>::empty());
            assert(self.streams@ =~= none);
        }
        list
    }
}

// ===== Failures =====

impl Connection {
    pub(crate) fn set_go_away_all(&mut self, list: &Vec<StreamRef>, reason: Reason)
        requires
            old(self)@.wf(),
            forall|k: int| 0 <= k < list@.len() ==> old(self)@.has(#[trigger] list@[k]),
        ensures
            final(self)@ == old(self)@.remote_reset_all(list@, reason),
            final(self)@.wf(),
    {
        let mut i: usize = 0;
        assert(list@.take(0) =~= Seq::<StreamRef>::empty());
        while i < list.len()
            invariant
                i <= list@.len(),
                self@.wf(),
                self@.slots.len() == old(self)@.slots.len(),
                forall|k: int| 0 <= k < list@.len() ==> old(self)@.has(#[trigger] list@[k]),
                self@ == old(self)@.remote_reset_all(list@.take(i as int), reason),
            decreases list@.len() - i,
        {
            list[i].set_go_away(self, reason);
            assert(list@.take(i + 1).drop_last() =~= list@.take(i as int));
            i = i + 1;
        }
        assert(list@.take(i as int) =~= list@);
    }

    pub(crate) fn set_failed_all(&mut self, list: &Vec<StreamRef>, err: OperationError)
        requires
            old(self)@.wf(),
            forall|k: int| 0 <= k < list@.len() ==> old(self)@.has(#[trigger] list@[k]),
        ensures
            final(self)@ == old(self)@.failed_all(list@, err),
            final(self)@.wf(),
    {
        let mut i: usize = 0;
        assert(list@.take(0) =~= Seq::<StreamRef>::empty());
        while i < list.len()
            invariant
                i <= list@.len(),
                self@.wf(),
                self@.slots.len() == old(self)@.slots.len(),
                forall|k: int| 0 <= k < list@.len() ==> old(self)@.has(#[trigger] list@[k]),
                self@ == old(self)@.failed_all(list@.take(i as int), err),
            decreases list@.len() - i,
        {
            list[i].set_failed_stream(self, err);
            assert(list@.take(i + 1).drop_last() =~= list@.take(i as int));
            i = i + 1;
        }
        assert(list@.take(i as int) =~= list@);
    }

    pub(crate) fn window_grown_all(&mut self, list: &Vec<StreamRef>)
        requires
            old(self)@.wf(),
            forall|k: int| 0 <= k < list@.len() ==> old(self)@.has(#[trigger] list@[k]),
        ensures
            final(self)@ == old(self)@.con_window_grown_all(list@),
            final(self)@.wf(),
    {
        let mut i: usize = 0;
        assert(list@.take(0) =~= Seq::<StreamRef>::empty());
        while i < list.len()
            invariant
                i <= list@.len(),
                self@.wf(),
                self@.slots.len() == old(self)@.slots.len(),
                forall|k: int| 0 <= k < list@.len() ==> old(self)@.has(#[trigger] list@[k]),
                self@ == old(self)@.con_window_grown_all(list@.take(i as int)),
            decreases list@.len() - i,
        {
            list[i].recv_window_update_connection(self);
            assert(list@.take(i + 1).drop_last() =~= list@.take(i as int));
            i = i + 1;
        }
        assert(list@.take(i as int) =~= list@);
    }

    /// Wakes up all tasks that wait for a new stream.
    pub(crate) fn ready_all(&mut self)
        requires
            old(self)@.wf(),
        ensures
            final(self)@ == old(self)@.ready_all(),
            final(self)@.wf(),
    {
        let mut waiters: Vec<u64> = Vec::new();
        std::mem::swap(&mut waiters, &mut self.readiness);
        let ghost all = waiters@;
        let mut i: usize = 0;
        while i < waiters.len()
            invariant
                i <= waiters@.len(),
                waiters@ == all,
                self@ == (ConView {
                    readiness: Seq::empty(),
                    actions: old(self)@.actions + all.take(i as int).map_values(
                        |w: u64| ActionView::Ready(w),
                    ),
                    ..old(self)@
                }),
            decreases waiters@.len() - i,
        {
            let ghost before = self@.actions;
            self.act(Action::Ready(waiters[i]));
            assert(self@.actions =~= old(self)@.actions + all.take(i + 1).map_values(
                |w: u64| ActionView::Ready(w),
            ));
            i = i + 1;
        }
        assert(all.take(i as int) =~= all);
    }

    /// Tells all tasks that wait for a new stream that there will be none.
    pub(crate) fn gone_all(&mut self)
        requires
            old(self)@.wf(),
        ensures
            final(self)@ == old(self)@.gone_all(),
            final(self)@.wf(),
    {
        let mut waiters: Vec<u64> = Vec::new();
        std::mem::swap(&mut waiters, &mut self.readiness);
        let ghost all = waiters@;
        let mut i: usize = 0;
        while i < waiters.len()
            invariant
                i <= waiters@.len(),
                waiters@ == all,
                self@ == (ConView {
                    readiness: Seq::empty(),
                    actions: old(self)@.actions + all.take(i as int).map_values(
                        |w: u64| ActionView::Gone(w),
                    ),
                    ..old(self)@
                }),
            decreases waiters@.len() - i,
        {
            self.act(Action::Gone(waiters[i]));
            assert(self@.actions =~= old(self)@.actions + all.take(i + 1).map_values(
                |w: u64| ActionView::Gone(w),
            ));
            i = i + 1;
        }
        assert(all.take(i as int) =~= all);
    }
}

// ===== Initial window sizes =====

/// Each stream of the list has a slot, and no two of them have the same one.
pub open spec fn ascending(list: Seq<StreamRef>, len: nat) -> bool {
    &&& forall|k: int| 0 <= k < list.len() ==> (#[trigger] list[k]).0 < len
    &&& forall|j: int, k: int|
        0 <= j < k < list.len() ==> (#[trigger] list[j]).0 < (#[trigger] list[k]).0
}

/// A stream whose send window has moved, unless it would be too large.
pub open spec fn send_moved(st: StreamState, upd: int) -> StreamState {
    if st.send_window.window_size + upd > i32::MAX {
        st
    } else {
        StreamState {
            send_window: Window { window_size: (st.send_window.window_size + upd) as i32 },
            ..st
        }
    }
}

/// A stream whose receive window has moved, unless it would be too large.
pub open spec fn recv_moved(config: ServiceConfig, st: StreamState, upd: int) -> StreamState {
    let window = Window { window_size: (st.recv_window.window_size + upd) as i32 };
    if upd == 0 || st.recv_window.window_size + upd > i32::MAX {
        st
    } else {
        match window.increment(
            st.recv_size as int,
            config.window_sz as int,
            config.window_sz_threshold as int,
        ) {
            Some(n) => StreamState {
                recv_window: Window { window_size: (window.window_size + n) as i32 },
                ..st
            },
            None => StreamState { recv_window: window, ..st },
        }
    }
}

impl ConView {
    pub proof fn send_windows_slots(self, list: Seq<StreamRef>, upd: int)
        requires
            ascending(list, self.slots.len()),
        ensures
            self.send_windows_moved(list, upd).0 == (ConView {
                slots: self.send_windows_moved(list, upd).0.slots,
                ..self
            }),
            self.send_windows_moved(list, upd).0.slots.len() == self.slots.len(),
            forall|i: int|
                0 <= i < self.slots.len() ==> #[trigger] self.send_windows_moved(list, upd).0.slots[i]
                    == if exists|k: int| 0 <= k < list.len() && (#[trigger] list[k]).0 == i {
                    send_moved(self.slots[i], upd)
                } else {
                    self.slots[i]
                },
        decreases list.len(),
    {
        if list.len() > 0 {
            let init = list.drop_last();
            self.send_windows_slots(init, upd);
            let prev = self.send_windows_moved(init, upd).0;
            let next = self.send_windows_moved(list, upd).0;
            let last = list.len() - 1;
            assert forall|i: int| 0 <= i < self.slots.len() implies #[trigger] next.slots[i] == if exists|
                k: int,
            | 0 <= k < list.len() && (#[trigger] list[k]).0 == i {
                send_moved(self.slots[i], upd)
            } else {
                self.slots[i]
            } by {
                if list[last].0 == i {
                    assert(forall|k: int| 0 <= k < init.len() ==> (#[trigger] init[k]).0 != i);
                    assert(prev.slots[i] == self.slots[i]);
                } else {
                    assert(prev.slots[i] == next.slots[i]);
                    if exists|k: int| 0 <= k < init.len() && (#[trigger] init[k]).0 == i {
                        let k = choose|k: int| 0 <= k < init.len() && (#[trigger] init[k]).0 == i;
                        assert(list[k].0 == i);
                    } else if exists|k: int| 0 <= k < list.len() && (#[trigger] list[k]).0 == i {
                        let k = choose|k: int| 0 <= k < list.len() && (#[trigger] list[k]).0 == i;
                        assert(init[k].0 == i);
                    }
                }
            }
        }
    }
}

impl Connection {
    fn update_send_windows(&mut self, list: &Vec<StreamRef>, upd: i32) -> (r: Vec<
        StreamErrorInner,
    >)
        requires
            ascending(list@, old(self)@.slots.len()),
            forall|k: int|
                0 <= k < list@.len() ==> i32::MIN <= old(self)@.slots[(#[trigger] list@[k]).0 as int].send_window.window_size
                    + upd,
        ensures
            (final(self)@, r@) == old(self)@.send_windows_moved(list@, upd as int),
            final(self)@.slots.len() == old(self)@.slots.len(),
            forall|k: int| 0 <= k < r@.len() ==> old(self)@.has((#[trigger] r@[k]).stream),
    {
        let mut errs: Vec<StreamErrorInner> = Vec::new();
        let mut i: usize = 0;
        assert(list@.take(0) =~= Seq::<StreamRef>::empty());
        while i < list.len()
            invariant
                i <= list@.len(),
                ascending(list@, old(self)@.slots.len()),
                forall|k: int|
                    0 <= k < list@.len() ==> i32::MIN <= old(self)@.slots[(#[trigger] list@[k]).0 as int].send_window.window_size
                        + upd,
                (self@, errs@) == old(self)@.send_windows_moved(list@.take(i as int), upd as int),
                self@.slots.len() == old(self)@.slots.len(),
                forall|k: int| 0 <= k < errs@.len() ==> old(self)@.has((#[trigger] errs@[k]).stream),
            decreases list@.len() - i,
        {
            let stream = list[i];
            proof {
                let done = list@.take(i as int);
                old(self)@.send_windows_slots(done, upd as int);
                assert(forall|k: int| 0 <= k < done.len() ==> (#[trigger] done[k]).0 != stream.0);
                assert(self@.slots[stream.0 as int] == old(self)@.slots[stream.0 as int]);
            }
            if let Err(kind) = stream.update_send_window(self, upd) {
                errs.push(StreamErrorInner::new(stream, kind));
            }
            assert(list@.take(i + 1).drop_last() =~= list@.take(i as int));
            i = i + 1;
        }
        assert(list@.take(i as int) =~= list@);
        errs
    }

    /// Takes over a new initial window size of the peer.
    pub(crate) fn set_remote_window_size(&mut self, val: u32) -> (r: Vec<StreamErrorInner>)
        requires
            old(self)@.wf(),
            val <= i32::MAX,
        ensures
            (final(self)@, r@) == old(self)@.with_state(
                (ConnectionState { remote_window_sz: val, ..old(self)@.state }),
            ).send_windows_moved(
                old(self)@.all_streams(),
                val - old(self)@.state.remote_window_sz,
            ),
            final(self)@.wf(),
            forall|k: int| 0 <= k < r@.len() ==> final(self)@.has((#[trigger] r@[k]).stream),
    {
        let ghost before = self@;
        let upd: i32 = (val as i32) - (self.state.remote_window_sz as i32);
        let list = self.stream_list();
        let len: usize = self.slots.len();
        proof {
            before.streams_listed(len as nat);
            assert forall|k: int| 0 <= k < list@.len() implies i32::MIN
                <= before.slots[(#[trigger] list@[k]).0 as int].send_window.window_size + upd by {
                assert(before.registered(list@[k].0 as int));
                assert(before.entry_wf(before.slots[list@[k].0 as int].id.0));
            }
        }
        self.state.remote_window_sz = val;
        let ghost start = self@;
        let errs = self.update_send_windows(&list, upd);
        proof {
            start.send_windows_slots(list@, upd as int);
            before.moved_wf(self@, list@, upd as int, val);
        }
        errs
    }
}

impl ConView {
    /// A connection stays well-formed when the send windows have moved together
    /// with the initial window size of the peer.
    proof fn moved_wf(self, next: ConView, list: Seq<StreamRef>, upd: int, val: u32)
        requires
            self.wf(),
            self.slots.len() <= usize::MAX,
            list == self.all_streams(),
            val <= i32::MAX,
            upd == val - self.state.remote_window_sz,
            next == (ConView {
                slots: next.slots,
                state: ConnectionState { remote_window_sz: val, ..self.state },
                ..self
            }),
            next.slots.len() == self.slots.len(),
            forall|i: int|
                0 <= i < self.slots.len() ==> #[trigger] next.slots[i] == if exists|k: int|
                    0 <= k < list.len() && (#[trigger] list[k]).0 == i {
                    send_moved(self.slots[i], upd)
                } else {
                    self.slots[i]
                },
        ensures
            next.wf(),
    {
        self.streams_listed(self.slots.len());
        assert forall|id: u32| #[trigger] next.streams.dom().contains(id) implies next.entry_wf(
            id,
        ) by {
            assert(self.entry_wf(id));
            let slot = self.streams[id].slot as int;
            assert(self.registered(slot));
            assert(list.contains(StreamRef(slot as usize)));
            let k = choose|k: int| 0 <= k < list.len() && list[k] == StreamRef(slot as usize);
            assert(list[k].0 == slot);
            assert(next.slots[slot] == send_moved(self.slots[slot], upd));
        }
        assert forall|k: int| 0 <= k < next.free.len() implies #[trigger] next.free[k]
            < next.slots.len() && !next.registered(next.free[k] as int) by {
            assert(!self.registered(self.free[k] as int));
            assert(next.slots[next.free[k] as int].id == self.slots[self.free[k] as int].id);
        }
        assert forall|i: int| 0 <= i < next.slots.len() implies (#[trigger] next.slots[i]).wf(
            next.base(),
        ) by {
            assert(self.slots[i].wf(self.base()));
        }
    }
}

impl ConView {
    pub proof fn recv_windows_slots(self, list: Seq<StreamRef>, upd: int)
        requires
            ascending(list, self.slots.len()),
        ensures
            self.recv_windows_moved(list, upd).0 == (ConView {
                slots: self.recv_windows_moved(list, upd).0.slots,
                actions: self.recv_windows_moved(list, upd).0.actions,
                ..self
            }),
            self.recv_windows_moved(list, upd).0.slots.len() == self.slots.len(),
            forall|i: int|
                0 <= i < self.slots.len() ==> #[trigger] self.recv_windows_moved(list, upd).0.slots[i]
                    == if exists|k: int| 0 <= k < list.len() && (#[trigger] list[k]).0 == i {
                    recv_moved(self.state.config, self.slots[i], upd)
                } else {
                    self.slots[i]
                },
        decreases list.len(),
    {
        if list.len() > 0 {
            let init = list.drop_last();
            self.recv_windows_slots(init, upd);
            let prev = self.recv_windows_moved(init, upd).0;
            let next = self.recv_windows_moved(list, upd).0;
            let last = list.len() - 1;
            assert forall|i: int| 0 <= i < self.slots.len() implies #[trigger] next.slots[i] == if exists|
                k: int,
            | 0 <= k < list.len() && (#[trigger] list[k]).0 == i {
                recv_moved(self.state.config, self.slots[i], upd)
            } else {
                self.slots[i]
            } by {
                if list[last].0 == i {
                    assert(forall|k: int| 0 <= k < init.len() ==> (#[trigger] init[k]).0 != i);
                    assert(prev.slots[i] == self.slots[i]);
                } else {
                    assert(prev.slots[i] == next.slots[i]);
                    if exists|k: int| 0 <= k < init.len() && (#[trigger] init[k]).0 == i {
                        let k = choose|k: int| 0 <= k < init.len() && (#[trigger] init[k]).0 == i;
                        assert(list[k].0 == i);
                    } else if exists|k: int| 0 <= k < list.len() && (#[trigger] list[k]).0 == i {
                        let k = choose|k: int| 0 <= k < list.len() && (#[trigger] list[k]).0 == i;
                        assert(init[k].0 == i);
                    }
                }
            }
        }
    }

    /// A connection stays well-formed when its settings have been accepted and
    /// the receive windows have moved.
    proof fn accepted_wf(self, next: ConView, list: Seq<StreamRef>, upd: int)
        requires
            self.wf(),
            self.slots.len() <= usize::MAX,
            upd == self.state.config.window_sz - 65_535,
            !self.state.flags.settings_processed,
            next.state == (ConnectionState {
                flags: ConnectionFlags { settings_processed: true, ..self.state.flags },
                ..self.state
            }),
            next.codec.wf(),
            next.codec.encoder_max_frame_size == self.codec.encoder_max_frame_size,
            next.pending == self.pending,
            next.streams == self.streams,
            next.free == self.free,
            next.slots.len() == self.slots.len(),
            forall|i: int|
                0 <= i < self.slots.len() ==> #[trigger] next.slots[i] == if exists|k: int|
                    0 <= k < list.len() && (#[trigger] list[k]).0 == i {
                    recv_moved(self.state.config, self.slots[i], upd)
                } else {
                    self.slots[i]
                },
        ensures
            next.wf(),
    {
        self.table_kept(next);
        assert forall|i: int| 0 <= i < next.slots.len() implies (#[trigger] next.slots[i]).wf(
            next.base(),
        ) by {
            assert(self.slots[i].wf(self.base()));
        }
    }
}

impl Connection {
    fn update_recv_windows(&mut self, list: &Vec<StreamRef>, upd: i32) -> (r: Vec<
        StreamErrorInner,
    >)
        requires
            ascending(list@, old(self)@.slots.len()),
            old(self)@.state.config.wf(),
            forall|k: int|
                #![trigger list@[k]]
                0 <= k < list@.len() ==> {
                    let st = old(self)@.slots[list@[k].0 as int];
                    &&& st.recv_size <= i32::MAX
                    &&& i32::MIN <= st.recv_window.window_size + upd
                    &&& old(self)@.state.config.window_sz - (st.recv_window.window_size + upd)
                        <= i32::MAX
                },
        ensures
            (final(self)@, r@) == old(self)@.recv_windows_moved(list@, upd as int),
            final(self)@.slots.len() == old(self)@.slots.len(),
            forall|k: int| 0 <= k < r@.len() ==> old(self)@.has((#[trigger] r@[k]).stream),
    {
        let mut errs: Vec<StreamErrorInner> = Vec::new();
        let mut i: usize = 0;
        assert(list@.take(0) =~= Seq::<StreamRef>::empty());
        while i < list.len()
            invariant
                i <= list@.len(),
                ascending(list@, old(self)@.slots.len()),
                old(self)@.state.config.wf(),
                forall|k: int|
                    #![trigger list@[k]]
                    0 <= k < list@.len() ==> {
                        let st = old(self)@.slots[list@[k].0 as int];
                        &&& st.recv_size <= i32::MAX
                        &&& i32::MIN <= st.recv_window.window_size + upd
                        &&& old(self)@.state.config.window_sz - (st.recv_window.window_size + upd)
                            <= i32::MAX
                    },
                (self@, errs@) == old(self)@.recv_windows_moved(list@.take(i as int), upd as int),
                self@.slots.len() == old(self)@.slots.len(),
                forall|k: int| 0 <= k < errs@.len() ==> old(self)@.has((#[trigger] errs@[k]).stream),
            decreases list@.len() - i,
        {
            let stream = list[i];
            proof {
                let done = list@.take(i as int);
                old(self)@.recv_windows_slots(done, upd as int);
                assert(forall|k: int| 0 <= k < done.len() ==> (#[trigger] done[k]).0 != stream.0);
                assert(self@.slots[stream.0 as int] == old(self)@.slots[stream.0 as int]);
            }
            match stream.update_recv_window(self, upd) {
                Ok(None) => {},
                Ok(Some(val)) => {
                    // send window size update to the peer
                    let id = stream.id(self);
                    self.encode(Frame::WindowUpdate(WindowUpdate::new(id, val)));
                },
                Err(kind) => {
                    errs.push(StreamErrorInner::new(stream, kind));
                },
            }
            assert(list@.take(i + 1).drop_last() =~= list@.take(i as int));
            i = i + 1;
        }
        assert(list@.take(i as int) =~= list@);
        errs
    }

    /// The peer has accepted the settings of this side.
    pub(crate) fn settings_acked(&mut self) -> (r: Vec<StreamErrorInner>)
        requires
            old(self)@.wf(),
            !old(self)@.state.flags.settings_processed,
        ensures
            final(self)@ == old(self)@.settings_acked().0,
            old(self)@.settings_acked().1 == if r@.len() > 0 {
                Err::<(), SettingsErrorView>(SettingsErrorView::Streams(r@))
            } else {
                Ok(())
            },
            final(self)@.wf(),
            forall|k: int| 0 <= k < r@.len() ==> final(self)@.has((#[trigger] r@[k]).stream),
    {
        let ghost before = self@;
        let list = self.stream_list();
        let len: usize = self.slots.len();
        proof {
            before.streams_listed(len as nat);
        }
        self.state.flags.settings_processed = true;
        if let Some(max) = self.state.config.settings.max_frame_size() {
            self.codec.set_recv_frame_size(max as usize);
        }
        let upd: i32 = (self.state.config.window_sz as i32) - (
        frame::DEFAULT_INITIAL_WINDOW_SIZE as i32);
        let ghost start = self@;
        assert forall|k: int| #![trigger list@[k]] 0 <= k < list@.len() implies ({
            let st = start.slots[list@[k].0 as int];
            &&& st.recv_size <= i32::MAX
            &&& i32::MIN <= st.recv_window.window_size + upd
            &&& start.state.config.window_sz - (st.recv_window.window_size + upd) <= i32::MAX
        }) by {
            assert(before.slots[list@[k].0 as int].wf(before.base()));
        }
        let errs = self.update_recv_windows(&list, upd);
        proof {
            start.recv_windows_slots(list@, upd as int);
            before.accepted_wf(self@, list@, upd as int);
        }
        errs
    }
}

// ===== Laws =====

/// The send window of every open stream moves with the initial window size of the
/// peer, by the difference between the new size and the old one. It can become
/// negative that way. Only where it would be too large it stays as it is.
pub proof fn windows_follow_settings(con: ConView, val: u32, s: StreamRef)
    requires
        con.wf(),
        con.slots.len() <= usize::MAX,
        con.has(s),
        con.registered(s.0 as int),
        val <= i32::MAX,
    ensures
        ({
            let upd = val - con.state.remote_window_sz;
            let next = con.with_state(
                ConnectionState { remote_window_sz: val, ..con.state },
            ).send_windows_moved(con.all_streams(), upd).0;
            let before = con.slot(s).send_window.window_size;
            let after = next.slot(s).send_window.window_size;
            after == if before + upd > i32::MAX {
                before as int
            } else {
                before + upd
            }
        }),
{
    let upd = val - con.state.remote_window_sz;
    let start = con.with_state(ConnectionState { remote_window_sz: val, ..con.state });
    let list = con.all_streams();
    con.streams_listed(con.slots.len());
    start.send_windows_slots(list, upd);
    assert(list.contains(StreamRef(s.0)));
    let k = choose|k: int| 0 <= k < list.len() && list[k] == StreamRef(s.0);
    assert(list[k].0 == s.0);
    assert(con.entry_wf(con.slots[s.0 as int].id.0));
    assert(start.send_windows_moved(list, upd).0.slots[s.0 as int] == send_moved(
        start.slots[s.0 as int],
        upd,
    ));
}

} // verus!
