//! Deadlines of streams that wait for send capacity.
//!
//! The timer runs in steps of one second, and only while a deadline lies ahead.
use vstd::prelude::*;

verus! {

/// A key of a stream, and the second at which its time is over.
pub type Deadline = (u64, u32);

/// Deadlines of streams.
#[derive(Debug)]
pub struct Timer {
    pub running: bool,
    /// The current second, counted from a fixed point in time.
    pub current: u32,
    /// The last second that the timer has to run to.
    pub until: u32,
    pub deadlines: Vec<Deadline>,
}

#[verifier::ext_equal]
pub struct TimerView {
    pub running: bool,
    pub current: u32,
    pub until: u32,
    pub deadlines: Seq<Deadline>,
}

impl View for Timer {
    type V = TimerView;

    open spec fn view(&self) -> TimerView {
        TimerView {
            running: self.running,
            current: self.current,
            until: self.until,
            deadlines: self.deadlines@,
        }
    }
}

/// The deadlines of all streams but one.
pub open spec fn without(deadlines: Seq<Deadline>, key: u64) -> Seq<Deadline>
    decreases deadlines.len(),
{
    if deadlines.len() == 0 {
        Seq::empty()
    } else {
        let rest = without(deadlines.drop_last(), key);
        if deadlines.last().0 == key {
            rest
        } else {
            rest.push(deadlines.last())
        }
    }
}

/// The streams whose time is over.
pub open spec fn due(deadlines: Seq<Deadline>, current: u32) -> Seq<u64>
    decreases deadlines.len(),
{
    if deadlines.len() == 0 {
        Seq::empty()
    } else {
        let rest = due(deadlines.drop_last(), current);
        if deadlines.last().1 <= current {
            rest.push(deadlines.last().0)
        } else {
            rest
        }
    }
}

/// The deadlines that lie ahead.
pub open spec fn ahead(deadlines: Seq<Deadline>, current: u32) -> Seq<Deadline>
    decreases deadlines.len(),
{
    if deadlines.len() == 0 {
        Seq::empty()
    } else {
        let rest = ahead(deadlines.drop_last(), current);
        if deadlines.last().1 <= current {
            rest
        } else {
            rest.push(deadlines.last())
        }
    }
}

impl TimerView {
    pub open spec fn wf(self) -> bool {
        &&& forall|i: int|
            0 <= i < self.deadlines.len() ==> self.current <= (#[trigger] self.deadlines[i]).1
                <= self.until
        &&& forall|i: int, j: int|
            0 <= i < j < self.deadlines.len() ==> (#[trigger] self.deadlines[i]).0 != (
            #[trigger] self.deadlines[j]).0
        &&& self.deadlines.len() > 0 ==> self.running
    }

    /// A stream has a new deadline. While the timer does not run, it does not know
    /// the current second.
    pub open spec fn register(self, key: u64, timeout: u16, now: u32) -> TimerView {
        let current = if self.running {
            self.current
        } else {
            now
        };
        let deadline = (current + timeout) as u32;
        TimerView {
            running: true,
            current,
            until: if self.running && self.until > deadline {
                self.until
            } else {
                deadline
            },
            deadlines: without(self.deadlines, key).push((key, deadline)),
        }
    }

    pub open spec fn unregister(self, key: u64) -> TimerView {
        TimerView { deadlines: without(self.deadlines, key), ..self }
    }

    /// One second has passed. The timer goes on as long as there was a deadline
    /// ahead, even if its stream does not wait any more.
    pub open spec fn tick(self) -> TimerView {
        TimerView {
            running: self.until > self.current,
            current: (self.current + 1) as u32,
            until: self.until,
            deadlines: ahead(self.deadlines, self.current),
        }
    }
}

proof fn without_facts(s: Seq<Deadline>, key: u64)
    ensures
        without(s, key).len() <= s.len(),
        forall|i: int|
            0 <= i < without(s, key).len() ==> s.contains(#[trigger] without(s, key)[i]) && without(
                s,
                key,
            )[i].0 != key,
        (forall|i: int, j: int|
            0 <= i < j < s.len() ==> (#[trigger] s[i]).0 != (#[trigger] s[j]).0) ==> (forall|
            i: int,
            j: int,
        |
            0 <= i < j < without(s, key).len() ==> (#[trigger] without(s, key)[i]).0 != (
            #[trigger] without(s, key)[j]).0),
    decreases s.len(),
{
    if s.len() > 0 {
        let init = s.drop_last();
        without_facts(init, key);
        let prev = without(init, key);
        let next = without(s, key);
        assert forall|i: int| 0 <= i < next.len() implies s.contains(#[trigger] next[i])
            && next[i].0 != key by {
            if i < prev.len() {
                assert(init.contains(prev[i]));
                let k = choose|k: int| 0 <= k < init.len() && init[k] == prev[i];
                assert(s[k] == next[i]);
            } else {
                assert(s[s.len() - 1] == next[i]);
            }
        }
        if forall|i: int, j: int|
            0 <= i < j < s.len() ==> (#[trigger] s[i]).0 != (#[trigger] s[j]).0 {
            assert forall|i: int, j: int| 0 <= i < j < init.len() implies (#[trigger] init[i]).0
                != (#[trigger] init[j]).0 by {
                assert(s[i].0 != s[j].0);
            }
            assert forall|i: int, j: int| 0 <= i < j < next.len() implies (#[trigger] next[i]).0
                != (#[trigger] next[j]).0 by {
                if j < prev.len() {
                    assert(prev[i].0 != prev[j].0);
                } else {
                    assert(init.contains(prev[i]));
                    let k = choose|k: int| 0 <= k < init.len() && init[k] == prev[i];
                    assert(s[k].0 != s[s.len() - 1].0);
                }
            }
        }
    }
}

proof fn ahead_facts(s: Seq<Deadline>, current: u32)
    ensures
        forall|i: int|
            0 <= i < ahead(s, current).len() ==> s.contains(#[trigger] ahead(s, current)[i])
                && ahead(s, current)[i].1 > current,
        (forall|i: int, j: int|
            0 <= i < j < s.len() ==> (#[trigger] s[i]).0 != (#[trigger] s[j]).0) ==> (forall|
            i: int,
            j: int,
        |
            0 <= i < j < ahead(s, current).len() ==> (#[trigger] ahead(s, current)[i]).0 != (
            #[trigger] ahead(s, current)[j]).0),
    decreases s.len(),
{
    if s.len() > 0 {
        let init = s.drop_last();
        ahead_facts(init, current);
        let prev = ahead(init, current);
        let next = ahead(s, current);
        assert forall|i: int| 0 <= i < next.len() implies s.contains(#[trigger] next[i])
            && next[i].1 > current by {
            if i < prev.len() {
                assert(init.contains(prev[i]));
                let k = choose|k: int| 0 <= k < init.len() && init[k] == prev[i];
                assert(s[k] == next[i]);
            } else {
                assert(s[s.len() - 1] == next[i]);
            }
        }
        if forall|i: int, j: int|
            0 <= i < j < s.len() ==> (#[trigger] s[i]).0 != (#[trigger] s[j]).0 {
            assert forall|i: int, j: int| 0 <= i < j < init.len() implies (#[trigger] init[i]).0
                != (#[trigger] init[j]).0 by {
                assert(s[i].0 != s[j].0);
            }
            assert forall|i: int, j: int| 0 <= i < j < next.len() implies (#[trigger] next[i]).0
                != (#[trigger] next[j]).0 by {
                if j < prev.len() {
                    assert(prev[i].0 != prev[j].0);
                } else {
                    assert(init.contains(prev[i]));
                    let k = choose|k: int| 0 <= k < init.len() && init[k] == prev[i];
                    assert(s[k].0 != s[s.len() - 1].0);
                }
            }
        }
    }
}

impl Timer {
    pub fn new() -> (r: Timer)
        ensures
            r@ == (TimerView { running: false, current: 0, until: 0, deadlines: Seq::empty() }),
            r@.wf(),
    {
        Timer { running: false, current: 0, until: 0, deadlines: Vec::new() }
    }

    fn forget(&mut self, key: u64)
        requires
            old(self)@.wf(),
        ensures
            final(self)@ == old(self)@.unregister(key),
            final(self)@.wf(),
    {
        let mut rest: Vec<Deadline> = Vec::new();
        let mut i: usize = 0;
        assert(self.deadlines@.take(0) =~= Seq::<Deadline>::empty());
        while i < self.deadlines.len()
            invariant
                i <= self.deadlines@.len(),
                rest@ == without(self.deadlines@.take(i as int), key),
            decreases self.deadlines@.len() - i,
        {
            assert(self.deadlines@.take(i + 1).drop_last() =~= self.deadlines@.take(i as int));
            let item = self.deadlines[i];
            if item.0 != key {
                rest.push(item);
            }
            i = i + 1;
        }
        assert(self.deadlines@.take(i as int) =~= self.deadlines@);
        proof {
            without_facts(self.deadlines@, key);
            assert forall|k: int| 0 <= k < rest@.len() implies self@.current <= (
            #[trigger] rest@[k]).1 <= self@.until by {
                assert(self.deadlines@.contains(rest@[k]));
            }
        }
        self.deadlines = rest;
    }

    /// Takes the deadline of a stream off.
    pub fn unregister(&mut self, key: u64)
        requires
            old(self)@.wf(),
        ensures
            final(self)@ == old(self)@.unregister(key),
            final(self)@.wf(),
    {
        self.forget(key);
    }

    /// Gives a stream `timeout` seconds from now, in place of the deadline that it
    /// has. `now` is the current second.
    ///
    /// Returns whether the timer has to be started.
    pub fn register(&mut self, key: u64, timeout: u16, now: u32) -> (r: bool)
        requires
            old(self)@.wf(),
            (if old(self)@.running {
                old(self)@.current
            } else {
                now
            }) + timeout <= u32::MAX,
        ensures
            final(self)@ == old(self)@.register(key, timeout, now),
            final(self)@.wf(),
            r == !old(self)@.running,
    {
        let start = !self.running;
        self.forget(key);
        proof {
            without_facts(old(self)@.deadlines, key);
        }
        // setup current delta
        if start {
            self.current = now;
        }
        let deadline: u32 = self.current + timeout as u32;
        if start || self.until <= deadline {
            self.until = deadline;
        }
        let ghost before = self.deadlines@;
        self.deadlines.push((key, deadline));
        self.running = true;
        assert(self@.wf()) by {
            assert forall|i: int, j: int| 0 <= i < j < self@.deadlines.len() implies (
            #[trigger] self@.deadlines[i]).0 != (#[trigger] self@.deadlines[j]).0 by {
                if j < before.len() {
                    assert(before[i].0 != before[j].0);
                } else {
                    assert(before[i].0 != key);
                }
            }
            assert forall|i: int| 0 <= i < self@.deadlines.len() implies self@.current <= (
            #[trigger] self@.deadlines[i]).1 <= self@.until by {
                if i < before.len() {
                    assert(old(self)@.current <= before[i].1 <= old(self)@.until) by {
                        assert(old(self)@.deadlines.contains(before[i]));
                    }
                }
            }
        }
        start
    }

    /// One second has passed: returns the streams whose time is over.
    pub fn tick(&mut self) -> (r: Vec<u64>)
        requires
            old(self)@.wf(),
            old(self)@.current < u32::MAX,
        ensures
            r@ == due(old(self)@.deadlines, old(self)@.current),
            final(self)@ == old(self)@.tick(),
            final(self)@.wf(),
    {
        let current: u32 = self.current;
        let mut keys: Vec<u64> = Vec::new();
        let mut rest: Vec<Deadline> = Vec::new();
        let mut i: usize = 0;
        assert(self.deadlines@.take(0) =~= Seq::<Deadline>::empty());
        while i < self.deadlines.len()
            invariant
                i <= self.deadlines@.len(),
                keys@ == due(self.deadlines@.take(i as int), current),
                rest@ == ahead(self.deadlines@.take(i as int), current),
            decreases self.deadlines@.len() - i,
        {
            assert(self.deadlines@.take(i + 1).drop_last() =~= self.deadlines@.take(i as int));
            let item = self.deadlines[i];
            if item.1 <= current {
                keys.push(item.0);
            } else {
                rest.push(item);
            }
            i = i + 1;
        }
        assert(self.deadlines@.take(i as int) =~= self.deadlines@);
        proof {
            ahead_facts(self.deadlines@, current);
            assert forall|k: int| 0 <= k < rest@.len() implies current + 1 <= (
            #[trigger] rest@[k]).1 <= self@.until by {
                assert(self.deadlines@.contains(rest@[k]));
            }
            if rest@.len() > 0 {
                assert(rest@[0].1 <= self@.until);
            }
        }
        self.deadlines = rest;
        self.current = current + 1;
        self.running = self.until > current;
        keys
    }

    /// Stops the timer. No deadline is kept.
    pub fn stop(&mut self)
        ensures
            final(self)@ == (TimerView {
                running: false,
                deadlines: Seq::empty(),
                ..old(self)@
            }),
            final(self)@.wf(),
    {
        self.running = false;
        self.deadlines = Vec::new();
    }
}

// ===== Laws =====

proof fn due_are_due(s: Seq<Deadline>, current: u32, key: u64)
    ensures
        due(s, current).contains(key) <==> exists|i: int|
            0 <= i < s.len() && (#[trigger] s[i]).0 == key && s[i].1 <= current,
    decreases s.len(),
{
    if s.len() > 0 {
        let init = s.drop_last();
        due_are_due(init, current, key);
        let prev = due(init, current);
        let next = due(s, current);
        if next.contains(key) {
            let k = choose|k: int| 0 <= k < next.len() && next[k] == key;
            if k < prev.len() {
                assert(prev[k] == key);
                let i = choose|i: int|
                    0 <= i < init.len() && (#[trigger] init[i]).0 == key && init[i].1 <= current;
                assert(s[i].0 == key && s[i].1 <= current);
            } else {
                assert(s[s.len() - 1].0 == key);
            }
        }
        if exists|i: int| 0 <= i < s.len() && (#[trigger] s[i]).0 == key && s[i].1 <= current {
            let i = choose|i: int|
                0 <= i < s.len() && (#[trigger] s[i]).0 == key && s[i].1 <= current;
            if i < init.len() {
                assert(init[i].0 == key && init[i].1 <= current);
                let k = choose|k: int| 0 <= k < prev.len() && prev[k] == key;
                assert(next[k] == key);
            } else {
                assert(next[next.len() - 1] == key);
            }
        }
    }
}

/// A stream times out with the second that its deadline names, and not before:
/// when a second passes, exactly the streams whose deadline it is are reported.
pub proof fn due_on_time(timer: TimerView, key: u64)
    requires
        timer.wf(),
    ensures
        due(timer.deadlines, timer.current).contains(key) <==> timer.deadlines.contains(
            (key, timer.current),
        ),
{
    due_are_due(timer.deadlines, timer.current, key);
    if due(timer.deadlines, timer.current).contains(key) {
        let i = choose|i: int|
            0 <= i < timer.deadlines.len() && (#[trigger] timer.deadlines[i]).0 == key
                && timer.deadlines[i].1 <= timer.current;
        assert(timer.deadlines[i] == (key, timer.current));
    }
    if timer.deadlines.contains((key, timer.current)) {
        let i = choose|i: int|
            0 <= i < timer.deadlines.len() && timer.deadlines[i] == (key, timer.current);
        assert(timer.deadlines[i].0 == key && timer.deadlines[i].1 <= timer.current);
    }
}

/// A stream whose deadline was taken off does not time out.
pub proof fn unregistered_not_due(timer: TimerView, key: u64)
    requires
        timer.wf(),
    ensures
        !due(timer.unregister(key).deadlines, timer.current).contains(key),
{
    let rest = timer.unregister(key).deadlines;
    without_facts(timer.deadlines, key);
    due_are_due(rest, timer.current, key);
}

/// A timer after some ticks.
pub open spec fn ticked(timer: TimerView, n: nat) -> TimerView
    decreases n,
{
    if n == 0 {
        timer
    } else {
        ticked(timer, (n - 1) as nat).tick()
    }
}

/// The deadline of a key, and no other one of it, is in a list.
spec fn only_deadline(deadlines: Seq<Deadline>, key: u64, deadline: u32) -> bool {
    &&& deadlines.contains((key, deadline))
    &&& forall|i: int|
        0 <= i < deadlines.len() && (#[trigger] deadlines[i]).0 == key ==> deadlines[i].1
            == deadline
}

proof fn ahead_keeps(s: Seq<Deadline>, current: u32, key: u64, deadline: u32)
    requires
        deadline > current,
        forall|i: int|
            0 <= i < s.len() && (#[trigger] s[i]).0 == key ==> s[i].1 == deadline,
    ensures
        s.contains((key, deadline)) ==> ahead(s, current).contains((key, deadline)),
        forall|i: int|
            0 <= i < ahead(s, current).len() && (#[trigger] ahead(s, current)[i]).0 == key
                ==> ahead(s, current)[i].1 == deadline,
    decreases s.len(),
{
    if s.len() > 0 {
        let init = s.drop_last();
        let last = s.len() - 1;
        assert forall|i: int| 0 <= i < init.len() && (#[trigger] init[i]).0 == key implies init[i].1
            == deadline by {
            assert(init[i] == s[i]);
        }
        ahead_keeps(init, current, key, deadline);
        let prev = ahead(init, current);
        let next = ahead(s, current);
        if s.contains((key, deadline)) {
            let i = choose|i: int| 0 <= i < s.len() && s[i] == (key, deadline);
            if i < last {
                assert(init[i] == (key, deadline));
                let k = choose|k: int| 0 <= k < prev.len() && prev[k] == (key, deadline);
                assert(next[k] == (key, deadline));
            } else {
                assert(next[next.len() - 1] == (key, deadline));
            }
        }
        assert forall|i: int| 0 <= i < next.len() && (#[trigger] next[i]).0 == key implies next[i].1
            == deadline by {
            if i < prev.len() {
                assert(next[i] == prev[i]);
            } else {
                assert(next[i] == s[last]);
            }
        }
    }
}

proof fn deadline_kept(timer: TimerView, key: u64, timeout: u16, now: u32, n: nat)
    requires
        n <= timeout,
        (if timer.running {
            timer.current
        } else {
            now
        }) + timeout < u32::MAX,
    ensures
        ({
            let start = timer.register(key, timeout, now);
            let next = ticked(start, n);
            &&& next.current == start.current + n
            &&& only_deadline(next.deadlines, key, (start.current + timeout) as u32)
        }),
    decreases n,
{
    let start = timer.register(key, timeout, now);
    let deadline = (start.current + timeout) as u32;
    if n == 0 {
        without_facts(timer.deadlines, key);
        let rest = without(timer.deadlines, key);
        assert(start.deadlines[rest.len() as int] == (key, deadline));
        assert forall|i: int|
            0 <= i < start.deadlines.len() && (#[trigger] start.deadlines[i]).0 == key implies start.deadlines[i].1
            == deadline by {
            if i < rest.len() {
                assert(start.deadlines[i] == rest[i]);
            }
        }
    } else {
        deadline_kept(timer, key, timeout, now, (n - 1) as nat);
        let prev = ticked(start, (n - 1) as nat);
        ahead_keeps(prev.deadlines, prev.current, key, deadline);
    }
}

/// A stream with a timeout is due when as many ticks have passed, and not before. What it
/// had registered earlier does not count.
pub proof fn due_after_timeout(timer: TimerView, key: u64, timeout: u16, now: u32, n: nat)
    requires
        n <= timeout,
        (if timer.running {
            timer.current
        } else {
            now
        }) + timeout < u32::MAX,
    ensures
        ({
            let next = ticked(timer.register(key, timeout, now), n);
            due(next.deadlines, next.current).contains(key) <==> n == timeout
        }),
{
    deadline_kept(timer, key, timeout, now, n);
    let start = timer.register(key, timeout, now);
    let next = ticked(start, n);
    let deadline = (start.current + timeout) as u32;
    due_are_due(next.deadlines, next.current, key);
    if n == timeout {
        let i = choose|i: int|
            0 <= i < next.deadlines.len() && next.deadlines[i] == (key, deadline);
        assert(next.deadlines[i].0 == key && next.deadlines[i].1 <= next.current);
    }
}

} // verus!
