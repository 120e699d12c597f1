use std::collections::HashSet;

use vstd::prelude::*;

verus! {

broadcast use vstd::std_specs::hash::group_hash_axioms;

/// Streams that have been closed a short while ago.
///
/// Frames that were already on their way to such a stream are not an error.
pub struct Pending {
    ids: HashSet<u32>,
    /// Ids with the time at which they came, in milliseconds, oldest first.
    queue: Vec<(u32, u64)>,
}

#[verifier::ext_equal]
pub struct PendingView {
    pub ids: Set<u32>,
    pub queue: Seq<(u32, u64)>,
}

impl View for Pending {
    type V = PendingView;

    closed spec fn view(&self) -> PendingView {
        PendingView { ids: self.ids@, queue: self.queue@ }
    }
}

impl PendingView {
    pub open spec fn empty() -> PendingView {
        PendingView { ids: Set::empty(), queue: Seq::empty() }
    }

    /// Every id has its place in the queue.
    pub open spec fn wf(self) -> bool {
        forall|id: u32| self.ids.contains(id) ==> exists|k: int|
            0 <= k < self.queue.len() && (#[trigger] self.queue[k]).0 == id
    }

    /// Without the oldest id.
    pub open spec fn pop(self) -> PendingView {
        PendingView { ids: self.ids.remove(self.queue[0].0), queue: self.queue.skip(1) }
    }

    /// Without the ids at the front that are older than `max_age`.
    pub open spec fn purge(self, now: int, max_age: int) -> PendingView
        decreases self.queue.len(),
    {
        if self.queue.len() > 0 && self.queue[0].1 + max_age < now {
            self.pop().purge(now, max_age)
        } else {
            self
        }
    }

    /// Without the oldest ids, so that less than `max` are left.
    pub open spec fn shrink(self, max: nat) -> PendingView
        decreases self.queue.len(),
    {
        if self.queue.len() > 0 && self.queue.len() >= max {
            self.pop().shrink(max)
        } else {
            self
        }
    }

    /// With one more id, after the old ones and those over the limit have left.
    pub open spec fn add(self, id: u32, now: u64, max_age: int, max: nat) -> PendingView {
        let kept = self.purge(now as int, max_age).shrink(max);
        PendingView { ids: kept.ids.insert(id), queue: kept.queue.push((id, now)) }
    }

    /// The place of an id in the queue, the first of them.
    pub open spec fn place(self, id: u32, from: int) -> int
        decreases self.queue.len() - from,
    {
        if from < 0 || from >= self.queue.len() || self.queue[from].0 == id {
            from
        } else {
            self.place(id, from + 1)
        }
    }

    /// Without an id.
    pub open spec fn remove(self, id: u32) -> PendingView {
        if self.ids.contains(id) {
            let k = self.place(id, 0);
            PendingView {
                ids: self.ids.remove(id),
                queue: if k < self.queue.len() {
                    self.queue.remove(k)
                } else {
                    self.queue
                },
            }
        } else {
            self
        }
    }

    pub proof fn pop_wf(self)
        requires
            self.wf(),
            self.queue.len() > 0,
        ensures
            self.pop().wf(),
    {
        assert forall|id: u32| self.pop().ids.contains(id) implies exists|k: int|
            0 <= k < self.pop().queue.len() && (#[trigger] self.pop().queue[k]).0 == id by {
            let k = choose|k: int| 0 <= k < self.queue.len() && (#[trigger] self.queue[k]).0 == id;
            assert(self.pop().queue[k - 1].0 == id);
        }
    }

    pub proof fn purge_wf(self, now: int, max_age: int)
        requires
            self.wf(),
        ensures
            self.purge(now, max_age).wf(),
        decreases self.queue.len(),
    {
        if self.queue.len() > 0 && self.queue[0].1 + max_age < now {
            self.pop_wf();
            self.pop().purge_wf(now, max_age);
        }
    }

    /// The ids stand in the order in which they came.
    pub open spec fn ordered(self) -> bool {
        forall|i: int, j: int|
            0 <= i <= j < self.queue.len() ==> (#[trigger] self.queue[i]).1 <= (
            #[trigger] self.queue[j]).1
    }

    /// An id that is older than `max_age` is not known any more.
    pub proof fn purge_forgets(self, now: int, max_age: int, id: u32)
        requires
            self.wf(),
            self.ordered(),
            forall|k: int|
                0 <= k < self.queue.len() && (#[trigger] self.queue[k]).0 == id
                    ==> self.queue[k].1 + max_age < now,
        ensures
            !self.purge(now, max_age).ids.contains(id),
        decreases self.queue.len(),
    {
        if self.queue.len() > 0 && self.queue[0].1 + max_age < now {
            let next = self.pop();
            self.pop_wf();
            assert forall|i: int, j: int| 0 <= i <= j < next.queue.len() implies (
            #[trigger] next.queue[i]).1 <= (#[trigger] next.queue[j]).1 by {
                assert(next.queue[i] == self.queue[i + 1] && next.queue[j] == self.queue[j + 1]);
            }
            assert forall|k: int|
                0 <= k < next.queue.len() && (#[trigger] next.queue[k]).0
                    == id implies next.queue[k].1 + max_age < now by {
                assert(next.queue[k] == self.queue[k + 1]);
            }
            next.purge_forgets(now, max_age, id);
        } else if self.ids.contains(id) {
            let k = choose|k: int| 0 <= k < self.queue.len() && (#[trigger] self.queue[k]).0 == id;
            assert(self.queue[0].1 <= self.queue[k].1);
        }
    }

    pub proof fn shrink_wf(self, max: nat)
        requires
            self.wf(),
        ensures
            self.shrink(max).wf(),
            max > 0 ==> self.shrink(max).queue.len() < max,
        decreases self.queue.len(),
    {
        if self.queue.len() > 0 && self.queue.len() >= max {
            self.pop_wf();
            self.pop().shrink_wf(max);
        }
    }

    /// An id that was just added is known, no more ids than the limit are kept,
    /// and each id that is known has its place in the queue.
    pub proof fn add_keeps_limit(self, id: u32, now: u64, max_age: int, max: nat)
        requires
            self.wf(),
            max > 0,
        ensures
            self.add(id, now, max_age, max).wf(),
            self.add(id, now, max_age, max).ids.contains(id),
            self.add(id, now, max_age, max).queue.len() <= max,
            self.add(id, now, max_age, max).queue.last() == (id, now),
    {
        self.purge_wf(now as int, max_age);
        let purged = self.purge(now as int, max_age);
        purged.shrink_wf(max);
        let kept = purged.shrink(max);
        let added = self.add(id, now, max_age, max);
        assert forall|i: u32| added.ids.contains(i) implies exists|k: int|
            0 <= k < added.queue.len() && (#[trigger] added.queue[k]).0 == i by {
            if i == id {
                assert(added.queue[added.queue.len() - 1].0 == id);
            } else {
                let k = choose|k: int|
                    0 <= k < kept.queue.len() && (#[trigger] kept.queue[k]).0 == i;
                assert(added.queue[k].0 == i);
            }
        }
    }

    pub proof fn place_found(self, id: u32, from: int)
        requires
            0 <= from <= self.queue.len(),
        ensures
            from <= self.place(id, from) <= self.queue.len(),
            self.place(id, from) < self.queue.len() ==> self.queue[self.place(id, from)].0 == id,
            forall|k: int| from <= k < self.place(id, from) ==> (#[trigger] self.queue[k]).0 != id,
        decreases self.queue.len() - from,
    {
        if from < self.queue.len() && self.queue[from].0 != id {
            self.place_found(id, from + 1);
        }
    }

    /// An id that was removed is not known any more, and the others are.
    pub proof fn remove_forgets(self, id: u32)
        requires
            self.wf(),
        ensures
            self.remove(id).wf(),
            self.remove(id).ids == self.ids.remove(id),
    {
        let r = self.remove(id);
        if self.ids.contains(id) {
            self.place_found(id, 0);
            let p = self.place(id, 0);
            assert forall|i: u32| r.ids.contains(i) implies exists|k: int|
                0 <= k < r.queue.len() && (#[trigger] r.queue[k]).0 == i by {
                let k = choose|k: int|
                    0 <= k < self.queue.len() && (#[trigger] self.queue[k]).0 == i;
                if p >= self.queue.len() || k < p {
                    assert(r.queue[k].0 == i);
                } else {
                    assert(r.queue[k - 1].0 == i);
                }
            }
        } else {
            assert(r.ids =~= self.ids.remove(id));
        }
    }
}

impl Pending {
    pub fn new() -> (r: Pending)
        ensures
            r@ == PendingView::empty(),
            r@.wf(),
    {
        let r = Pending { ids: HashSet::new(), queue: Vec::new() };
        assert(r@ =~= PendingView::empty());
        r
    }

    /// Forgets the oldest id.
    fn pop(&mut self)
        requires
            old(self)@.queue.len() > 0,
        ensures
            final(self)@ == old(self)@.pop(),
    {
        let item = self.queue.remove(0);
        self.ids.remove(&item.0);
        assert(self.queue@ =~= old(self)@.queue.skip(1));
    }

    /// Forgets the ids that came more than `max_age` milliseconds ago.
    pub fn purge(&mut self, now: u64, max_age: u64)
        requires
            old(self)@.wf(),
        ensures
            final(self)@ == old(self)@.purge(now as int, max_age as int),
            final(self)@.wf(),
    {
        while self.queue.len() > 0 && now > self.queue[0].1 && now - self.queue[0].1 > max_age
            invariant
                self@.purge(now as int, max_age as int) == old(self)@.purge(
                    now as int,
                    max_age as int,
                ),
            ensures
                self@ == old(self)@.purge(now as int, max_age as int),
            decreases self.queue.len(),
        {
            self.pop();
        }
        proof {
            old(self)@.purge_wf(now as int, max_age as int);
        }
    }

    /// Remembers an id from `now` on.
    ///
    /// Ids that came more than `max_age` milliseconds ago leave first, and the
    /// oldest of the others where there are `max` of them.
    pub fn add(&mut self, id: u32, now: u64, max_age: u64, max: usize)
        requires
            old(self)@.wf(),
            max > 0,
        ensures
            final(self)@ == old(self)@.add(id, now, max_age as int, max as nat),
            final(self)@.wf(),
    {
        // remove old ids
        self.purge(now, max_age);
        // shrink size of ids
        let ghost purged = self@;
        while self.queue.len() >= max
            invariant
                max > 0,
                self@.shrink(max as nat) == purged.shrink(max as nat),
            decreases self.queue.len(),
        {
            self.pop();
        }
        self.ids.insert(id);
        self.queue.push((id, now));
        proof {
            assert(self@ =~= old(self)@.add(id, now, max_age as int, max as nat));
            old(self)@.add_keeps_limit(id, now, max_age as int, max as nat);
        }
    }

    /// Forgets an id, and says whether it was known.
    pub fn remove(&mut self, id: u32) -> (r: bool)
        requires
            old(self)@.wf(),
        ensures
            final(self)@ == old(self)@.remove(id),
            final(self)@.wf(),
            r == old(self)@.ids.contains(id),
    {
        proof {
            old(self)@.remove_forgets(id);
        }
        let removed = self.ids.remove(&id);
        if removed {
            let mut idx: usize = 0;
            while idx < self.queue.len() && self.queue[idx].0 != id
                invariant
                    idx <= self.queue.len(),
                    self.queue@ == old(self)@.queue,
                    old(self)@.place(id, 0) == old(self)@.place(id, idx as int),
                decreases self.queue.len() - idx,
            {
                idx = idx + 1;
            }
            if idx < self.queue.len() {
                self.queue.remove(idx);
            }
        } else {
            assert(self.ids@ =~= old(self)@.ids);
        }
        assert(self@ =~= old(self)@.remove(id));
        removed
    }

    /// Whether an id is known.
    pub fn is_pending(&self, id: u32) -> (r: bool)
        ensures
            r == self@.ids.contains(id),
    {
        self.ids.contains(&id)
    }
}

} // verus!
