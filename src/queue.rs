use vstd::prelude::*;

verus! {

/// Index of the first entry of `q` that is ready at `now`.
pub open spec fn first_ready<T>(q: Seq<(u64, T)>, now: u64) -> Option<int> {
    if exists|i: int| 0 <= i < q.len() && q[i].0 <= now && forall|j: int| 0 <= j < i ==> (#[trigger] q[j]).0 > now {
        Some(
            choose|i: int|
                0 <= i < q.len() && q[i].0 <= now && forall|j: int|
                    0 <= j < i ==> (#[trigger] q[j]).0 > now,
        )
    } else {
        None
    }
}

/// The bounded queue of work waiting for a worker. Each item carries the
/// time from which it may run, so that a retry waits in the queue rather than
/// in a worker.
pub struct WorkQueue<T> {
    capacity: usize,
    items: Vec<(u64, T)>,
}

impl<T> WorkQueue<T> {
    /// The waiting items with their ready times, oldest first.
    pub closed spec fn spec_items(&self) -> Seq<(u64, T)> {
        self.items@
    }

    pub closed spec fn spec_capacity(&self) -> nat {
        self.capacity as nat
    }

    pub open spec fn wf(&self) -> bool {
        self.spec_items().len() <= self.spec_capacity()
    }

    /// An empty queue that holds at most `capacity` items.
    pub fn new(capacity: usize) -> (r: Self)
        ensures
            r.wf(),
            r.spec_capacity() == capacity,
            r.spec_items() == Seq::<(u64, T)>::empty(),
    {
        WorkQueue { capacity, items: Vec::new() }
    }

    pub fn len(&self) -> (r: usize)
        ensures
            r == self.spec_items().len(),
    {
        self.items.len()
    }

    /// Appends `item`, ready from `ready_at`. A full queue refuses it and
    /// hands it back: the producer must wait.
    pub fn push(&mut self, item: T, ready_at: u64) -> (r: Option<T>)
        requires
            old(self).wf(),
        ensures
            final(self).wf(),
            final(self).spec_capacity() == old(self).spec_capacity(),
            old(self).spec_items().len() < old(self).spec_capacity() ==> r is None
                && final(self).spec_items() == old(self).spec_items().push((ready_at, item)),
            old(self).spec_items().len() >= old(self).spec_capacity() ==> r == Some(item)
                && final(self).spec_items() == old(self).spec_items(),
    {
        if self.items.len() < self.capacity {
            self.items.push((ready_at, item));
            None
        } else {
            Some(item)
        }
    }

    /// Takes out the oldest item that is ready at `now`, if any.
    pub fn pop_ready(&mut self, now: u64) -> (r: Option<T>)
        requires
            old(self).wf(),
        ensures
            final(self).wf(),
            final(self).spec_capacity() == old(self).spec_capacity(),
            match first_ready(old(self).spec_items(), now) {
                Some(i) => r == Some(old(self).spec_items()[i].1) && final(self).spec_items()
                    == old(self).spec_items().remove(i),
                None => r is None && final(self).spec_items() == old(self).spec_items(),
            },
    {
        let mut i: usize = 0;
        while i < self.items.len()
            invariant
                i <= self.items.len(),
                self.items@ == old(self).items@,
                self.capacity == old(self).capacity,
                old(self).wf(),
                forall|j: int| 0 <= j < i ==> (#[trigger] self.items@[j]).0 > now,
            decreases self.items.len() - i,
        {
            if self.items[i].0 <= now {
                proof {
                    let q = self.items@;
                    let c = choose|c: int|
                        0 <= c < q.len() && q[c].0 <= now && forall|j: int|
                            0 <= j < c ==> (#[trigger] q[j]).0 > now;
                    assert(0 <= i < q.len() && q[i as int].0 <= now && forall|j: int|
                        0 <= j < i ==> (#[trigger] q[j]).0 > now);
                    if c < i {
                        assert(q[c].0 > now);
                    }
                    if c > i {
                        assert(q[i as int].0 > now);
                    }
                }
                let (_, item) = self.items.remove(i);
                return Some(item);
            }
            i = i + 1;
        }
        None
    }

    /// The earliest ready time among the waiting items.
    pub fn next_ready_at(&self) -> (r: Option<u64>)
        ensures
            self.spec_items().len() == 0 <==> r is None,
            r is Some ==> (exists|i: int|
                0 <= i < self.spec_items().len() && self.spec_items()[i].0 == r->Some_0) && forall|
                i: int,
            | 0 <= i < self.spec_items().len() ==> r->Some_0 <= (#[trigger] self.spec_items()[i]).0,
    {
        if self.items.len() == 0 {
            return None;
        }
        let mut best: u64 = self.items[0].0;
        let mut i: usize = 1;
        while i < self.items.len()
            invariant
                1 <= i <= self.items.len(),
                exists|k: int| 0 <= k < i && self.items@[k].0 == best,
                forall|k: int| 0 <= k < i ==> best <= (#[trigger] self.items@[k]).0,
            decreases self.items.len() - i,
        {
            if self.items[i].0 < best {
                best = self.items[i].0;
            }
            i = i + 1;
        }
        Some(best)
    }
}

} // verus!
