use vstd::prelude::*;

verus! {

/// `c` is the commit point of `resolved`: every event before it is resolved
/// and the event at it, if delivered, is not.
pub open spec fn is_commit_point(resolved: Seq<bool>, c: nat) -> bool {
    &&& c <= resolved.len()
    &&& forall|i: int| 0 <= i < c ==> #[trigger] resolved[i]
    &&& c < resolved.len() ==> !resolved[c as int]
}

/// Acknowledgement discipline of one partition. Events are delivered with
/// consecutive offsets from `start`; each is marked resolved once the
/// dispatcher reports a terminal outcome for it. The offset that may be
/// committed never passes an unresolved event.
pub struct AckCursor {
    start: u64,
    resolved: Vec<bool>,
    committed: usize,
}

impl AckCursor {
    /// Offset of the first event this cursor tracks.
    pub closed spec fn spec_start(&self) -> nat {
        self.start as nat
    }

    /// For each delivered event, in offset order, whether it is resolved.
    pub closed spec fn spec_resolved(&self) -> Seq<bool> {
        self.resolved@
    }

    /// Number of leading delivered events that are resolved.
    pub closed spec fn spec_committed(&self) -> nat {
        self.committed as nat
    }

    pub open spec fn wf(&self) -> bool {
        &&& self.spec_start() + self.spec_resolved().len() <= u64::MAX
        &&& is_commit_point(self.spec_resolved(), self.spec_committed())
    }

    /// Offset that may be committed: every event below it is resolved.
    pub open spec fn spec_commit_offset(&self) -> nat {
        self.spec_start() + self.spec_committed()
    }

    /// A cursor whose first event will have offset `start`.
    pub fn new(start: u64) -> (r: Self)
        ensures
            r.wf(),
            r.spec_start() == start,
            r.spec_resolved() == Seq::<bool>::empty(),
    {
        AckCursor { start, resolved: Vec::new(), committed: 0 }
    }

    /// Records the delivery of the next event and returns its offset, or
    /// `None` once offsets are exhausted.
    pub fn deliver(&mut self) -> (r: Option<u64>)
        requires
            old(self).wf(),
        ensures
            final(self).wf(),
            final(self).spec_start() == old(self).spec_start(),
            old(self).spec_start() + old(self).spec_resolved().len() < u64::MAX ==> r == Some(
                (old(self).spec_start() + old(self).spec_resolved().len()) as u64,
            ) && final(self).spec_resolved() == old(self).spec_resolved().push(false),
            old(self).spec_start() + old(self).spec_resolved().len() == u64::MAX ==> r is None
                && final(self).spec_resolved() == old(self).spec_resolved(),
            final(self).spec_committed() == old(self).spec_committed(),
    {
        if self.resolved.len() as u64 >= u64::MAX - self.start {
            return None;
        }
        let offset = self.start + self.resolved.len() as u64;
        self.resolved.push(false);
        Some(offset)
    }

    /// Marks the event at `offset` resolved and advances the commit point
    /// past every leading resolved event. Returns `false`, changing nothing,
    /// for an offset that was never delivered.
    pub fn resolve(&mut self, offset: u64) -> (r: bool)
        requires
            old(self).wf(),
        ensures
            final(self).wf(),
            final(self).spec_start() == old(self).spec_start(),
            r == (old(self).spec_start() <= offset < old(self).spec_start() + old(
                self,
            ).spec_resolved().len()),
            r ==> final(self).spec_resolved() == old(self).spec_resolved().update(
                offset - old(self).spec_start(),
                true,
            ),
            !r ==> final(self).spec_resolved() == old(self).spec_resolved(),
    {
        if offset < self.start || offset - self.start >= self.resolved.len() as u64 {
            return false;
        }
        let i = (offset - self.start) as usize;
        self.resolved.set(i, true);
        let mut c = self.committed;
        while c < self.resolved.len() && self.resolved[c]
            invariant
                self.committed <= c <= self.resolved.len(),
                forall|j: int| 0 <= j < c ==> #[trigger] self.resolved@[j],
            decreases self.resolved.len() - c,
        {
            c = c + 1;
        }
        self.committed = c;
        true
    }

    /// The offset that may be committed to the broker.
    pub fn commit_offset(&self) -> (r: u64)
        requires
            self.wf(),
        ensures
            r == self.spec_commit_offset(),
    {
        self.start + self.committed as u64
    }

    /// Number of delivered events not yet resolved.
    pub fn unresolved(&self) -> (r: usize)
        requires
            self.wf(),
        ensures
            r == self.spec_resolved().filter(|b: bool| !b).len(),
    {
        let mut n: usize = 0;
        let mut i: usize = 0;
        while i < self.resolved.len()
            invariant
                i <= self.resolved.len(),
                n == self.resolved@.take(i as int).filter(|b: bool| !b).len(),
                n <= i,
            decreases self.resolved.len() - i,
        {
            proof {
                assert(self.resolved@.take(i + 1) =~= self.resolved@.take(i as int).push(
                    self.resolved@[i as int],
                ));
                self.resolved@.take(i as int).lemma_filter_push(self.resolved@[i as int], |b: bool| !b);
            }
            if !self.resolved[i] {
                n = n + 1;
            }
            i = i + 1;
        }
        proof {
            assert(self.resolved@.take(i as int) =~= self.resolved@);
        }
        n
    }
}

/// Nothing unresolved is ever acknowledged: every delivered event that has
/// no terminal outcome lies at or above the committed offset, so after a
/// restart it is delivered again.
pub proof fn law_unresolved_not_committed(c: AckCursor, offset: nat)
    requires
        c.wf(),
        c.spec_start() <= offset < c.spec_start() + c.spec_resolved().len(),
        !c.spec_resolved()[offset - c.spec_start()],
    ensures
        offset >= c.spec_commit_offset(),
{
}

/// A malformed event resolved at once does not hold back the partition: once
/// every event below `k` is resolved, whatever each of them was, the commit
/// point has reached `k`.
pub proof fn law_resolved_prefix_committed(c: AckCursor, k: nat)
    requires
        c.wf(),
        k <= c.spec_resolved().len(),
        forall|i: int| 0 <= i < k ==> #[trigger] c.spec_resolved()[i],
    ensures
        c.spec_commit_offset() >= c.spec_start() + k,
{
    if c.spec_committed() < k {
        assert(c.spec_resolved()[c.spec_committed() as int]);
    }
}

/// What shutdown does next while attempts are still running.
#[derive(Clone, Copy, Debug, PartialEq, Eq, Structural)]
pub enum DrainAction {
    /// Let the running attempts go on.
    KeepWaiting,
    /// Stop; `clean` says whether every attempt finished.
    Exit { clean: bool },
}

/// After the shutdown signal: exit as soon as nothing is running, or when the
/// drain deadline has passed; wait otherwise.
pub fn drain_step(in_flight: u64, now: u64, deadline: u64) -> (r: DrainAction)
    ensures
        in_flight == 0 ==> r == (DrainAction::Exit { clean: true }),
        in_flight > 0 && now >= deadline ==> r == (DrainAction::Exit { clean: false }),
        in_flight > 0 && now < deadline ==> r == DrainAction::KeepWaiting,
{
    if in_flight == 0 {
        DrainAction::Exit { clean: true }
    } else if now >= deadline {
        DrainAction::Exit { clean: false }
    } else {
        DrainAction::KeepWaiting
    }
}

} // verus!
