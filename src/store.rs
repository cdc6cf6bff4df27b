use vstd::prelude::*;

verus! {

/// Where the handling of one event identifier stands.
#[derive(Clone, Copy, Debug, PartialEq, Eq, Structural)]
pub enum EntryState {
    /// A send attempt for the identifier is under way.
    Reserved,
    /// The message was delivered.
    Sent,
    /// The event failed for good and was dead-lettered.
    Failed,
}

/// The store's entry for one event identifier.
#[derive(Clone, Copy, Debug, PartialEq, Eq, Structural)]
pub struct Record {
    pub state: EntryState,
    /// When the entry was finalized (0 while reserved).
    pub resolved_at: u64,
}

/// Answer of [`IdempotencyStore::check_and_reserve`].
#[derive(Clone, Copy, Debug, PartialEq, Eq, Structural)]
pub enum Reservation {
    /// The caller now owns the single send attempt for the identifier.
    Reserved,
    /// The message was already delivered: do not send it again.
    AlreadySent,
    /// The event already failed for good.
    AlreadyFailed,
    /// Another attempt for the identifier is under way.
    InFlight,
}

/// Remembers, per event identifier, whether a send is under way or how the
/// event ended, so that a redelivered event is never sent twice.
pub struct IdempotencyStore {
    ids: Vec<String>,
    records: Vec<Record>,
}

pub open spec fn reserve_result(m: Map<Seq<char>, Record>, id: Seq<char>) -> Reservation {
    if !m.contains_key(id) {
        Reservation::Reserved
    } else {
        match m[id].state {
            EntryState::Reserved => Reservation::InFlight,
            EntryState::Sent => Reservation::AlreadySent,
            EntryState::Failed => Reservation::AlreadyFailed,
        }
    }
}

pub open spec fn after_reserve(m: Map<Seq<char>, Record>, id: Seq<char>) -> Map<Seq<char>, Record> {
    if m.contains_key(id) {
        m
    } else {
        m.insert(id, Record { state: EntryState::Reserved, resolved_at: 0 })
    }
}

/// A terminal entry is never overwritten.
pub open spec fn after_record(
    m: Map<Seq<char>, Record>,
    id: Seq<char>,
    sent: bool,
    now: u64,
) -> Map<Seq<char>, Record> {
    if m.contains_key(id) && m[id].state != EntryState::Reserved {
        m
    } else {
        m.insert(
            id,
            Record {
                state: if sent {
                    EntryState::Sent
                } else {
                    EntryState::Failed
                },
                resolved_at: now,
            },
        )
    }
}

/// Only a reservation is ever released.
pub open spec fn after_release(m: Map<Seq<char>, Record>, id: Seq<char>) -> Map<
    Seq<char>,
    Record,
> {
    if m.contains_key(id) && m[id].state == EntryState::Reserved {
        m.remove(id)
    } else {
        m
    }
}

/// Whether an entry survives eviction at `cutoff`.
pub open spec fn retained(r: Record, cutoff: u64) -> bool {
    r.state == EntryState::Reserved || r.resolved_at >= cutoff
}

/// The map held by parallel sequences of identifiers and records.
pub closed spec fn map_of(ids: Seq<String>, recs: Seq<Record>) -> Map<Seq<char>, Record> {
    Map::new(
        |k: Seq<char>| exists|j: int| 0 <= j < ids.len() && (#[trigger] ids[j])@ == k,
        |k: Seq<char>| recs[choose|j: int| 0 <= j < ids.len() && (#[trigger] ids[j])@ == k],
    )
}

pub closed spec fn unique_ids(ids: Seq<String>) -> bool {
    forall|i: int, j: int|
        0 <= i < ids.len() && 0 <= j < ids.len() && i != j ==> (#[trigger] ids[i])@ != (
        #[trigger] ids[j])@
}

proof fn lemma_map_at(ids: Seq<String>, recs: Seq<Record>, j: int)
    requires
        unique_ids(ids),
        0 <= j < ids.len(),
    ensures
        map_of(ids, recs).contains_key(ids[j]@),
        map_of(ids, recs)[ids[j]@] == recs[j],
{
    let k = ids[j]@;
    assert(map_of(ids, recs).dom().contains(k));
    let c = choose|c: int| 0 <= c < ids.len() && (#[trigger] ids[c])@ == k;
    assert(c == j);
}

proof fn lemma_map_push(ids: Seq<String>, recs: Seq<Record>, id: String, rec: Record)
    requires
        unique_ids(ids.push(id)),
        ids.len() == recs.len(),
    ensures
        unique_ids(ids),
        map_of(ids.push(id), recs.push(rec)) == map_of(ids, recs).insert(id@, rec),
{
    let ids2 = ids.push(id);
    let recs2 = recs.push(rec);
    let m = map_of(ids, recs);
    let m2 = map_of(ids2, recs2);
    assert forall|i: int, j: int|
        0 <= i < ids.len() && 0 <= j < ids.len() && i != j implies (#[trigger] ids[i])@ != (
        #[trigger] ids[j])@ by {
        assert(ids2[i] == ids[i] && ids2[j] == ids[j]);
    }
    assert forall|k: Seq<char>| #[trigger] m2.contains_key(k) <==> m.insert(id@, rec).contains_key(k) by {
        if m2.contains_key(k) && k != id@ {
            let j = choose|j: int| 0 <= j < ids2.len() && (#[trigger] ids2[j])@ == k;
            assert(ids[j] == ids2[j]);
        }
        if m.contains_key(k) {
            let j = choose|j: int| 0 <= j < ids.len() && (#[trigger] ids[j])@ == k;
            assert(ids2[j] == ids[j]);
        }
        if k == id@ {
            assert(ids2[ids.len() as int] == id);
        }
    }
    assert forall|k: Seq<char>| #[trigger] m2.contains_key(k) implies m2[k] == m.insert(id@, rec)[k] by {
        let j = choose|j: int| 0 <= j < ids2.len() && (#[trigger] ids2[j])@ == k;
        lemma_map_at(ids2, recs2, j);
        if j < ids.len() {
            assert(ids2[j] == ids[j]);
            lemma_map_at(ids, recs, j);
        }
    }
    assert(m2 =~= m.insert(id@, rec));
}

proof fn lemma_push_unique(ids: Seq<String>, recs: Seq<Record>, id: String)
    requires
        unique_ids(ids),
        !map_of(ids, recs).contains_key(id@),
    ensures
        unique_ids(ids.push(id)),
{
    let ids2 = ids.push(id);
    assert forall|i: int, j: int|
        0 <= i < ids2.len() && 0 <= j < ids2.len() && i != j implies (#[trigger] ids2[i])@ != (
        #[trigger] ids2[j])@ by {
        if i < ids.len() {
            assert(ids2[i] == ids[i]);
            assert(map_of(ids, recs).contains_key(ids[i]@));
        }
        if j < ids.len() {
            assert(ids2[j] == ids[j]);
            assert(map_of(ids, recs).contains_key(ids[j]@));
        }
    }
}

proof fn lemma_map_update(ids: Seq<String>, recs: Seq<Record>, j: int, rec: Record)
    requires
        unique_ids(ids),
        ids.len() == recs.len(),
        0 <= j < ids.len(),
    ensures
        map_of(ids, recs.update(j, rec)) == map_of(ids, recs).insert(ids[j]@, rec),
{
    let m = map_of(ids, recs);
    let m2 = map_of(ids, recs.update(j, rec));
    lemma_map_at(ids, recs.update(j, rec), j);
    assert forall|k: Seq<char>| #[trigger] m2.contains_key(k) implies m2[k] == m.insert(ids[j]@, rec)[k] by {
        let i = choose|i: int| 0 <= i < ids.len() && (#[trigger] ids[i])@ == k;
        lemma_map_at(ids, recs.update(j, rec), i);
        lemma_map_at(ids, recs, i);
    }
    assert(m2 =~= m.insert(ids[j]@, rec));
}

proof fn lemma_map_remove(ids: Seq<String>, recs: Seq<Record>, j: int)
    requires
        unique_ids(ids),
        ids.len() == recs.len(),
        0 <= j < ids.len(),
    ensures
        unique_ids(ids.remove(j)),
        map_of(ids.remove(j), recs.remove(j)) == map_of(ids, recs).remove(ids[j]@),
{
    let ids2 = ids.remove(j);
    let recs2 = recs.remove(j);
    let m = map_of(ids, recs);
    let m2 = map_of(ids2, recs2);
    assert forall|a: int, b: int|
        0 <= a < ids2.len() && 0 <= b < ids2.len() && a != b implies (#[trigger] ids2[a])@ != (
        #[trigger] ids2[b])@ by {
        let a0 = if a < j { a } else { a + 1 };
        let b0 = if b < j { b } else { b + 1 };
        assert(ids2[a] == ids[a0] && ids2[b] == ids[b0]);
    }
    assert forall|k: Seq<char>| #[trigger] m2.contains_key(k) <==> m.remove(ids[j]@).contains_key(k) by {
        if m2.contains_key(k) {
            let i = choose|i: int| 0 <= i < ids2.len() && (#[trigger] ids2[i])@ == k;
            let i0 = if i < j { i } else { i + 1 };
            assert(ids2[i] == ids[i0]);
            lemma_map_at(ids, recs, i0);
        }
        if m.contains_key(k) && k != ids[j]@ {
            let i = choose|i: int| 0 <= i < ids.len() && (#[trigger] ids[i])@ == k;
            let i2 = if i < j { i } else { i - 1 };
            assert(ids2[i2] == ids[i]);
        }
    }
    assert forall|k: Seq<char>| #[trigger] m2.contains_key(k) implies m2[k] == m[k] by {
        let i = choose|i: int| 0 <= i < ids2.len() && (#[trigger] ids2[i])@ == k;
        let i0 = if i < j { i } else { i + 1 };
        assert(ids2[i] == ids[i0] && recs2[i] == recs[i0]);
        lemma_map_at(ids2, recs2, i);
        lemma_map_at(ids, recs, i0);
    }
    assert(m2 =~= m.remove(ids[j]@));
}

/// The entries of `m` that survive eviction at `cutoff`.
pub open spec fn kept(m: Map<Seq<char>, Record>, cutoff: u64) -> Map<Seq<char>, Record> {
    Map::new(|k: Seq<char>| m.contains_key(k) && retained(m[k], cutoff), |k: Seq<char>| m[k])
}

impl View for IdempotencyStore {
    type V = Map<Seq<char>, Record>;

    closed spec fn view(&self) -> Map<Seq<char>, Record> {
        map_of(self.ids@, self.records@)
    }
}

impl IdempotencyStore {
    /// Same number of identifiers and records, no identifier twice.
    pub closed spec fn wf(&self) -> bool {
        &&& self.ids.len() == self.records.len()
        &&& unique_ids(self.ids@)
    }

    pub fn new() -> (r: Self)
        ensures
            r.wf(),
            r@ == Map::<Seq<char>, Record>::empty(),
    {
        let r = IdempotencyStore { ids: Vec::new(), records: Vec::new() };
        assert(r@ =~= Map::<Seq<char>, Record>::empty());
        r
    }

    /// Number of identifiers held.
    pub fn len(&self) -> (r: usize)
        requires
            self.wf(),
        ensures
            r == self@.len(),
    {
        proof {
            self.lemma_len();
        }
        self.ids.len()
    }

    proof fn lemma_len(&self)
        requires
            self.wf(),
        ensures
            self@.len() == self.ids.len(),
        decreases self.ids.len(),
    {
        let ids = self.ids@.map_values(|s: String| s@);
        assert forall|i: int, j: int| 0 <= i < j < ids.len() implies ids[i] != ids[j] by {
            assert(self.ids@[i]@ != self.ids@[j]@);
        }
        ids.unique_seq_to_set();
        assert(self@.dom() =~= ids.to_set()) by {
            assert forall|k: Seq<char>| self@.dom().contains(k) implies ids.to_set().contains(k) by {
                let j = choose|j: int| 0 <= j < self.ids.len() && (#[trigger] self.ids@[j])@ == k;
                assert(ids[j] == k);
            }
            assert forall|k: Seq<char>| ids.to_set().contains(k) implies self@.dom().contains(k) by {
                let j = choose|j: int| 0 <= j < ids.len() && ids[j] == k;
                assert(self.ids@[j]@ == k);
            }
        }
    }

    fn find(&self, id: &String) -> (r: Option<usize>)
        requires
            self.wf(),
        ensures
            match r {
                Some(j) => j < self.ids.len() && self.ids@[j as int]@ == id@,
                None => !self@.contains_key(id@),
            },
    {
        let mut i: usize = 0;
        while i < self.ids.len()
            invariant
                i <= self.ids.len(),
                forall|j: int| 0 <= j < i ==> (#[trigger] self.ids@[j])@ != id@,
            decreases self.ids.len() - i,
        {
            if self.ids[i] == *id {
                return Some(i);
            }
            i = i + 1;
        }
        None
    }

    /// The entry held for `id`, if any.
    pub fn lookup(&self, id: &String) -> (r: Option<Record>)
        requires
            self.wf(),
        ensures
            r == (if self@.contains_key(id@) {
                Some(self@[id@])
            } else {
                None
            }),
    {
        match self.find(id) {
            Some(j) => {
                proof {
                    lemma_map_at(self.ids@, self.records@, j as int);
                }
                Some(self.records[j])
            },
            None => None,
        }
    }

    /// Atomically checks `id` and, where nothing is held for it, reserves it
    /// for the caller. Only a `Reserved` answer permits a send.
    pub fn check_and_reserve(&mut self, id: &String) -> (r: Reservation)
        requires
            old(self).wf(),
        ensures
            final(self).wf(),
            r == reserve_result(old(self)@, id@),
            final(self)@ == after_reserve(old(self)@, id@),
    {
        match self.find(id) {
            Some(j) => {
                proof {
                    lemma_map_at(self.ids@, self.records@, j as int);
                }
                match self.records[j].state {
                    EntryState::Reserved => Reservation::InFlight,
                    EntryState::Sent => Reservation::AlreadySent,
                    EntryState::Failed => Reservation::AlreadyFailed,
                }
            },
            None => {
                let ghost old_ids = self.ids@;
                let ghost old_recs = self.records@;
                let rec = Record { state: EntryState::Reserved, resolved_at: 0 };
                let copy = id.clone();
                proof {
                    lemma_push_unique(old_ids, old_recs, copy);
                    lemma_map_push(old_ids, old_recs, copy, rec);
                }
                self.ids.push(copy);
                self.records.push(rec);
                Reservation::Reserved
            },
        }
    }

    /// Finalizes the entry of `id` as sent or failed at time `now`. An entry
    /// that is already final is left as it is.
    pub fn record(&mut self, id: &String, sent: bool, now: u64)
        requires
            old(self).wf(),
        ensures
            final(self).wf(),
            final(self)@ == after_record(old(self)@, id@, sent, now),
    {
        let rec = Record {
            state: if sent {
                EntryState::Sent
            } else {
                EntryState::Failed
            },
            resolved_at: now,
        };
        match self.find(id) {
            Some(j) => {
                proof {
                    lemma_map_at(self.ids@, self.records@, j as int);
                    lemma_map_update(self.ids@, self.records@, j as int, rec);
                }
                if self.records[j].state == EntryState::Reserved {
                    self.records.set(j, rec);
                }
            },
            None => {
                let copy = id.clone();
                proof {
                    lemma_push_unique(self.ids@, self.records@, copy);
                    lemma_map_push(self.ids@, self.records@, copy, rec);
                }
                self.ids.push(copy);
                self.records.push(rec);
            },
        }
    }

    /// Drops the reservation of `id`, for an attempt that was abandoned before
    /// it resolved, so that a redelivery may try again. Final entries stay.
    pub fn release(&mut self, id: &String)
        requires
            old(self).wf(),
        ensures
            final(self).wf(),
            final(self)@ == after_release(old(self)@, id@),
    {
        match self.find(id) {
            Some(j) => {
                proof {
                    lemma_map_at(self.ids@, self.records@, j as int);
                    lemma_map_remove(self.ids@, self.records@, j as int);
                }
                if self.records[j].state == EntryState::Reserved {
                    self.ids.remove(j);
                    self.records.remove(j);
                }
            },
            None => {},
        }
    }

    /// Forgets every final entry resolved before `cutoff`; reservations stay.
    pub fn evict_resolved_before(&mut self, cutoff: u64)
        requires
            old(self).wf(),
        ensures
            final(self).wf(),
            final(self)@ == kept(old(self)@, cutoff),
    {
        let mut ids: Vec<String> = Vec::new();
        let mut records: Vec<Record> = Vec::new();
        let n = self.ids.len();
        let mut i: usize = 0;
        while i < n
            invariant
                n == self.ids.len(),
                self.wf(),
                i <= n,
                ids.len() == records.len(),
                unique_ids(ids@),
                map_of(ids@, records@) == kept(
                    map_of(self.ids@.subrange(0, i as int), self.records@.subrange(0, i as int)),
                    cutoff,
                ),
            decreases n - i,
        {
            let ghost pi = self.ids@.subrange(0, i as int);
            let ghost pr = self.records@.subrange(0, i as int);
            proof {
                assert(self.ids@.subrange(0, i + 1) =~= pi.push(self.ids@[i as int]));
                assert(self.records@.subrange(0, i + 1) =~= pr.push(self.records@[i as int]));
                assert forall|a: int, b: int|
                    0 <= a < pi.push(self.ids@[i as int]).len() && 0 <= b < pi.push(
                        self.ids@[i as int],
                    ).len() && a != b implies (#[trigger] pi.push(self.ids@[i as int])[a])@ != (
                    #[trigger] pi.push(self.ids@[i as int])[b])@ by {
                    assert(pi.push(self.ids@[i as int])[a] == self.ids@[a]);
                    assert(pi.push(self.ids@[i as int])[b] == self.ids@[b]);
                }
                lemma_map_push(pi, pr, self.ids@[i as int], self.records@[i as int]);
            }
            let rec = self.records[i];
            if rec.state == EntryState::Reserved || rec.resolved_at >= cutoff {
                let copy = self.ids[i].clone();
                proof {
                    lemma_push_unique(ids@, records@, copy);
                    lemma_map_push(ids@, records@, copy, rec);
                    assert(map_of(ids@.push(copy), records@.push(rec)) =~= kept(
                        map_of(pi.push(copy), pr.push(rec)),
                        cutoff,
                    ));
                }
                ids.push(copy);
                records.push(rec);
            } else {
                proof {
                    assert(map_of(ids@, records@) =~= kept(
                        map_of(pi.push(self.ids@[i as int]), pr.push(rec)),
                        cutoff,
                    ));
                }
            }
            i = i + 1;
        }
        proof {
            assert(self.ids@.subrange(0, n as int) =~= self.ids@);
            assert(self.records@.subrange(0, n as int) =~= self.records@);
        }
        self.ids = ids;
        self.records = records;
    }
}

/// Redelivery of an event never leads to a second send: while the first
/// attempt is under way a duplicate is told `InFlight`, and once the event is
/// recorded as sent every later check answers `AlreadySent`, changes nothing,
/// and no later record or release displaces the `Sent` entry.
pub proof fn law_idempotent_redelivery(m: Map<Seq<char>, Record>, id: Seq<char>, now: u64)
    requires
        reserve_result(m, id) == Reservation::Reserved,
    ensures
        reserve_result(after_reserve(m, id), id) == Reservation::InFlight,
        after_record(after_reserve(m, id), id, true, now)[id].state == EntryState::Sent,
        law_sent_is_final(after_record(after_reserve(m, id), id, true, now), id),
{
}

/// Once `id` is recorded as sent, a check answers `AlreadySent` and every
/// further operation on `id` leaves its entry as it is.
pub open spec fn law_sent_is_final(m: Map<Seq<char>, Record>, id: Seq<char>) -> bool {
    &&& m.contains_key(id) && m[id].state == EntryState::Sent
    &&& reserve_result(m, id) == Reservation::AlreadySent
    &&& after_reserve(m, id) == m
    &&& forall|sent: bool, t: u64| #[trigger] after_record(m, id, sent, t) == m
    &&& after_release(m, id) == m
}

/// A `Sent` entry is final for good: this holds of every map that has one.
pub proof fn law_sent_entry_is_final(m: Map<Seq<char>, Record>, id: Seq<char>)
    requires
        m.contains_key(id),
        m[id].state == EntryState::Sent,
    ensures
        law_sent_is_final(m, id),
{
}

} // verus!
