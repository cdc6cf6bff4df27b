use vstd::prelude::*;

verus! {

/// A request made of the send slots.
#[derive(Clone, Copy, Debug, PartialEq, Eq, Structural)]
pub enum SlotOp {
    Acquire,
    Release,
}

/// Slots held after `op`, starting from `held` of `capacity`: an acquire is
/// granted only while a slot is free, a release frees one if any is held.
pub open spec fn held_after(capacity: nat, held: nat, op: SlotOp) -> nat {
    match op {
        SlotOp::Acquire => if held < capacity {
            held + 1
        } else {
            held
        },
        SlotOp::Release => if held > 0 {
            (held - 1) as nat
        } else {
            0
        },
    }
}

/// Slots held after the requests `ops`, in order.
pub open spec fn held_after_all(capacity: nat, held: nat, ops: Seq<SlotOp>) -> nat
    decreases ops.len(),
{
    if ops.len() == 0 {
        held
    } else {
        held_after_all(capacity, held_after(capacity, held, ops[0]), ops.drop_first())
    }
}

/// Acquires granted among the requests `ops`, in order.
pub open spec fn granted(capacity: nat, held: nat, ops: Seq<SlotOp>) -> nat
    decreases ops.len(),
{
    if ops.len() == 0 {
        0
    } else {
        (if ops[0] == SlotOp::Acquire && held < capacity {
            1nat
        } else {
            0nat
        }) + granted(capacity, held_after(capacity, held, ops[0]), ops.drop_first())
    }
}

/// The execution slots that bound how many sends run at once.
pub struct SendSlots {
    capacity: u64,
    held: u64,
}

impl SendSlots {
    pub closed spec fn spec_capacity(&self) -> nat {
        self.capacity as nat
    }

    pub closed spec fn spec_held(&self) -> nat {
        self.held as nat
    }

    /// Never more slots held than there are.
    pub open spec fn wf(&self) -> bool {
        self.spec_held() <= self.spec_capacity()
    }

    /// `capacity` slots, none held.
    pub fn new(capacity: u64) -> (r: Self)
        ensures
            r.wf(),
            r.spec_capacity() == capacity,
            r.spec_held() == 0,
    {
        SendSlots { capacity, held: 0 }
    }

    pub fn capacity(&self) -> (r: u64)
        ensures
            r == self.spec_capacity(),
    {
        self.capacity
    }

    /// Number of sends now running.
    pub fn held(&self) -> (r: u64)
        ensures
            r == self.spec_held(),
    {
        self.held
    }

    /// Takes a slot if one is free; `false` means the caller must wait.
    pub fn try_acquire(&mut self) -> (r: bool)
        requires
            old(self).wf(),
        ensures
            final(self).wf(),
            r == (old(self).spec_held() < old(self).spec_capacity()),
            final(self).spec_capacity() == old(self).spec_capacity(),
            final(self).spec_held() == held_after(
                old(self).spec_capacity(),
                old(self).spec_held(),
                SlotOp::Acquire,
            ),
    {
        if self.held < self.capacity {
            self.held = self.held + 1;
            true
        } else {
            false
        }
    }

    /// Gives a slot back; `false` if none was held.
    pub fn release(&mut self) -> (r: bool)
        requires
            old(self).wf(),
        ensures
            final(self).wf(),
            r == (old(self).spec_held() > 0),
            final(self).spec_capacity() == old(self).spec_capacity(),
            final(self).spec_held() == held_after(
                old(self).spec_capacity(),
                old(self).spec_held(),
                SlotOp::Release,
            ),
    {
        if self.held > 0 {
            self.held = self.held - 1;
            true
        } else {
            false
        }
    }
}

/// Whatever requests arrive, and in whatever order, no more sends hold a slot
/// at once than there are slots: after every prefix of `ops`, at most
/// `capacity` are held.
pub proof fn law_backpressure(capacity: nat, held: nat, ops: Seq<SlotOp>, k: nat)
    requires
        held <= capacity,
        k <= ops.len(),
    ensures
        held_after_all(capacity, held, ops.take(k as int)) <= capacity,
    decreases k,
{
    if k > 0 {
        let rest = ops.drop_first();
        assert(ops.take(k as int).drop_first() =~= rest.take(k - 1));
        law_backpressure(capacity, held_after(capacity, held, ops[0]), rest, (k - 1) as nat);
    }
}

/// A burst of acquire requests with none released gets exactly as many
/// slots as are free: with `capacity` free slots and `n >= capacity`
/// simultaneous requests, `capacity` are granted and the rest wait.
pub proof fn law_burst_granted(capacity: nat, held: nat, ops: Seq<SlotOp>)
    requires
        held <= capacity,
        forall|i: int| 0 <= i < ops.len() ==> ops[i] == SlotOp::Acquire,
    ensures
        granted(capacity, held, ops) == (if ops.len() <= capacity - held {
            ops.len()
        } else {
            (capacity - held) as nat
        }),
        held_after_all(capacity, held, ops) <= capacity,
    decreases ops.len(),
{
    if ops.len() > 0 {
        let rest = ops.drop_first();
        assert forall|i: int| 0 <= i < rest.len() implies rest[i] == SlotOp::Acquire by {
            assert(rest[i] == ops[i + 1]);
        }
        law_burst_granted(capacity, held_after(capacity, held, ops[0]), rest);
    }
}

} // verus!
