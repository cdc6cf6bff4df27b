use vstd::prelude::*;
use crate::backoff::{RetryPolicy, backoff_spec, jitter_spec, jittered};
use crate::outcome::DeliveryOutcome;
use crate::store::{IdempotencyStore, Reservation, reserve_result, after_reserve, after_record};

verus! {

/// What the dispatcher does with an event after one send attempt.
#[derive(Clone, Debug, PartialEq, Eq)]
pub enum Step {
    /// The message went out: record `Sent` and acknowledge the event.
    Delivered,
    /// No further attempt: record the failure, hand the event to the
    /// dead-letter sink and acknowledge it.
    DeadLetter { reason: String },
    /// Try again: attempt `next_attempt` becomes eligible at `ready_at`.
    Retry { next_attempt: u32, ready_at: u64 },
}

/// `a + b`, held at `u64::MAX`.
pub open spec fn sat_add(a: u64, b: nat) -> u64 {
    if a + b <= u64::MAX {
        (a + b) as u64
    } else {
        u64::MAX
    }
}

/// The decision after attempt `attempt` ended with `outcome` at time `now`;
/// `draw` is the random number that spreads the backoff delay.
pub open spec fn decide(
    p: RetryPolicy,
    attempt: u32,
    outcome: DeliveryOutcome,
    now: u64,
    draw: u64,
) -> Step {
    match outcome {
        DeliveryOutcome::Sent => Step::Delivered,
        DeliveryOutcome::PermanentFailure { reason } => Step::DeadLetter { reason },
        DeliveryOutcome::TransientFailure { reason } => if attempt < p.max_retries {
            Step::Retry {
                next_attempt: (attempt + 1) as u32,
                ready_at: sat_add(now, jitter_spec(backoff_spec(p, attempt as nat) as u64, draw)),
            }
        } else {
            Step::DeadLetter { reason }
        },
    }
}

/// Decides, after one send attempt, whether the event is done, dead-lettered
/// or retried later. A transient failure is retried while fewer than
/// `max_retries` attempts have been made, after the capped exponential delay
/// spread by `draw`; after that it counts as permanent.
pub fn after_attempt(
    policy: &RetryPolicy,
    attempt: u32,
    outcome: DeliveryOutcome,
    now: u64,
    draw: u64,
) -> (r: Step)
    ensures
        r == decide(*policy, attempt, outcome, now, draw),
{
    match outcome {
        DeliveryOutcome::Sent => Step::Delivered,
        DeliveryOutcome::PermanentFailure { reason } => Step::DeadLetter { reason },
        DeliveryOutcome::TransientFailure { reason } => {
            if attempt < policy.max_retries {
                let delay = jittered(policy.backoff_delay(attempt), draw);
                let ready_at: u64 = if now <= u64::MAX - delay {
                    now + delay
                } else {
                    u64::MAX
                };
                Step::Retry { next_attempt: attempt + 1, ready_at }
            } else {
                Step::DeadLetter { reason }
            }
        },
    }
}

/// Number of send attempts made for one event when its successive attempts
/// end with `outs`, starting at attempt number `attempt` (0 if `outs` runs
/// out before a terminal decision).
pub open spec fn attempts_made(p: RetryPolicy, outs: Seq<DeliveryOutcome>, attempt: u32) -> nat
    decreases outs.len(),
{
    if outs.len() == 0 {
        0
    } else {
        match decide(p, attempt, outs[0], 0, 0) {
            Step::Retry { next_attempt, .. } => 1 + attempts_made(p, outs.drop_first(), next_attempt),
            _ => 1,
        }
    }
}

/// The decision that ends the run of attempts described by `outs`.
pub open spec fn final_step(p: RetryPolicy, outs: Seq<DeliveryOutcome>, attempt: u32) -> Step
    decreases outs.len(),
{
    if outs.len() == 0 {
        Step::Delivered
    } else {
        match decide(p, attempt, outs[0], 0, 0) {
            Step::Retry { next_attempt, .. } => final_step(p, outs.drop_first(), next_attempt),
            s => s,
        }
    }
}

pub open spec fn all_transient(outs: Seq<DeliveryOutcome>) -> bool {
    forall|i: int| 0 <= i < outs.len() ==> (#[trigger] outs[i]) is TransientFailure
}

proof fn lemma_transient_run(p: RetryPolicy, outs: Seq<DeliveryOutcome>, attempt: u32)
    requires
        1 <= attempt <= p.max_retries,
        all_transient(outs),
        outs.len() >= p.max_retries - attempt + 1,
    ensures
        attempts_made(p, outs, attempt) == p.max_retries - attempt + 1,
        final_step(p, outs, attempt) is DeadLetter,
    decreases outs.len(),
{
    assert(outs[0] is TransientFailure);
    if attempt < p.max_retries {
        let rest = outs.drop_first();
        assert forall|i: int| 0 <= i < rest.len() implies (#[trigger] rest[i]) is TransientFailure by {
            assert(rest[i] == outs[i + 1]);
        }
        lemma_transient_run(p, rest, (attempt + 1) as u32);
    }
}

/// An event whose every send attempt fails transiently is attempted exactly
/// `max_retries` times and then dead-lettered, however many more failures
/// the transport would have produced.
pub proof fn law_retry_bound(p: RetryPolicy, outs: Seq<DeliveryOutcome>)
    requires
        p.max_retries >= 1,
        all_transient(outs),
        outs.len() >= p.max_retries,
    ensures
        attempts_made(p, outs, 1) == p.max_retries,
        final_step(p, outs, 1) is DeadLetter,
{
    lemma_transient_run(p, outs, 1);
}

/// An event whose first attempt fails permanently is dead-lettered at once,
/// after exactly one attempt, whatever the transport would have said later.
pub proof fn law_permanent_short_circuit(p: RetryPolicy, outs: Seq<DeliveryOutcome>)
    requires
        outs.len() >= 1,
        outs[0] is PermanentFailure,
    ensures
        attempts_made(p, outs, 1) == 1,
        final_step(p, outs, 1) == (Step::DeadLetter { reason: outs[0]->PermanentFailure_reason }),
{
}

/// What the dispatcher does with an incoming event before any send.
#[derive(Clone, Copy, Debug, PartialEq, Eq, Structural)]
pub enum Admission {
    /// The event is reserved for this caller: render and send it.
    Send,
    /// The event already reached a final outcome: acknowledge it, send nothing.
    Acknowledge,
    /// Another attempt for the same event is under way: leave it
    /// unacknowledged and look again later.
    Defer,
}

pub open spec fn admission_of(r: Reservation) -> Admission {
    match r {
        Reservation::Reserved => Admission::Send,
        Reservation::AlreadySent => Admission::Acknowledge,
        Reservation::AlreadyFailed => Admission::Acknowledge,
        Reservation::InFlight => Admission::Defer,
    }
}

/// Consults and reserves the idempotency store for `event_id`. Only a
/// `Send` answer lets the transport be contacted.
pub fn screen(store: &mut IdempotencyStore, event_id: &String) -> (r: Admission)
    requires
        old(store).wf(),
    ensures
        final(store).wf(),
        r == admission_of(reserve_result(old(store)@, event_id@)),
        final(store)@ == after_reserve(old(store)@, event_id@),
{
    match store.check_and_reserve(event_id) {
        Reservation::Reserved => Admission::Send,
        Reservation::AlreadySent => Admission::Acknowledge,
        Reservation::AlreadyFailed => Admission::Acknowledge,
        Reservation::InFlight => Admission::Defer,
    }
}

/// Applies the decision taken after an attempt to the store: a delivered
/// event is recorded as sent, a dead-lettered one as failed, a retried one is
/// left reserved. Returns whether the event reached its final outcome and may
/// be acknowledged.
pub fn settle(store: &mut IdempotencyStore, event_id: &String, step: &Step, now: u64) -> (r: bool)
    requires
        old(store).wf(),
    ensures
        final(store).wf(),
        r == !(step is Retry),
        step is Delivered ==> final(store)@ == after_record(old(store)@, event_id@, true, now),
        step is DeadLetter ==> final(store)@ == after_record(old(store)@, event_id@, false, now),
        step is Retry ==> final(store)@ == old(store)@,
{
    match step {
        Step::Delivered => {
            store.record(event_id, true, now);
            true
        },
        Step::DeadLetter { .. } => {
            store.record(event_id, false, now);
            true
        },
        Step::Retry { .. } => false,
    }
}

/// The reason carried by a failed outcome.
pub open spec fn failure_reason(o: DeliveryOutcome) -> Option<String> {
    match o {
        DeliveryOutcome::Sent => None,
        DeliveryOutcome::PermanentFailure { reason } => Some(reason),
        DeliveryOutcome::TransientFailure { reason } => Some(reason),
    }
}

/// The dispatcher's record of one event's processing: which attempt comes
/// next, how the last one failed, and when the next may start.
#[derive(Clone, Debug, PartialEq, Eq)]
pub struct DispatchAttempt {
    pub attempt_number: u32,
    pub last_error: Option<String>,
    pub next_eligible_at: u64,
}

impl DispatchAttempt {
    /// The first attempt, eligible at once.
    pub fn new() -> (r: Self)
        ensures
            r.attempt_number == 1,
            r.last_error is None,
            r.next_eligible_at == 0,
    {
        DispatchAttempt { attempt_number: 1, last_error: None, next_eligible_at: 0 }
    }

    /// Takes in how the current attempt ended and returns the decision. On a
    /// retry the record moves to the next attempt and its ready time; a
    /// failure's reason becomes the last error.
    pub fn conclude(&mut self, policy: &RetryPolicy, outcome: DeliveryOutcome, now: u64, draw: u64) -> (r: Step)
        ensures
            r == decide(*policy, old(self).attempt_number, outcome, now, draw),
            final(self).last_error == (match failure_reason(outcome) {
                Some(e) => Some(e),
                None => old(self).last_error,
            }),
            r is Retry ==> final(self).attempt_number == r->next_attempt
                && final(self).next_eligible_at == r->ready_at,
            !(r is Retry) ==> final(self).attempt_number == old(self).attempt_number
                && final(self).next_eligible_at == old(self).next_eligible_at,
    {
        match &outcome {
            DeliveryOutcome::Sent => {},
            DeliveryOutcome::PermanentFailure { reason } => {
                self.last_error = Some(reason.clone());
            },
            DeliveryOutcome::TransientFailure { reason } => {
                self.last_error = Some(reason.clone());
            },
        }
        let step = after_attempt(policy, self.attempt_number, outcome, now, draw);
        match &step {
            Step::Retry { next_attempt, ready_at } => {
                self.attempt_number = *next_attempt;
                self.next_eligible_at = *ready_at;
            },
            _ => {},
        }
        step
    }
}

} // verus!
