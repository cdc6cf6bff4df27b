use mail_dispatch::backoff::RetryPolicy;
use mail_dispatch::dispatch::{DispatchAttempt, Step};
use mail_dispatch::outcome::DeliveryOutcome;
use mail_dispatch::queue::WorkQueue;

#[test]
fn full_queue_hands_the_item_back() {
    let mut q: WorkQueue<u32> = WorkQueue::new(2);
    assert_eq!(q.push(1, 0), None);
    assert_eq!(q.push(2, 0), None);
    assert_eq!(q.push(3, 0), Some(3));
    assert_eq!(q.len(), 2);
}

#[test]
fn pop_ready_takes_oldest_ready_item() {
    let mut q: WorkQueue<&str> = WorkQueue::new(10);
    q.push("retry-late", 500);
    q.push("fresh", 0);
    q.push("retry-soon", 100);
    assert_eq!(q.next_ready_at(), Some(0));
    assert_eq!(q.pop_ready(50), Some("fresh"));
    assert_eq!(q.pop_ready(50), None);
    assert_eq!(q.next_ready_at(), Some(100));
    assert_eq!(q.pop_ready(600), Some("retry-late"));
    assert_eq!(q.pop_ready(600), Some("retry-soon"));
    assert_eq!(q.pop_ready(600), None);
    assert_eq!(q.next_ready_at(), None);
}

#[test]
fn zero_capacity_queue_refuses_everything() {
    let mut q: WorkQueue<u8> = WorkQueue::new(0);
    assert_eq!(q.push(9, 0), Some(9));
    assert_eq!(q.len(), 0);
}

#[test]
fn attempt_record_follows_decisions() {
    let p = RetryPolicy {
        max_concurrent_sends: 1,
        max_retries: 2,
        base_backoff: 1000,
        backoff_multiplier: 3,
        max_backoff: 60_000,
    };
    let mut a = DispatchAttempt::new();
    assert_eq!(a.attempt_number, 1);
    let t = DeliveryOutcome::TransientFailure { reason: "451 busy".to_string() };
    // delay 1000 with draw 0 spreads to 500
    assert_eq!(a.conclude(&p, t.clone(), 10_000, 0), Step::Retry { next_attempt: 2, ready_at: 10_500 });
    assert_eq!(a.attempt_number, 2);
    assert_eq!(a.next_eligible_at, 10_500);
    assert_eq!(a.last_error, Some("451 busy".to_string()));
    assert_eq!(a.conclude(&p, t, 11_000, 0), Step::DeadLetter { reason: "451 busy".to_string() });
    assert_eq!(a.attempt_number, 2);
    let mut b = DispatchAttempt::new();
    assert_eq!(b.conclude(&p, DeliveryOutcome::Sent, 5, 0), Step::Delivered);
    assert_eq!(b.last_error, None);
    assert_eq!(b.next_eligible_at, 0);
}
