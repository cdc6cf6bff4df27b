use mail_dispatch::backoff::{jittered, RetryPolicy};
use mail_dispatch::consumer::{drain_step, AckCursor, DrainAction};
use mail_dispatch::dispatch::{after_attempt, screen, settle, Admission, Step};
use mail_dispatch::event::{address_is_valid, intake, validate, validate_fields, Intake, MalformedReason, RawEvent};
use mail_dispatch::message::{compose, ComposeError};
use mail_dispatch::outcome::{classify, outcome_of_failure, DeliveryOutcome, FailureClass, SendFailure};
use mail_dispatch::render::{fill, lookup_value, ContentKind, RenderError, Rendered, Renderer, Segment, Template};
use mail_dispatch::slots::SendSlots;
use mail_dispatch::store::{EntryState, IdempotencyStore, Reservation};

fn policy(max_retries: u32) -> RetryPolicy {
    RetryPolicy {
        max_concurrent_sends: 4,
        max_retries,
        base_backoff: 100,
        backoff_multiplier: 2,
        max_backoff: 1000,
    }
}

fn s(t: &str) -> String {
    t.to_string()
}

fn raw(id: Option<&str>, to: Option<&str>) -> RawEvent {
    RawEvent {
        event_id: id.map(s),
        recipient_address: to.map(s),
        template_id: Some(s("welcome")),
        template_data: Some(vec![(s("name"), s("Ada"))]),
        enqueued_at: Some(7),
    }
}

fn transient() -> DeliveryOutcome {
    DeliveryOutcome::TransientFailure { reason: s("421 try later") }
}

#[test]
fn backoff_grows_and_is_capped() {
    let p = policy(5);
    assert_eq!(p.backoff_delay(1), 100);
    assert_eq!(p.backoff_delay(2), 200);
    assert_eq!(p.backoff_delay(3), 400);
    assert_eq!(p.backoff_delay(4), 800);
    assert_eq!(p.backoff_delay(5), 1000);
    assert_eq!(p.backoff_delay(40), 1000);
}

#[test]
fn backoff_without_overflow_at_extremes() {
    let p = RetryPolicy {
        max_concurrent_sends: 1,
        max_retries: 3,
        base_backoff: u64::MAX,
        backoff_multiplier: u64::MAX,
        max_backoff: u64::MAX,
    };
    assert_eq!(p.backoff_delay(1), u64::MAX);
    assert_eq!(p.backoff_delay(60), u64::MAX);
    let zero = RetryPolicy { backoff_multiplier: 0, ..policy(3) };
    assert_eq!(zero.backoff_delay(1), 100);
    assert_eq!(zero.backoff_delay(2), 0);
}

#[test]
fn jitter_stays_in_upper_half() {
    assert_eq!(jittered(100, 0), 50);
    assert_eq!(jittered(100, 50), 100);
    assert_eq!(jittered(100, 51), 50);
    assert_eq!(jittered(0, 9), 0);
    assert_eq!(jittered(u64::MAX, u64::MAX), u64::MAX - u64::MAX / 2 + u64::MAX % (u64::MAX / 2 + 1));
}

#[test]
fn failures_are_classified() {
    assert_eq!(classify(SendFailure::Network), FailureClass::Transient);
    assert_eq!(classify(SendFailure::Timeout), FailureClass::Transient);
    assert_eq!(classify(SendFailure::Reply { code: 421 }), FailureClass::Transient);
    assert_eq!(classify(SendFailure::Reply { code: 499 }), FailureClass::Transient);
    assert_eq!(classify(SendFailure::Reply { code: 550 }), FailureClass::Permanent);
    assert_eq!(classify(SendFailure::AuthRejected), FailureClass::Permanent);
    assert_eq!(classify(SendFailure::RecipientRejected), FailureClass::Permanent);
    assert_eq!(
        outcome_of_failure(SendFailure::Timeout, s("slow")),
        DeliveryOutcome::TransientFailure { reason: s("slow") }
    );
    assert_eq!(
        outcome_of_failure(SendFailure::Reply { code: 554 }, s("no")),
        DeliveryOutcome::PermanentFailure { reason: s("no") }
    );
}

#[test]
fn decisions_after_an_attempt() {
    let p = policy(3);
    assert_eq!(after_attempt(&p, 1, DeliveryOutcome::Sent, 10, 0), Step::Delivered);
    assert_eq!(
        after_attempt(&p, 1, DeliveryOutcome::PermanentFailure { reason: s("550") }, 10, 0),
        Step::DeadLetter { reason: s("550") }
    );
    assert_eq!(after_attempt(&p, 1, transient(), 10, 50), Step::Retry { next_attempt: 2, ready_at: 110 });
    assert_eq!(after_attempt(&p, 2, transient(), 10, 0), Step::Retry { next_attempt: 3, ready_at: 110 });
    assert_eq!(after_attempt(&p, 3, transient(), 10, 0), Step::DeadLetter { reason: s("421 try later") });
    assert_eq!(
        after_attempt(&p, 1, transient(), u64::MAX - 1, 50),
        Step::Retry { next_attempt: 2, ready_at: u64::MAX }
    );
}

fn run_until_terminal(p: &RetryPolicy, mut next: impl FnMut(u32) -> DeliveryOutcome) -> (u32, Step) {
    let mut attempt: u32 = 1;
    let mut sends: u32 = 0;
    loop {
        sends += 1;
        match after_attempt(p, attempt, next(attempt), 0, 0) {
            Step::Retry { next_attempt, .. } => attempt = next_attempt,
            step => return (sends, step),
        }
    }
}

#[test]
fn always_transient_is_attempted_max_retries_times() {
    for max in 1..6 {
        let (sends, step) = run_until_terminal(&policy(max), |_| transient());
        assert_eq!(sends, max);
        assert!(matches!(step, Step::DeadLetter { .. }));
    }
}

#[test]
fn permanent_failure_is_dead_lettered_after_one_attempt() {
    let (sends, step) =
        run_until_terminal(&policy(5), |_| DeliveryOutcome::PermanentFailure { reason: s("550 no such user") });
    assert_eq!(sends, 1);
    assert_eq!(step, Step::DeadLetter { reason: s("550 no such user") });
}

#[test]
fn transient_then_sent_stops_retrying() {
    let (sends, step) = run_until_terminal(&policy(5), |a| if a < 3 { transient() } else { DeliveryOutcome::Sent });
    assert_eq!(sends, 3);
    assert_eq!(step, Step::Delivered);
}

#[test]
fn redelivered_event_is_sent_once() {
    let mut store = IdempotencyStore::new();
    let id = s("evt-1");
    let mut sends = 0;
    for _ in 0..2 {
        match screen(&mut store, &id) {
            Admission::Send => {
                sends += 1;
                let step = after_attempt(&policy(3), 1, DeliveryOutcome::Sent, 5, 0);
                assert!(settle(&mut store, &id, &step, 5));
            }
            Admission::Acknowledge => {}
            Admission::Defer => panic!("no attempt is under way"),
        }
    }
    assert_eq!(sends, 1);
    assert_eq!(store.len(), 1);
    let rec = store.lookup(&id).unwrap();
    assert_eq!(rec.state, EntryState::Sent);
    assert_eq!(rec.resolved_at, 5);
}

#[test]
fn concurrent_duplicate_is_deferred() {
    let mut store = IdempotencyStore::new();
    let id = s("evt-2");
    assert_eq!(screen(&mut store, &id), Admission::Send);
    assert_eq!(screen(&mut store, &id), Admission::Defer);
    let retry = Step::Retry { next_attempt: 2, ready_at: 9 };
    assert!(!settle(&mut store, &id, &retry, 3));
    assert_eq!(store.lookup(&id).unwrap().state, EntryState::Reserved);
    let dead = Step::DeadLetter { reason: s("gone") };
    assert!(settle(&mut store, &id, &dead, 4));
    assert_eq!(store.check_and_reserve(&id), Reservation::AlreadyFailed);
}

#[test]
fn store_record_release_and_evict() {
    let mut store = IdempotencyStore::new();
    assert_eq!(store.len(), 0);
    assert_eq!(store.check_and_reserve(&s("a")), Reservation::Reserved);
    assert_eq!(store.check_and_reserve(&s("b")), Reservation::Reserved);
    assert_eq!(store.check_and_reserve(&s("c")), Reservation::Reserved);
    store.record(&s("a"), true, 10);
    store.record(&s("b"), false, 20);
    // a final entry is never overwritten
    store.record(&s("a"), false, 30);
    assert_eq!(store.lookup(&s("a")).unwrap().state, EntryState::Sent);
    // only a reservation is released
    store.release(&s("a"));
    store.release(&s("c"));
    assert!(store.lookup(&s("c")).is_none());
    assert_eq!(store.check_and_reserve(&s("a")), Reservation::AlreadySent);
    assert_eq!(store.check_and_reserve(&s("b")), Reservation::AlreadyFailed);
    assert_eq!(store.check_and_reserve(&s("d")), Reservation::Reserved);
    store.evict_resolved_before(15);
    assert!(store.lookup(&s("a")).is_none());
    assert_eq!(store.lookup(&s("b")).unwrap().state, EntryState::Failed);
    assert_eq!(store.lookup(&s("d")).unwrap().state, EntryState::Reserved);
    assert_eq!(store.len(), 2);
    // record without a reservation finalizes a new entry
    store.record(&s("e"), true, 40);
    assert_eq!(store.check_and_reserve(&s("e")), Reservation::AlreadySent);
}

#[test]
fn burst_never_exceeds_slot_count() {
    let n: u64 = 3;
    let mut slots = SendSlots::new(n);
    let mut running: u64 = 0;
    let mut peak: u64 = 0;
    let mut granted = 0;
    let mut waiting = 0;
    for _ in 0..(10 * n) {
        if slots.try_acquire() {
            granted += 1;
            running += 1;
            peak = peak.max(running);
        } else {
            waiting += 1;
        }
    }
    assert_eq!(granted, n);
    assert_eq!(waiting, 9 * n);
    while waiting > 0 {
        assert!(slots.release());
        running -= 1;
        assert!(slots.try_acquire());
        running += 1;
        waiting -= 1;
        peak = peak.max(running);
        assert!(slots.held() <= slots.capacity());
    }
    assert_eq!(peak, n);
    for _ in 0..n {
        assert!(slots.release());
    }
    assert!(!slots.release());
    assert_eq!(slots.held(), 0);
}

#[test]
fn zero_slots_grant_nothing() {
    let mut slots = SendSlots::new(0);
    assert!(!slots.try_acquire());
    assert_eq!(slots.held(), 0);
}

#[test]
fn poison_message_is_dead_lettered_and_does_not_block() {
    let mut cursor = AckCursor::new(100);
    let poison = cursor.deliver().unwrap();
    let valid = cursor.deliver().unwrap();
    assert_eq!((poison, valid), (100, 101));
    assert_eq!(intake(Some(raw(Some("e1"), None))), Intake::DeadLetter { reason: MalformedReason::MissingRecipient });
    assert!(cursor.resolve(poison));
    assert_eq!(cursor.commit_offset(), 101);
    match intake(Some(raw(Some("e2"), Some("user@matchapp.com")))) {
        Intake::Dispatch { event } => assert_eq!(event.event_id, s("e2")),
        other => panic!("unexpected {:?}", other),
    }
    assert!(cursor.resolve(valid));
    assert_eq!(cursor.commit_offset(), 102);
    assert_eq!(cursor.unresolved(), 0);
}

#[test]
fn undecodable_payload_is_dead_lettered() {
    assert_eq!(intake(None), Intake::DeadLetter { reason: MalformedReason::Undecodable });
}

#[test]
fn unresolved_events_stay_unacknowledged_on_drain() {
    let mut cursor = AckCursor::new(0);
    for _ in 0..4 {
        cursor.deliver().unwrap();
    }
    assert!(cursor.resolve(0));
    assert!(cursor.resolve(2));
    assert!(cursor.resolve(3));
    assert!(!cursor.resolve(4));
    assert_eq!(cursor.commit_offset(), 1);
    assert_eq!(cursor.unresolved(), 1);
    assert_eq!(drain_step(1, 50, 60), DrainAction::KeepWaiting);
    assert_eq!(drain_step(1, 60, 60), DrainAction::Exit { clean: false });
    assert_eq!(drain_step(0, 10, 60), DrainAction::Exit { clean: true });
    // after restart, delivery resumes at the committed offset
    let mut again = AckCursor::new(cursor.commit_offset());
    assert_eq!(again.deliver(), Some(1));
}

#[test]
fn cursor_at_offset_limit() {
    let mut cursor = AckCursor::new(u64::MAX - 1);
    assert_eq!(cursor.deliver(), Some(u64::MAX - 1));
    assert_eq!(cursor.deliver(), None);
    assert!(cursor.resolve(u64::MAX - 1));
    assert_eq!(cursor.commit_offset(), u64::MAX);
}

#[test]
fn validation_reports_first_missing_field() {
    assert_eq!(validate_fields(raw(None, Some("a@b.c")), true), Err(MalformedReason::MissingEventId));
    assert_eq!(validate_fields(raw(Some(""), Some("a@b.c")), true), Err(MalformedReason::MissingEventId));
    assert_eq!(validate_fields(raw(Some("x"), None), true), Err(MalformedReason::MissingRecipient));
    assert_eq!(validate_fields(raw(Some("x"), Some("a@b.c")), false), Err(MalformedReason::InvalidRecipient));
    let mut r = raw(Some("x"), Some("a@b.c"));
    r.template_id = None;
    assert_eq!(validate_fields(r.clone(), true), Err(MalformedReason::MissingTemplateId));
    r.template_id = Some(s("t"));
    r.template_data = None;
    assert_eq!(validate_fields(r.clone(), true), Err(MalformedReason::MissingTemplateData));
    r.template_data = Some(vec![]);
    r.enqueued_at = None;
    let e = validate_fields(r, true).unwrap();
    assert_eq!(e.enqueued_at, 0);
    assert_eq!(e.recipient_address, s("a@b.c"));
}

#[test]
fn addresses_are_checked_by_lettre() {
    assert!(address_is_valid(&s("user@matchapp.com")));
    assert!(!address_is_valid(&s("not-an-address")));
    assert!(!address_is_valid(&s("@matchapp.com")));
    assert_eq!(validate(raw(Some("x"), Some("nobody"))), Err(MalformedReason::InvalidRecipient));
    let e = validate(raw(Some("x"), Some("user@matchapp.com"))).unwrap();
    assert_eq!(e.template_id, s("welcome"));
    assert_eq!(e.enqueued_at, 7);
}

fn renderer() -> Renderer {
    Renderer {
        templates: vec![Template {
            id: s("new-match"),
            subject: vec![Segment::Text { text: s("New match for ") }, Segment::Placeholder { key: s("name") }],
            body: vec![
                Segment::Text { text: s("<p>Hello ") },
                Segment::Placeholder { key: s("name") },
                Segment::Text { text: s(", you matched ") },
                Segment::Placeholder { key: s("other") },
                Segment::Text { text: s("</p>") },
            ],
            content_kind: ContentKind::Html,
        }],
    }
}

#[test]
fn render_fills_placeholders() {
    let data = vec![(s("name"), s("Ada")), (s("other"), s("Bob")), (s("name"), s("ignored"))];
    let r = renderer().render(&s("new-match"), &data).unwrap();
    assert_eq!(r.subject, s("New match for Ada"));
    assert_eq!(r.body, s("<p>Hello Ada, you matched Bob</p>"));
    assert_eq!(r.content_kind, ContentKind::Html);
}

#[test]
fn render_errors() {
    let data = vec![(s("name"), s("Ada"))];
    assert_eq!(renderer().render(&s("unknown"), &data), Err(RenderError::TemplateNotFound));
    assert_eq!(
        renderer().render(&s("new-match"), &data),
        Err(RenderError::TemplateDataMissing { key: s("other") })
    );
    assert_eq!(
        renderer().render(&s("new-match"), &vec![]),
        Err(RenderError::TemplateDataMissing { key: s("name") })
    );
    assert_eq!(renderer().find_template(&s("new-match")), Some(0));
}

#[test]
fn fill_and_lookup() {
    let data = vec![(s("k"), s("v1")), (s("k"), s("v2"))];
    assert_eq!(lookup_value(&data, &s("k")), Some(&s("v1")));
    assert_eq!(lookup_value(&data, &s("z")), None);
    assert_eq!(fill(&vec![], &data), Ok(s("")));
    assert_eq!(fill(&vec![Segment::Placeholder { key: s("z") }], &data), Err(s("z")));
}

#[test]
fn compose_checks_both_addresses() {
    let rendered = Rendered { subject: s("Hi"), body: s("<b>x</b>"), content_kind: ContentKind::Html };
    assert_eq!(
        compose(&s("bad sender"), &s("user@matchapp.com"), rendered.clone()).err(),
        Some(ComposeError::InvalidSender)
    );
    assert_eq!(
        compose(&s("dev@matchapp.fr"), &s("nobody"), rendered.clone()).err(),
        Some(ComposeError::InvalidRecipient)
    );
    let m = compose(&s("dev@matchapp.fr"), &s("user@matchapp.com"), rendered).unwrap();
    let text = String::from_utf8(m.formatted()).unwrap();
    assert!(text.contains("Subject: Hi"));
    assert!(text.contains("To: user@matchapp.com"));
    assert!(text.contains("text/html"));
}
