//! Tests of the publisher actor's mailbox: ordering, backpressure, and the
//! state machine; and of the back-off policy and connection settings.

use nats_actor::backoff::{backoff, connect_exhausted, INITIAL_INTERVAL_MS, MAX_INTERVAL_MS};
use nats_actor::envelope::{decode_event, Event, EventMessage};
use nats_actor::errors::InternalError;
use nats_actor::publisher::{NatsPublisher, NatsPublisherConfig};
use nats_actor::settings::NatsClientSettings;

fn settings() -> NatsClientSettings {
    NatsClientSettings {
        addresses: vec![format!("127.0.0.1:{}", 4222)],
        max_reconnects: Some(5),
        retry_timeout: Some(30_000),
    }
}

fn publisher(mailbox_size: usize) -> NatsPublisher {
    let mut p = NatsPublisher::start_new(NatsPublisherConfig {
        client_settings: settings(),
        subject: format!("test_subject_{}", 12345),
        mailbox_size,
    });
    p.connected();
    p
}

fn msg(event_type: &str) -> EventMessage {
    EventMessage { event: Event::new(event_type) }
}

#[test]
fn should_publish_to_nats() {
    // The driver's side of the original end-to-end scenario: an envelope
    // submitted to the publisher comes off the actor's wire step as bytes
    // that decode back to an equal envelope.
    let mut p = publisher(100);
    let event = Event::new(&format!("event_type_{}", 12345));
    assert!(p.try_submit(EventMessage { event: event.clone() }));
    let bytes = p.take_wire_message().unwrap();
    let received = decode_event(&bytes, "unused-fresh-id".to_string()).unwrap();
    assert_eq!(event, received);
}

#[test]
fn publish_order_equals_submission_order() {
    let mut p = publisher(100);
    assert!(p.try_submit(msg("e1")));
    assert!(p.try_submit(msg("e2")));
    assert!(p.try_submit(msg("e3")));
    let mut kinds = Vec::new();
    while let Some(bytes) = p.take_wire_message() {
        let e = decode_event(&bytes, "f".to_string()).unwrap();
        kinds.push(e.event_type);
    }
    assert_eq!(kinds, vec!["e1".to_string(), "e2".to_string(), "e3".to_string()]);
}

#[test]
fn mailbox_backpressure_rejects_instead_of_crashing() {
    let mut p = publisher(2);
    assert!(p.try_submit(msg("a")));
    assert!(p.try_submit(msg("b")));
    // The mailbox is full: fire-and-forget submissions are rejected, never
    // lost silently as an accepted-then-dropped message would be.
    assert!(!p.try_submit(msg("c")));
    assert!(!p.try_submit(msg("d")));
    // Draining one frees room again, so a blocking submitter that waits for
    // space never loses its message.
    assert!(p.take_wire_message().is_some());
    assert!(p.try_submit(msg("e")));
    let mut kinds = Vec::new();
    while let Some(bytes) = p.take_wire_message() {
        kinds.push(decode_event(&bytes, "f".to_string()).unwrap().event_type);
    }
    assert_eq!(kinds, vec!["b".to_string(), "e".to_string()]);
}

#[test]
fn actor_accepts_work_only_while_running() {
    let mut p = NatsPublisher::start_new(NatsPublisherConfig {
        client_settings: settings(),
        subject: "s".to_string(),
        mailbox_size: 10,
    });
    // Still starting: the connection is not established yet.
    assert!(!p.try_submit(msg("early")));
    p.connected();
    assert!(p.try_submit(msg("ok")));
    p.stop();
    assert!(!p.try_submit(msg("late")));
}

#[test]
fn backoff_policy_delays_and_growth() {
    let mut policy = backoff(Some(30_000));
    assert_eq!(policy.current_interval_ms, INITIAL_INTERVAL_MS);
    // Base 500: delay is half the base plus the jitter the caller drew.
    assert_eq!(policy.next_backoff(0, 0), Some(250));
    assert_eq!(policy.current_interval_ms, 750);
    assert_eq!(policy.next_backoff(1000, 750), Some(1125));
    assert_eq!(policy.current_interval_ms, 1125);
    // The base interval never grows past the cap.
    for _ in 0..20 {
        let base = policy.current_interval_ms;
        let d = policy.next_backoff(2000, 0).unwrap();
        assert_eq!(d, base / 2);
        assert!(policy.current_interval_ms <= MAX_INTERVAL_MS);
    }
    assert_eq!(policy.current_interval_ms, MAX_INTERVAL_MS);
}

#[test]
fn backoff_stops_exactly_past_the_ceiling() {
    let mut policy = backoff(Some(30_000));
    // At the ceiling it still retries; past it, it stops.
    assert!(policy.next_backoff(30_000, 0).is_some());
    assert!(policy.next_backoff(30_001, 0).is_none());
    // Stopping does not change the policy: asking again gives the same answer.
    assert!(policy.next_backoff(30_001, 0).is_none());
    assert!(policy.next_backoff(29_999, 0).is_some());
}

#[test]
fn backoff_without_ceiling_never_stops() {
    let mut policy = backoff(None);
    for elapsed in [0u64, 1_000_000, u64::MAX] {
        assert!(policy.next_backoff(elapsed, 0).is_some());
    }
}

#[test]
fn exhausted_connect_reports_joined_addresses() {
    let s = NatsClientSettings {
        addresses: vec!["a:1".to_string(), "b:2".to_string(), "c:3".to_string()],
        max_reconnects: None,
        retry_timeout: Some(30_000),
    };
    assert_eq!(s.joined_addresses(), "a:1,b:2,c:3");
    match connect_exhausted(&s) {
        InternalError::NatsServerConnectionError { address } => {
            assert_eq!(address, "a:1,b:2,c:3");
        }
        other => panic!("expected connection error, got {:?}", other),
    }
}

#[test]
fn error_messages_name_their_cause() {
    let e = InternalError::NatsServerConnectionError { address: "x:1".to_string() };
    assert_eq!(e.message(), "Nats server connection failed: x:1");
    let e = InternalError::NatsOperationError { cause: "boom".to_string() };
    assert_eq!(e.message(), "Nats operation failed: boom");
    let e = InternalError::SerdeError { cause: "bad".to_string() };
    assert_eq!(e.message(), "Failed while ser-de Nats message bad");
    let e = InternalError::GenericError { cause: "oops".to_string() };
    assert_eq!(e.message(), "Error: oops");
}
