//! Tests of the envelope codec: exact wire bytes, round trips, trace-id
//! defaulting, and decode failures.

use nats_actor::envelope::{decode_event, encode_event, Event};
use nats_actor::errors::InternalError;
use nats_actor::payload::PayloadValue;

fn sample_event() -> Event {
    Event {
        trace_id: "abc".to_string(),
        event_type: "greeting".to_string(),
        created_ms: 123456,
        payload: vec![
            ("user".to_string(), PayloadValue::Text("Ram".to_string())),
            ("loc".to_string(), PayloadValue::Text("India".to_string())),
        ],
    }
}

#[test]
fn encode_produces_exact_wire_bytes() {
    let e = Event {
        trace_id: "t1".to_string(),
        event_type: "kind".to_string(),
        created_ms: 42,
        payload: Vec::new(),
    };
    let bytes = encode_event(&e);
    assert_eq!(
        bytes,
        b"{\"trace_id\":\"t1\",\"type\":\"kind\",\"created_ms\":42,\"payload\":{}}".to_vec()
    );
}

#[test]
fn encode_scalar_payload_values_exactly() {
    let e = Event {
        trace_id: "t".to_string(),
        event_type: "k".to_string(),
        created_ms: 0,
        payload: vec![
            ("a".to_string(), PayloadValue::Null),
            ("b".to_string(), PayloadValue::Bool(true)),
            ("c".to_string(), PayloadValue::Bool(false)),
            ("d".to_string(), PayloadValue::UInt(18446744073709551615)),
        ],
    };
    let bytes = encode_event(&e);
    assert_eq!(
        String::from_utf8(bytes).unwrap(),
        "{\"trace_id\":\"t\",\"type\":\"k\",\"created_ms\":0,\"payload\":{\"a\":null,\"b\":true,\"c\":false,\"d\":18446744073709551615}}"
    );
}

#[test]
fn round_trip_keeps_every_field() {
    let e = sample_event();
    let bytes = encode_event(&e);
    let back = decode_event(&bytes, "fresh-id".to_string()).unwrap();
    assert_eq!(back, e);
}

#[test]
fn round_trip_replaces_empty_trace_id() {
    let mut e = sample_event();
    e.trace_id = String::new();
    let bytes = encode_event(&e);
    let back = decode_event(&bytes, "fresh-id".to_string()).unwrap();
    assert_eq!(back.trace_id, "fresh-id");
    assert_eq!(back.event_type, e.event_type);
    assert_eq!(back.created_ms, e.created_ms);
    assert_eq!(back.payload, e.payload);
}

#[test]
fn decode_accepts_null_trace_id() {
    let wire = b"{\"trace_id\":null,\"type\":\"k\",\"created_ms\":7,\"payload\":{}}".to_vec();
    let back = decode_event(&wire, "generated".to_string()).unwrap();
    assert_eq!(back.trace_id, "generated");
    assert_eq!(back.event_type, "k");
    assert_eq!(back.created_ms, 7);
    assert!(back.payload.is_empty());
}

#[test]
fn decode_rejects_malformed_input_with_serde_error() {
    let cases: Vec<Vec<u8>> = vec![
        b"".to_vec(),
        b"not json at all".to_vec(),
        b"{\"trace_id\":\"t\"}".to_vec(),
        b"{\"trace_id\":\"t\",\"type\":\"k\",\"created_ms\":-1,\"payload\":{}}".to_vec(),
        b"{\"trace_id\":\"t\",\"type\":\"k\",\"created_ms\":42,\"payload\":{}}trailing".to_vec(),
        b"{\"trace_id\":\"t\",\"type\":\"k\",\"created_ms\":99999999999999999999999,\"payload\":{}}"
            .to_vec(),
    ];
    for wire in cases {
        match decode_event(&wire, "f".to_string()) {
            Err(InternalError::SerdeError { .. }) => {}
            other => panic!("expected SerdeError, got {:?}", other),
        }
    }
}

#[test]
fn constructors_stamp_fresh_trace_ids() {
    let e = Event::new("event_type_demo");
    assert_eq!(e.event_type, "event_type_demo");
    assert_eq!(e.trace_id.len(), 36);
    assert!(e.payload.is_empty());

    let p = vec![("k".to_string(), PayloadValue::UInt(5))];
    let e2 = Event::new_with_payload("other", p.clone());
    assert_eq!(e2.event_type, "other");
    assert_eq!(e2.payload, p);
    assert_eq!(e2.trace_id.len(), 36);
    assert_ne!(e.trace_id, e2.trace_id);
}
