//! Tests of the subscriber loop's decode step, the structured-envelope
//! mapping, and the stream handler.

use nats_actor::envelope::Event as Envelope;
use nats_actor::errors::InternalError;
use nats_actor::handler::EventStreamHandler;
use nats_actor::model::{
    decode_cloud, encode_app, encode_cloud, Event, EventError, MyLocalEvent, PingMessage,
    PongMessage, EVENT_TYPE_PING, EVENT_TYPE_PONG,
};
use nats_actor::subscriber::{
    decode_stream_message, process_messages, NatsStreamMessage, RawMessage,
};

fn stream_msg(data: Vec<u8>) -> NatsStreamMessage {
    NatsStreamMessage { msg: RawMessage { subject: "test_subject".to_string(), data } }
}

#[test]
fn malformed_message_never_stops_later_ones() {
    let good1 = nats_actor::envelope::encode_event(&Envelope {
        trace_id: "t1".to_string(),
        event_type: "first".to_string(),
        created_ms: 1,
        payload: Vec::new(),
    });
    let bad = b"{ this is not an envelope".to_vec();
    let good2 = nats_actor::envelope::encode_event(&Envelope {
        trace_id: "t2".to_string(),
        event_type: "second".to_string(),
        created_ms: 2,
        payload: Vec::new(),
    });
    let msgs = vec![stream_msg(good1), stream_msg(bad), stream_msg(good2)];
    let ids = vec!["f1".to_string(), "f2".to_string(), "f3".to_string()];
    let results = process_messages(&msgs, &ids);
    assert_eq!(results.len(), 3);
    assert_eq!(results[0].as_ref().unwrap().event_type, "first");
    assert!(matches!(results[1], Err(InternalError::SerdeError { .. })));
    assert_eq!(results[2].as_ref().unwrap().event_type, "second");
}

#[test]
fn decode_step_matches_single_decode() {
    let wire = nats_actor::envelope::encode_event(&Envelope {
        trace_id: String::new(),
        event_type: "k".to_string(),
        created_ms: 9,
        payload: Vec::new(),
    });
    let decoded = decode_stream_message(&stream_msg(wire), "fresh".to_string()).unwrap();
    assert_eq!(decoded.trace_id, "fresh");
    assert_eq!(decoded.event_type, "k");
}

#[test]
fn ping_encodes_to_exact_tagged_object() {
    let ping = Event::Ping(PingMessage { trace_id: "123".to_string(), message: "ping".to_string() });
    assert_eq!(
        String::from_utf8(encode_app(&ping)).unwrap(),
        "{\"Ping\":{\"trace_id\":\"123\",\"message\":\"ping\"}}"
    );
    let pong = Event::Pong(PongMessage { trace_id: "100".to_string(), user_id: 1122334455 });
    assert_eq!(
        String::from_utf8(encode_app(&pong)).unwrap(),
        "{\"Pong\":{\"trace_id\":\"100\",\"user_id\":1122334455}}"
    );
}

#[test]
fn ping_round_trips_through_the_structured_envelope() {
    let ping = Event::Ping(PingMessage { trace_id: "123".to_string(), message: "ping".to_string() });
    let env = ping.clone().into_cloud("2024-05-01T12:00:00+00:00".to_string());
    assert_eq!(env.id, "123");
    assert_eq!(env.source, "http://localhost");
    assert_eq!(env.subject, "ping_message");
    assert_eq!(env.event_type, EVENT_TYPE_PING);
    let wire = encode_cloud(&env);
    let back = decode_cloud(&wire).unwrap();
    assert_eq!(back, env);
    let extracted = Event::try_from(back).unwrap();
    assert_eq!(extracted, ping);
}

#[test]
fn pong_round_trips_through_the_structured_envelope() {
    let pong = Event::Pong(PongMessage { trace_id: "trace_pong".to_string(), user_id: 12345 });
    let env = pong.clone().into_cloud_now();
    assert_eq!(env.event_type, EVENT_TYPE_PONG);
    assert!(!env.time.is_empty());
    let back = decode_cloud(&encode_cloud(&env)).unwrap();
    assert_eq!(Event::try_from(back).unwrap(), pong);
}

#[test]
fn cloud_decode_rejects_unknown_variants() {
    let wire = b"{\"specversion\":\"1.0\",\"id\":\"1\",\"source\":\"http://localhost\",\"subject\":\"ping_message\",\"type\":\"com.example.other\",\"time\":\"t\",\"datacontenttype\":\"application/json\",\"data\":{\"Zing\":{\"trace_id\":\"1\"}}}".to_vec();
    assert!(matches!(decode_cloud(&wire), Err(EventError::Parse(_))));
    assert!(matches!(decode_cloud(&b"garbage".to_vec()), Err(EventError::Parse(_))));
}

#[test]
fn local_event_mirrors_the_envelope_data() {
    let ping = Event::Ping(PingMessage { trace_id: "id".to_string(), message: "m".to_string() });
    let env = ping.into_cloud("t".to_string());
    match MyLocalEvent::try_from(env).unwrap() {
        MyLocalEvent::Ping(p) => {
            assert_eq!(p.trace_id, "id");
            assert_eq!(p.message, "m");
        }
        other => panic!("expected ping, got {:?}", other),
    }
}

#[test]
fn test_nominal() {
    let mut handler = EventStreamHandler;
    let result = handler
        .handle_ping(PingMessage { trace_id: "trace_ping".into(), message: "ping".into() })
        .unwrap();
    assert!(result);
    let result = handler
        .handle_pong(PongMessage { trace_id: "trace_pong".into(), user_id: 12345 })
        .unwrap();
    assert!(result);
    let result = handler
        .handle_local(MyLocalEvent::Ping(PingMessage {
            trace_id: "trace_ping".into(),
            message: "ping".into(),
        }))
        .unwrap();
    assert!(result);
}
