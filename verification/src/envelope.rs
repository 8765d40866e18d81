//! The event envelope: the canonical in-process representation of an event
//! and its mapping to and from the broker's wire form.
//!
//! The wire form is a single JSON object
//! `{"trace_id":…,"type":…,"created_ms":…,"payload":{…}}`.  Decoding accepts
//! `null` for the trace id and replaces a null, missing or empty trace id
//! with a caller-supplied fresh one, so a decoded envelope never carries an
//! empty trace id.

use crate::errors::InternalError;
use crate::json::{
    dec_rep, emit_lit, emit_quoted, emit_u64, is_digit, json_safe, lemma_parse_lit,
    lemma_parse_string_quoted, lemma_parse_u64_dec_rep, parse_lit, parse_string, parse_u64,
    parse_u64_at, quoted, scan_string_at, take_lit, QUOTE, RBRACE,
};
use crate::payload::{
    emit_payload, lemma_parse_payload_ser, parse_payload, parse_payload_at, ser_payload,
    view_payload, wf_payload, PVal, Payload,
};
use crate::stamp::{new_trace_id, now_ms};
use vstd::prelude::*;
use vstd::string::*;
use vstd::utf8::{encode_utf8, is_ascii_chars, is_ascii_chars_encode_utf8};

verus! {

/// An event as published from one service to others over the broker.
#[derive(Clone, Debug, PartialEq, Eq)]
pub struct Event {
    pub trace_id: String,
    pub event_type: String,
    pub created_ms: u64,
    pub payload: Payload,
}

/// The mathematical model of an event.
pub struct EventV {
    pub trace_id: Seq<char>,
    pub event_type: Seq<char>,
    pub created_ms: u64,
    pub payload: Seq<(Seq<char>, PVal)>,
}

impl View for Event {
    type V = EventV;

    open spec fn view(&self) -> EventV {
        EventV {
            trace_id: self.trace_id@,
            event_type: self.event_type@,
            created_ms: self.created_ms,
            payload: view_payload(self.payload),
        }
    }
}

/// An envelope whose strings all lie in the wire-safe character range, so
/// that its wire form parses back to exactly the same envelope.
pub open spec fn wf_event(e: EventV) -> bool {
    &&& json_safe(e.trace_id)
    &&& json_safe(e.event_type)
    &&& wf_payload(e.payload)
}

/// A request to the publisher actor: one envelope to put on the wire.
#[derive(Clone, Debug)]
pub struct EventMessage {
    pub event: Event,
}

impl Event {
    /// A fresh envelope with an empty payload: a generated trace id and the
    /// current time, as the publishing side stamps them.
    pub fn new(event_type: &str) -> (r: Event)
        ensures
            r@.event_type == event_type@,
            r@.payload.len() == 0,
            r@.trace_id.len() == 36,
            json_safe(r@.trace_id),
    {
        Event::new_with_payload(event_type, Vec::new())
    }

    /// A fresh envelope carrying the given payload.
    pub fn new_with_payload(event_type: &str, payload: Payload) -> (r: Event)
        ensures
            r@.event_type == event_type@,
            r@.payload == view_payload(payload),
            r@.trace_id.len() == 36,
            json_safe(r@.trace_id),
    {
        let trace_id = new_trace_id();
        let created_ms = now_ms();
        Event { trace_id, event_type: event_type.to_owned(), created_ms, payload }
    }
}

// ------------------------------------------------------------------
// Wire form of the envelope.
// ------------------------------------------------------------------
pub open spec fn ser_event(e: EventV) -> Seq<u8> {
    encode_utf8("{\"trace_id\":"@) + quoted(e.trace_id) + encode_utf8(",\"type\":"@) + quoted(
        e.event_type,
    ) + encode_utf8(",\"created_ms\":"@) + dec_rep(e.created_ms) + encode_utf8(",\"payload\":"@)
        + ser_payload(e.payload) + seq![RBRACE]
}

/// The fields read off the wire; the trace id may have been `null`.
pub struct ParsedEvent {
    pub trace_id: Option<Seq<char>>,
    pub event_type: Seq<char>,
    pub created_ms: u64,
    pub payload: Seq<(Seq<char>, PVal)>,
}

pub open spec fn parse_trace_field(s: Seq<u8>) -> Option<(Option<Seq<char>>, Seq<u8>)> {
    if s.len() > 0 && s[0] == QUOTE {
        match parse_string(s) {
            Some((t, r)) => Some((Some(t), r)),
            None => None,
        }
    } else {
        match parse_lit(s, encode_utf8("null"@)) {
            Some(r) => Some((None, r)),
            None => None,
        }
    }
}

pub open spec fn parse_event(s: Seq<u8>) -> Option<(ParsedEvent, Seq<u8>)> {
    match parse_lit(s, encode_utf8("{\"trace_id\":"@)) {
        None => None,
        Some(r1) => match parse_trace_field(r1) {
            None => None,
            Some((tid, r2)) => match parse_lit(r2, encode_utf8(",\"type\":"@)) {
                None => None,
                Some(r3) => match parse_string(r3) {
                    None => None,
                    Some((ty, r4)) => match parse_lit(r4, encode_utf8(",\"created_ms\":"@)) {
                        None => None,
                        Some(r5) => match parse_u64(r5) {
                            None => None,
                            Some((ms, r6)) => match parse_lit(r6, encode_utf8(",\"payload\":"@)) {
                                None => None,
                                Some(r7) => match parse_payload(r7) {
                                    None => None,
                                    Some((pl, r8)) => if r8.len() > 0 && r8[0] == RBRACE {
                                        Some(
                                            (
                                                ParsedEvent {
                                                    trace_id: tid,
                                                    event_type: ty,
                                                    created_ms: ms,
                                                    payload: pl,
                                                },
                                                r8.skip(1),
                                            ),
                                        )
                                    } else {
                                        None
                                    },
                                },
                            },
                        },
                    },
                },
            },
        },
    }
}

/// A null, missing or empty trace id is replaced by the fresh one.
pub open spec fn resolve_trace(tid: Option<Seq<char>>, fresh: Seq<char>) -> Seq<char> {
    match tid {
        Some(t) => if t.len() == 0 {
            fresh
        } else {
            t
        },
        None => fresh,
    }
}

/// What decoding a whole wire message yields: the message must be exactly
/// one envelope, nothing trailing.
pub open spec fn spec_decode_event(s: Seq<u8>, fresh: Seq<char>) -> Option<EventV> {
    match parse_event(s) {
        Some((pe, rest)) => if rest.len() == 0 {
            Some(
                EventV {
                    trace_id: resolve_trace(pe.trace_id, fresh),
                    event_type: pe.event_type,
                    created_ms: pe.created_ms,
                    payload: pe.payload,
                },
            )
        } else {
            None
        },
        None => None,
    }
}

// ------------------------------------------------------------------
// The round-trip law of the envelope codec.
// ------------------------------------------------------------------
/// Decoding the encoding of any well-formed envelope yields an envelope with
/// equal type, timestamp and payload; the trace id is kept when it was
/// non-empty and replaced by the supplied fresh id otherwise.
#[verifier::rlimit(100)]
pub proof fn lemma_event_round_trip(e: EventV, fresh: Seq<char>)
    requires
        wf_event(e),
    ensures
        spec_decode_event(ser_event(e), fresh) == Some(
            EventV {
                trace_id: if e.trace_id.len() == 0 {
                    fresh
                } else {
                    e.trace_id
                },
                event_type: e.event_type,
                created_ms: e.created_ms,
                payload: e.payload,
            },
        ),
{
    let k1 = encode_utf8("{\"trace_id\":"@);
    let k2 = encode_utf8(",\"type\":"@);
    let k3 = encode_utf8(",\"created_ms\":"@);
    let k4 = encode_utf8(",\"payload\":"@);
    let s = ser_event(e);
    let r1 = quoted(e.trace_id) + k2 + quoted(e.event_type) + k3 + dec_rep(e.created_ms) + k4
        + ser_payload(e.payload) + seq![RBRACE];
    assert(s =~= k1 + r1);
    lemma_parse_lit(k1, r1);
    let r2 = k2 + quoted(e.event_type) + k3 + dec_rep(e.created_ms) + k4 + ser_payload(e.payload)
        + seq![RBRACE];
    assert(r1 =~= quoted(e.trace_id) + r2);
    assert(r1[0] == QUOTE);
    lemma_parse_string_quoted(e.trace_id, r2);
    assert(parse_trace_field(r1) == Some((Some(e.trace_id), r2)));
    let r3 = quoted(e.event_type) + k3 + dec_rep(e.created_ms) + k4 + ser_payload(e.payload)
        + seq![RBRACE];
    assert(r2 =~= k2 + r3);
    lemma_parse_lit(k2, r3);
    let r4 = k3 + dec_rep(e.created_ms) + k4 + ser_payload(e.payload) + seq![RBRACE];
    assert(r3 =~= quoted(e.event_type) + r4);
    lemma_parse_string_quoted(e.event_type, r4);
    let r5 = dec_rep(e.created_ms) + k4 + ser_payload(e.payload) + seq![RBRACE];
    assert(r4 =~= k3 + r5);
    lemma_parse_lit(k3, r5);
    let r6 = k4 + ser_payload(e.payload) + seq![RBRACE];
    assert(r5 =~= dec_rep(e.created_ms) + r6);
    assert(k4.len() > 0 && !is_digit(k4[0])) by {
        reveal_strlit(",\"payload\":");
        assert(is_ascii_chars(",\"payload\":"@));
        is_ascii_chars_encode_utf8(",\"payload\":"@);
        assert(",\"payload\":"@[0] == ',');
        assert(k4[0] == ',' as u8);
    }
    assert(r6[0] == k4[0]);
    lemma_parse_u64_dec_rep(e.created_ms, r6);
    let r7 = ser_payload(e.payload) + seq![RBRACE];
    assert(r6 =~= k4 + r7);
    lemma_parse_lit(k4, r7);
    lemma_parse_payload_ser(e.payload, seq![RBRACE]);
    let r8 = seq![RBRACE];
    assert(r8[0] == RBRACE);
    assert(r8.skip(1) =~= Seq::<u8>::empty());
}

// ------------------------------------------------------------------
// Executable envelope codec.
// ------------------------------------------------------------------
/// Writes the wire form of an envelope.
pub fn encode_event(e: &Event) -> (r: Vec<u8>)
    ensures
        r@ == ser_event(e@),
{
    let mut out: Vec<u8> = Vec::new();
    emit_lit(&mut out, "{\"trace_id\":");
    emit_quoted(&mut out, e.trace_id.as_str());
    emit_lit(&mut out, ",\"type\":");
    emit_quoted(&mut out, e.event_type.as_str());
    emit_lit(&mut out, ",\"created_ms\":");
    emit_u64(&mut out, e.created_ms);
    emit_lit(&mut out, ",\"payload\":");
    emit_payload(&mut out, &e.payload);
    out.push(RBRACE);
    proof {
        assert(out@ =~= ser_event(e@));
    }
    out
}

/// Reads one envelope off the wire.  Succeeds exactly on a whole canonical
/// envelope; any other input yields a `SerdeError`.  A null or empty trace
/// id is replaced by `fresh`.
pub fn decode_event(data: &Vec<u8>, fresh: String) -> (r: Result<Event, InternalError>)
    ensures
        match r {
            Ok(e) => spec_decode_event(data@, fresh@) == Some(e@),
            Err(err) => spec_decode_event(data@, fresh@) is None && err is SerdeError,
        },
{
    proof {
        assert(data@.skip(0) =~= data@);
    }
    let i0 = match take_lit(data, 0, "{\"trace_id\":") {
        Some(j) => j,
        None => {
            return Err(decode_failure());
        },
    };
    let tid_pair: (Option<String>, usize) = if i0 < data.len() && data[i0] == QUOTE {
        proof {
            assert(data@.skip(i0 as int)[0] == data@[i0 as int]);
        }
        match scan_string_at(data, i0) {
            Some(p) => (Some(p.0), p.1),
            None => {
                return Err(decode_failure());
            },
        }
    } else {
        proof {
            if i0 < data@.len() {
                assert(data@.skip(i0 as int)[0] == data@[i0 as int]);
            }
        }
        match take_lit(data, i0, "null") {
            Some(j) => (None, j),
            None => {
                return Err(decode_failure());
            },
        }
    };
    let (tid_opt, i1) = tid_pair;
    let i2 = match take_lit(data, i1, ",\"type\":") {
        Some(j) => j,
        None => {
            return Err(decode_failure());
        },
    };
    let ty_pair = match scan_string_at(data, i2) {
        Some(p) => p,
        None => {
            return Err(decode_failure());
        },
    };
    let (event_type, i3) = ty_pair;
    let i4 = match take_lit(data, i3, ",\"created_ms\":") {
        Some(j) => j,
        None => {
            return Err(decode_failure());
        },
    };
    let ms_pair = match parse_u64_at(data, i4) {
        Some(p) => p,
        None => {
            return Err(decode_failure());
        },
    };
    let (created_ms, i5) = ms_pair;
    let i6 = match take_lit(data, i5, ",\"payload\":") {
        Some(j) => j,
        None => {
            return Err(decode_failure());
        },
    };
    let pl_pair = match parse_payload_at(data, i6) {
        Some(p) => p,
        None => {
            return Err(decode_failure());
        },
    };
    let (payload, i7) = pl_pair;
    if !(i7 < data.len() && data[i7] == RBRACE) {
        proof {
            if i7 < data@.len() {
                assert(data@.skip(i7 as int)[0] == data@[i7 as int]);
            }
        }
        return Err(decode_failure());
    }
    proof {
        assert(data@.skip(i7 as int)[0] == data@[i7 as int]);
        assert(data@.skip(i7 as int).skip(1) =~= data@.skip(i7 + 1));
    }
    if i7 + 1 != data.len() {
        return Err(decode_failure());
    }
    let trace_id: String = match tid_opt {
        Some(t) => {
            if t.unicode_len() == 0 {
                fresh
            } else {
                t
            }
        },
        None => fresh,
    };
    Ok(Event { trace_id, event_type, created_ms, payload })
}

/// The error reported for any message that is not one whole envelope.
fn decode_failure() -> (r: InternalError)
    ensures
        r is SerdeError,
{
    InternalError::SerdeError { cause: String::from_str("malformed event envelope") }
}

} // verus!
