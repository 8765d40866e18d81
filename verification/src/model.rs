//! The application's event model for the structured-envelope deployment: a
//! discriminated ping/pong union, and the standards-based structured
//! envelope (source, id, subject, type, timestamp, JSON data payload) that
//! wraps it on the wire.

use crate::json::{
    dec_rep, emit_lit, emit_quoted, emit_u64, is_digit, json_safe, lemma_parse_lit,
    lemma_parse_string_quoted, lemma_parse_u64_dec_rep, parse_lit, parse_string, parse_u64,
    parse_u64_at, quoted, scan_string_at, take_lit, QUOTE, RBRACE,
};
use vstd::prelude::*;
use vstd::string::*;
use vstd::utf8::{encode_utf8, is_ascii_chars, is_ascii_chars_encode_utf8};

verus! {

pub const EVENT_TYPE_PING: &'static str = "com.example.ping";

pub const EVENT_TYPE_PONG: &'static str = "com.example.pong";

/// Everything that can go wrong while mapping events to and from the
/// structured envelope.
#[derive(Clone, Debug, PartialEq, Eq)]
pub enum EventError {
    /// The data payload is missing, not JSON, or matches no known variant.
    Parse(String),
    /// The envelope could not be built.
    Builder(String),
    /// The event payload could not be encoded.
    PayloadEncoder(String),
    /// The type tag names no known event kind.
    UnknownType(String),
    /// The structured-envelope layer itself failed.
    CloudEvent(String),
    /// Connecting to the broker failed.
    Connection(String),
    /// Sending over the broker failed.
    Send(String),
}

#[derive(Clone, Debug, PartialEq, Eq)]
pub struct PingMessage {
    pub trace_id: String,
    pub message: String,
}

#[derive(Clone, Debug, PartialEq, Eq)]
pub struct PongMessage {
    pub trace_id: String,
    pub user_id: u64,
}

pub struct PingV {
    pub trace_id: Seq<char>,
    pub message: Seq<char>,
}

pub struct PongV {
    pub trace_id: Seq<char>,
    pub user_id: u64,
}

impl View for PingMessage {
    type V = PingV;

    open spec fn view(&self) -> PingV {
        PingV { trace_id: self.trace_id@, message: self.message@ }
    }
}

impl View for PongMessage {
    type V = PongV;

    open spec fn view(&self) -> PongV {
        PongV { trace_id: self.trace_id@, user_id: self.user_id }
    }
}

/// The discriminated event union carried as the envelope's data payload.
#[derive(Clone, Debug, PartialEq, Eq)]
pub enum Event {
    Ping(PingMessage),
    Pong(PongMessage),
}

/// A locally-defined mirror of the event union, as a subscriber shell
/// defines for its own dispatching.
#[derive(Clone, Debug, PartialEq, Eq)]
pub enum MyLocalEvent {
    Ping(PingMessage),
    Pong(PongMessage),
}

impl View for MyLocalEvent {
    type V = AppEventV;

    open spec fn view(&self) -> AppEventV {
        match self {
            MyLocalEvent::Ping(p) => AppEventV::Ping(p@),
            MyLocalEvent::Pong(p) => AppEventV::Pong(p@),
        }
    }
}

pub enum AppEventV {
    Ping(PingV),
    Pong(PongV),
}

impl View for Event {
    type V = AppEventV;

    open spec fn view(&self) -> AppEventV {
        match self {
            Event::Ping(p) => AppEventV::Ping(p@),
            Event::Pong(p) => AppEventV::Pong(p@),
        }
    }
}

/// An event whose strings lie in the wire-safe range.
pub open spec fn wf_app(e: AppEventV) -> bool {
    match e {
        AppEventV::Ping(p) => json_safe(p.trace_id) && json_safe(p.message),
        AppEventV::Pong(p) => json_safe(p.trace_id),
    }
}

// ------------------------------------------------------------------
// Wire form of the event union: an externally tagged JSON object.
// ------------------------------------------------------------------
pub open spec fn ser_app(e: AppEventV) -> Seq<u8> {
    match e {
        AppEventV::Ping(p) => encode_utf8("{\"Ping\":{\"trace_id\":"@) + quoted(p.trace_id)
            + encode_utf8(",\"message\":"@) + quoted(p.message) + encode_utf8("}}"@),
        AppEventV::Pong(p) => encode_utf8("{\"Pong\":{\"trace_id\":"@) + quoted(p.trace_id)
            + encode_utf8(",\"user_id\":"@) + dec_rep(p.user_id) + encode_utf8("}}"@),
    }
}

pub open spec fn parse_ping_body(r1: Seq<u8>) -> Option<(AppEventV, Seq<u8>)> {
    match parse_string(r1) {
        None => None,
        Some((tid, r2)) => match parse_lit(r2, encode_utf8(",\"message\":"@)) {
            None => None,
            Some(r3) => match parse_string(r3) {
                None => None,
                Some((msg, r4)) => match parse_lit(r4, encode_utf8("}}"@)) {
                    None => None,
                    Some(r5) => Some((AppEventV::Ping(PingV { trace_id: tid, message: msg }), r5)),
                },
            },
        },
    }
}

pub open spec fn parse_pong_body(r1: Seq<u8>) -> Option<(AppEventV, Seq<u8>)> {
    match parse_string(r1) {
        None => None,
        Some((tid, r2)) => match parse_lit(r2, encode_utf8(",\"user_id\":"@)) {
            None => None,
            Some(r3) => match parse_u64(r3) {
                None => None,
                Some((uid, r4)) => match parse_lit(r4, encode_utf8("}}"@)) {
                    None => None,
                    Some(r5) => Some((AppEventV::Pong(PongV { trace_id: tid, user_id: uid }), r5)),
                },
            },
        },
    }
}

pub open spec fn parse_app(s: Seq<u8>) -> Option<(AppEventV, Seq<u8>)> {
    match parse_lit(s, encode_utf8("{\"Ping\":{\"trace_id\":"@)) {
        Some(r1) => parse_ping_body(r1),
        None => match parse_lit(s, encode_utf8("{\"Pong\":{\"trace_id\":"@)) {
            Some(r1) => parse_pong_body(r1),
            None => None,
        },
    }
}

/// The two variant tags differ, so the parser never confuses them.
proof fn lemma_tag_bytes()
    ensures
        encode_utf8("{\"Ping\":{\"trace_id\":"@).len() == 20,
        encode_utf8("{\"Pong\":{\"trace_id\":"@).len() == 20,
        encode_utf8("{\"Ping\":{\"trace_id\":"@)[3] == 'i' as u8,
        encode_utf8("{\"Pong\":{\"trace_id\":"@)[3] == 'o' as u8,
        'i' as u8 != 'o' as u8,
{
    reveal_strlit("{\"Ping\":{\"trace_id\":");
    reveal_strlit("{\"Pong\":{\"trace_id\":");
    assert(is_ascii_chars("{\"Ping\":{\"trace_id\":"@));
    assert(is_ascii_chars("{\"Pong\":{\"trace_id\":"@));
    is_ascii_chars_encode_utf8("{\"Ping\":{\"trace_id\":"@);
    is_ascii_chars_encode_utf8("{\"Pong\":{\"trace_id\":"@);
}

/// Parsing the wire form of any well-formed event yields it back exactly.
#[verifier::rlimit(100)]
pub proof fn lemma_parse_app_ser(e: AppEventV, rest: Seq<u8>)
    requires
        wf_app(e),
    ensures
        parse_app(ser_app(e) + rest) == Some((e, rest)),
{
    let s = ser_app(e) + rest;
    lemma_tag_bytes();
    match e {
        AppEventV::Ping(p) => {
            let k1 = encode_utf8("{\"Ping\":{\"trace_id\":"@);
            let k2 = encode_utf8(",\"message\":"@);
            let k3 = encode_utf8("}}"@);
            let r1 = quoted(p.trace_id) + k2 + quoted(p.message) + k3 + rest;
            assert(s =~= k1 + r1);
            lemma_parse_lit(k1, r1);
            let r2 = k2 + quoted(p.message) + k3 + rest;
            assert(r1 =~= quoted(p.trace_id) + r2);
            lemma_parse_string_quoted(p.trace_id, r2);
            let r3 = quoted(p.message) + k3 + rest;
            assert(r2 =~= k2 + r3);
            lemma_parse_lit(k2, r3);
            let r4 = k3 + rest;
            assert(r3 =~= quoted(p.message) + r4);
            lemma_parse_string_quoted(p.message, r4);
            lemma_parse_lit(k3, rest);
        },
        AppEventV::Pong(p) => {
            let kping = encode_utf8("{\"Ping\":{\"trace_id\":"@);
            let k1 = encode_utf8("{\"Pong\":{\"trace_id\":"@);
            let k2 = encode_utf8(",\"user_id\":"@);
            let k3 = encode_utf8("}}"@);
            let r1 = quoted(p.trace_id) + k2 + dec_rep(p.user_id) + k3 + rest;
            assert(s =~= k1 + r1);
            assert(s.len() >= 20);
            assert(s[3] == k1[3]);
            assert(s.take(20)[3] == s[3]);
            assert(s.take(20) != kping);
            assert(parse_lit(s, kping) is None);
            lemma_parse_lit(k1, r1);
            let r2 = k2 + dec_rep(p.user_id) + k3 + rest;
            assert(r1 =~= quoted(p.trace_id) + r2);
            lemma_parse_string_quoted(p.trace_id, r2);
            let r3 = dec_rep(p.user_id) + k3 + rest;
            assert(r2 =~= k2 + r3);
            lemma_parse_lit(k2, r3);
            let r4 = k3 + rest;
            assert(r3 =~= dec_rep(p.user_id) + r4);
            assert(k3.len() > 0 && !is_digit(k3[0])) by {
                reveal_strlit("}}");
                assert(is_ascii_chars("}}"@));
                is_ascii_chars_encode_utf8("}}"@);
                assert("}}"@[0] == '}');
                assert(k3[0] == '}' as u8);
            }
            assert(r4[0] == k3[0]);
            lemma_parse_u64_dec_rep(p.user_id, r4);
            lemma_parse_lit(k3, rest);
        },
    }
}

// ------------------------------------------------------------------
// The structured envelope.
// ------------------------------------------------------------------
/// The structured cross-system envelope: metadata plus the event union as
/// its JSON data payload, held here in decoded form.
#[derive(Clone, Debug, PartialEq, Eq)]
pub struct CloudEnvelope {
    pub id: String,
    pub source: String,
    pub subject: String,
    pub event_type: String,
    pub time: String,
    pub data: Event,
}

pub struct CloudEnvelopeV {
    pub id: Seq<char>,
    pub source: Seq<char>,
    pub subject: Seq<char>,
    pub event_type: Seq<char>,
    pub time: Seq<char>,
    pub data: AppEventV,
}

impl View for CloudEnvelope {
    type V = CloudEnvelopeV;

    open spec fn view(&self) -> CloudEnvelopeV {
        CloudEnvelopeV {
            id: self.id@,
            source: self.source@,
            subject: self.subject@,
            event_type: self.event_type@,
            time: self.time@,
            data: self.data@,
        }
    }
}

pub open spec fn wf_cloud(c: CloudEnvelopeV) -> bool {
    &&& json_safe(c.id)
    &&& json_safe(c.source)
    &&& json_safe(c.subject)
    &&& json_safe(c.event_type)
    &&& json_safe(c.time)
    &&& wf_app(c.data)
}

pub open spec fn ser_cloud(c: CloudEnvelopeV) -> Seq<u8> {
    encode_utf8("{\"specversion\":\"1.0\",\"id\":"@) + quoted(c.id) + encode_utf8(",\"source\":"@)
        + quoted(c.source) + encode_utf8(",\"subject\":"@) + quoted(c.subject) + encode_utf8(
        ",\"type\":"@,
    ) + quoted(c.event_type) + encode_utf8(",\"time\":"@) + quoted(c.time) + encode_utf8(
        ",\"datacontenttype\":\"application/json\",\"data\":"@,
    ) + ser_app(c.data) + seq![RBRACE]
}

/// The envelope's five metadata strings, in wire order.
pub struct CloudMeta {
    pub id: Seq<char>,
    pub source: Seq<char>,
    pub subject: Seq<char>,
    pub event_type: Seq<char>,
    pub time: Seq<char>,
}

/// Reads the metadata half of the envelope, up to and including the time
/// field.
pub open spec fn parse_cloud_meta(s: Seq<u8>) -> Option<(CloudMeta, Seq<u8>)> {
    match parse_lit(s, encode_utf8("{\"specversion\":\"1.0\",\"id\":"@)) {
        None => None,
        Some(r1) => match parse_string(r1) {
            None => None,
            Some((id, r2)) => match parse_lit(r2, encode_utf8(",\"source\":"@)) {
                None => None,
                Some(r3) => match parse_string(r3) {
                    None => None,
                    Some((source, r4)) => match parse_lit(r4, encode_utf8(",\"subject\":"@)) {
                        None => None,
                        Some(r5) => match parse_string(r5) {
                            None => None,
                            Some((subject, r6)) => match parse_lit(r6, encode_utf8(",\"type\":"@)) {
                                None => None,
                                Some(r7) => match parse_string(r7) {
                                    None => None,
                                    Some((ty, r8)) => match parse_lit(
                                        r8,
                                        encode_utf8(",\"time\":"@),
                                    ) {
                                        None => None,
                                        Some(r9) => match parse_string(r9) {
                                            None => None,
                                            Some((time, r10)) => Some(
                                                (
                                                    CloudMeta {
                                                        id: id,
                                                        source: source,
                                                        subject: subject,
                                                        event_type: ty,
                                                        time: time,
                                                    },
                                                    r10,
                                                ),
                                            ),
                                        },
                                    },
                                },
                            },
                        },
                    },
                },
            },
        },
    }
}

pub open spec fn parse_cloud(s: Seq<u8>) -> Option<(CloudEnvelopeV, Seq<u8>)> {
    match parse_cloud_meta(s) {
        None => None,
        Some((m, r10)) => match parse_lit(
            r10,
            encode_utf8(",\"datacontenttype\":\"application/json\",\"data\":"@),
        ) {
            None => None,
            Some(r11) => match parse_app(r11) {
                None => None,
                Some((data, r12)) => if r12.len() > 0 && r12[0] == RBRACE {
                    Some(
                        (
                            CloudEnvelopeV {
                                id: m.id,
                                source: m.source,
                                subject: m.subject,
                                event_type: m.event_type,
                                time: m.time,
                                data: data,
                            },
                            r12.skip(1),
                        ),
                    )
                } else {
                    None
                },
            },
        },
    }
}

/// The wire form of the metadata half.
pub open spec fn ser_cloud_meta(c: CloudEnvelopeV) -> Seq<u8> {
    encode_utf8("{\"specversion\":\"1.0\",\"id\":"@) + quoted(c.id) + encode_utf8(",\"source\":"@)
        + quoted(c.source) + encode_utf8(",\"subject\":"@) + quoted(c.subject) + encode_utf8(
        ",\"type\":"@,
    ) + quoted(c.event_type) + encode_utf8(",\"time\":"@) + quoted(c.time)
}

/// Parsing the metadata half of an encoded envelope yields its fields.
#[verifier::rlimit(100)]
proof fn lemma_cloud_meta_round_trip(c: CloudEnvelopeV, rest: Seq<u8>)
    requires
        wf_cloud(c),
    ensures
        parse_cloud_meta(ser_cloud_meta(c) + rest) == Some(
            (
                CloudMeta {
                    id: c.id,
                    source: c.source,
                    subject: c.subject,
                    event_type: c.event_type,
                    time: c.time,
                },
                rest,
            ),
        ),
{
    let k1 = encode_utf8("{\"specversion\":\"1.0\",\"id\":"@);
    let k2 = encode_utf8(",\"source\":"@);
    let k3 = encode_utf8(",\"subject\":"@);
    let k4 = encode_utf8(",\"type\":"@);
    let k5 = encode_utf8(",\"time\":"@);
    let s = ser_cloud_meta(c) + rest;
    let r1 = quoted(c.id) + k2 + quoted(c.source) + k3 + quoted(c.subject) + k4 + quoted(
        c.event_type,
    ) + k5 + quoted(c.time) + rest;
    assert(s =~= k1 + r1);
    lemma_parse_lit(k1, r1);
    let r2 = k2 + quoted(c.source) + k3 + quoted(c.subject) + k4 + quoted(c.event_type) + k5
        + quoted(c.time) + rest;
    assert(r1 =~= quoted(c.id) + r2);
    lemma_parse_string_quoted(c.id, r2);
    let r3 = quoted(c.source) + k3 + quoted(c.subject) + k4 + quoted(c.event_type) + k5 + quoted(
        c.time,
    ) + rest;
    assert(r2 =~= k2 + r3);
    lemma_parse_lit(k2, r3);
    let r4 = k3 + quoted(c.subject) + k4 + quoted(c.event_type) + k5 + quoted(c.time) + rest;
    assert(r3 =~= quoted(c.source) + r4);
    lemma_parse_string_quoted(c.source, r4);
    let r5 = quoted(c.subject) + k4 + quoted(c.event_type) + k5 + quoted(c.time) + rest;
    assert(r4 =~= k3 + r5);
    lemma_parse_lit(k3, r5);
    let r6 = k4 + quoted(c.event_type) + k5 + quoted(c.time) + rest;
    assert(r5 =~= quoted(c.subject) + r6);
    lemma_parse_string_quoted(c.subject, r6);
    let r7 = quoted(c.event_type) + k5 + quoted(c.time) + rest;
    assert(r6 =~= k4 + r7);
    lemma_parse_lit(k4, r7);
    let r8 = k5 + quoted(c.time) + rest;
    assert(r7 =~= quoted(c.event_type) + r8);
    lemma_parse_string_quoted(c.event_type, r8);
    let r9 = quoted(c.time) + rest;
    assert(r8 =~= k5 + r9);
    lemma_parse_lit(k5, r9);
    lemma_parse_string_quoted(c.time, rest);
}

/// What decoding a whole wire message yields: exactly one structured
/// envelope, nothing trailing.
pub open spec fn spec_decode_cloud(s: Seq<u8>) -> Option<CloudEnvelopeV> {
    match parse_cloud(s) {
        Some((c, rest)) => if rest.len() == 0 {
            Some(c)
        } else {
            None
        },
        None => None,
    }
}

/// Decoding the encoding of any well-formed structured envelope yields it
/// back exactly — in particular the event union it carries.
pub proof fn lemma_cloud_round_trip(c: CloudEnvelopeV)
    requires
        wf_cloud(c),
    ensures
        spec_decode_cloud(ser_cloud(c)) == Some(c),
{
    let k6 = encode_utf8(",\"datacontenttype\":\"application/json\",\"data\":"@);
    let tail = k6 + ser_app(c.data) + seq![RBRACE];
    assert(ser_cloud(c) =~= ser_cloud_meta(c) + tail);
    lemma_cloud_meta_round_trip(c, tail);
    let r11 = ser_app(c.data) + seq![RBRACE];
    assert(tail =~= k6 + r11);
    lemma_parse_lit(k6, r11);
    lemma_parse_app_ser(c.data, seq![RBRACE]);
    let r12 = seq![RBRACE];
    assert(r12[0] == RBRACE);
    assert(r12.skip(1) =~= Seq::<u8>::empty());
}

// ------------------------------------------------------------------
// Executable codec for the event union and the structured envelope.
// ------------------------------------------------------------------
/// Appends the wire form of an event union value.
pub fn emit_app(out: &mut Vec<u8>, e: &Event)
    ensures
        final(out)@ == old(out)@ + ser_app(e@),
{
    match e {
        Event::Ping(p) => {
            emit_lit(out, "{\"Ping\":{\"trace_id\":");
            emit_quoted(out, p.trace_id.as_str());
            emit_lit(out, ",\"message\":");
            emit_quoted(out, p.message.as_str());
            emit_lit(out, "}}");
            proof {
                assert(out@ =~= old(out)@ + ser_app(e@));
            }
        },
        Event::Pong(p) => {
            emit_lit(out, "{\"Pong\":{\"trace_id\":");
            emit_quoted(out, p.trace_id.as_str());
            emit_lit(out, ",\"user_id\":");
            emit_u64(out, p.user_id);
            emit_lit(out, "}}");
            proof {
                assert(out@ =~= old(out)@ + ser_app(e@));
            }
        },
    }
}

/// The wire form of an event union value on its own.
pub fn encode_app(e: &Event) -> (r: Vec<u8>)
    ensures
        r@ == ser_app(e@),
{
    let mut out: Vec<u8> = Vec::new();
    emit_app(&mut out, e);
    proof {
        assert(out@ =~= ser_app(e@));
    }
    out
}

/// Reads one event union value starting at position `i`.
pub fn parse_app_at(v: &Vec<u8>, i: usize) -> (r: Option<(Event, usize)>)
    requires
        i <= v@.len(),
    ensures
        match r {
            Some(p) => {
                &&& i < p.1 <= v@.len()
                &&& parse_app(v@.skip(i as int)) == Some((p.0@, v@.skip(p.1 as int)))
            },
            None => parse_app(v@.skip(i as int)) is None,
        },
{
    proof {
        lemma_tag_bytes();
    }
    match take_lit(v, i, "{\"Ping\":{\"trace_id\":") {
        Some(j1) => {
            let tid_pair = match scan_string_at(v, j1) {
                Some(p) => p,
                None => {
                    return None;
                },
            };
            let (trace_id, j2) = tid_pair;
            let j3 = match take_lit(v, j2, ",\"message\":") {
                Some(j) => j,
                None => {
                    return None;
                },
            };
            let msg_pair = match scan_string_at(v, j3) {
                Some(p) => p,
                None => {
                    return None;
                },
            };
            let (message, j4) = msg_pair;
            let j5 = match take_lit(v, j4, "}}") {
                Some(j) => j,
                None => {
                    return None;
                },
            };
            Some((Event::Ping(PingMessage { trace_id, message }), j5))
        },
        None => {
            match take_lit(v, i, "{\"Pong\":{\"trace_id\":") {
                Some(j1) => {
                    let tid_pair = match scan_string_at(v, j1) {
                        Some(p) => p,
                        None => {
                            return None;
                        },
                    };
                    let (trace_id, j2) = tid_pair;
                    let j3 = match take_lit(v, j2, ",\"user_id\":") {
                        Some(j) => j,
                        None => {
                            return None;
                        },
                    };
                    let uid_pair = match parse_u64_at(v, j3) {
                        Some(p) => p,
                        None => {
                            return None;
                        },
                    };
                    let (user_id, j4) = uid_pair;
                    let j5 = match take_lit(v, j4, "}}") {
                        Some(j) => j,
                        None => {
                            return None;
                        },
                    };
                    Some((Event::Pong(PongMessage { trace_id, user_id }), j5))
                },
                None => None,
            }
        },
    }
}

/// Writes the wire form of a structured envelope.
pub fn encode_cloud(c: &CloudEnvelope) -> (r: Vec<u8>)
    ensures
        r@ == ser_cloud(c@),
{
    let mut out: Vec<u8> = Vec::new();
    emit_lit(&mut out, "{\"specversion\":\"1.0\",\"id\":");
    emit_quoted(&mut out, c.id.as_str());
    emit_lit(&mut out, ",\"source\":");
    emit_quoted(&mut out, c.source.as_str());
    emit_lit(&mut out, ",\"subject\":");
    emit_quoted(&mut out, c.subject.as_str());
    emit_lit(&mut out, ",\"type\":");
    emit_quoted(&mut out, c.event_type.as_str());
    emit_lit(&mut out, ",\"time\":");
    emit_quoted(&mut out, c.time.as_str());
    emit_lit(&mut out, ",\"datacontenttype\":\"application/json\",\"data\":");
    emit_app(&mut out, &c.data);
    out.push(RBRACE);
    proof {
        assert(out@ =~= ser_cloud(c@));
    }
    out
}

/// Reads one whole structured envelope off the wire.  Succeeds exactly on a
/// whole canonical envelope carrying a known event variant; everything else
/// yields a `Parse` error.
pub fn decode_cloud(data: &Vec<u8>) -> (r: Result<CloudEnvelope, EventError>)
    ensures
        match r {
            Ok(c) => spec_decode_cloud(data@) == Some(c@),
            Err(err) => spec_decode_cloud(data@) is None && err is Parse,
        },
{
    proof {
        assert(data@.skip(0) =~= data@);
    }
    let i1 = match take_lit(data, 0, "{\"specversion\":\"1.0\",\"id\":") {
        Some(j) => j,
        None => {
            return Err(cloud_decode_failure());
        },
    };
    let id_pair = match scan_string_at(data, i1) {
        Some(p) => p,
        None => {
            return Err(cloud_decode_failure());
        },
    };
    let (id, i2) = id_pair;
    let i3 = match take_lit(data, i2, ",\"source\":") {
        Some(j) => j,
        None => {
            return Err(cloud_decode_failure());
        },
    };
    let source_pair = match scan_string_at(data, i3) {
        Some(p) => p,
        None => {
            return Err(cloud_decode_failure());
        },
    };
    let (source, i4) = source_pair;
    let i5 = match take_lit(data, i4, ",\"subject\":") {
        Some(j) => j,
        None => {
            return Err(cloud_decode_failure());
        },
    };
    let subject_pair = match scan_string_at(data, i5) {
        Some(p) => p,
        None => {
            return Err(cloud_decode_failure());
        },
    };
    let (subject, i6) = subject_pair;
    let i7 = match take_lit(data, i6, ",\"type\":") {
        Some(j) => j,
        None => {
            return Err(cloud_decode_failure());
        },
    };
    let ty_pair = match scan_string_at(data, i7) {
        Some(p) => p,
        None => {
            return Err(cloud_decode_failure());
        },
    };
    let (event_type, i8) = ty_pair;
    let i9 = match take_lit(data, i8, ",\"time\":") {
        Some(j) => j,
        None => {
            return Err(cloud_decode_failure());
        },
    };
    let time_pair = match scan_string_at(data, i9) {
        Some(p) => p,
        None => {
            return Err(cloud_decode_failure());
        },
    };
    let (time, i10) = time_pair;
    let i11 = match take_lit(data, i10, ",\"datacontenttype\":\"application/json\",\"data\":") {
        Some(j) => j,
        None => {
            return Err(cloud_decode_failure());
        },
    };
    let data_pair = match parse_app_at(data, i11) {
        Some(p) => p,
        None => {
            return Err(cloud_decode_failure());
        },
    };
    let (event, i12) = data_pair;
    if !(i12 < data.len() && data[i12] == RBRACE) {
        proof {
            if i12 < data@.len() {
                assert(data@.skip(i12 as int)[0] == data@[i12 as int]);
            }
        }
        return Err(cloud_decode_failure());
    }
    proof {
        assert(data@.skip(i12 as int)[0] == data@[i12 as int]);
        assert(data@.skip(i12 as int).skip(1) =~= data@.skip(i12 + 1));
    }
    if i12 + 1 != data.len() {
        return Err(cloud_decode_failure());
    }
    Ok(CloudEnvelope { id, source, subject, event_type, time, data: event })
}

/// The error reported for any message that is not one whole structured
/// envelope with a known event variant.
fn cloud_decode_failure() -> (r: EventError)
    ensures
        r is Parse,
{
    EventError::Parse(String::from_str("Missing or unrecognized event payload"))
}

impl Event {
    /// Wraps this event in a structured envelope stamped with the given
    /// time: fixed source and subject, the trace id as envelope id, the
    /// per-variant type tag, and the event itself as the data payload.
    pub fn into_cloud(self, time: String) -> (r: CloudEnvelope)
        ensures
            r@.data == self@,
            r@.time == time@,
            r@.source == "http://localhost"@,
            r@.subject == "ping_message"@,
            match self@ {
                AppEventV::Ping(p) => r@.id == p.trace_id && r@.event_type == EVENT_TYPE_PING@,
                AppEventV::Pong(p) => r@.id == p.trace_id && r@.event_type == EVENT_TYPE_PONG@,
            },
    {
        match self {
            Event::Ping(p) => {
                let id = p.trace_id.clone();
                CloudEnvelope {
                    id,
                    source: String::from_str("http://localhost"),
                    subject: String::from_str("ping_message"),
                    event_type: String::from_str(EVENT_TYPE_PING),
                    time,
                    data: Event::Ping(p),
                }
            },
            Event::Pong(p) => {
                let id = p.trace_id.clone();
                CloudEnvelope {
                    id,
                    source: String::from_str("http://localhost"),
                    subject: String::from_str("ping_message"),
                    event_type: String::from_str(EVENT_TYPE_PONG),
                    time,
                    data: Event::Pong(p),
                }
            },
        }
    }

    /// Wraps this event in a structured envelope stamped with the current
    /// time.
    pub fn into_cloud_now(self) -> (r: CloudEnvelope)
        ensures
            r@.data == self@,
            r@.source == "http://localhost"@,
            r@.subject == "ping_message"@,
            json_safe(r@.time),
            match self@ {
                AppEventV::Ping(p) => r@.id == p.trace_id && r@.event_type == EVENT_TYPE_PING@,
                AppEventV::Pong(p) => r@.id == p.trace_id && r@.event_type == EVENT_TYPE_PONG@,
            },
    {
        let time = crate::stamp::now_rfc3339();
        self.into_cloud(time)
    }

    /// Unwraps the event union that a structured envelope carries; the
    /// envelope-only metadata is deliberately not carried over.
    pub fn try_from(env: CloudEnvelope) -> (r: Result<Event, EventError>)
        ensures
            r matches Ok(e) && e == env.data,
    {
        Ok(env.data)
    }
}

impl MyLocalEvent {
    /// Unwraps the event union carried by a structured envelope into the
    /// local mirror union.
    pub fn try_from(env: CloudEnvelope) -> (r: Result<MyLocalEvent, EventError>)
        ensures
            r matches Ok(e) && e@ == env.data@,
    {
        match env.data {
            Event::Ping(p) => Ok(MyLocalEvent::Ping(p)),
            Event::Pong(p) => Ok(MyLocalEvent::Pong(p)),
        }
    }
}

} // verus!
