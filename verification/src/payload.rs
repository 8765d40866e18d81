//! The envelope payload: an ordered mapping from string keys to scalar
//! values, together with its wire codec.
//!
//! The bridge treats payload values as opaque data; it only carries them.
//! Values are scalars: null, booleans, unsigned integers and strings.

use crate::json::{
    dec_rep, emit_lit, emit_quoted, emit_u64, is_digit, json_safe,
    lemma_dec_rep_shape, lemma_parse_lit, lemma_parse_string_quoted, lemma_parse_u64_dec_rep,
    parse_lit, parse_string, parse_u64, parse_u64_at, quoted, scan_string_at, take_lit, COLON,
    COMMA, LBRACE, QUOTE, RBRACE,
};
use vstd::prelude::*;
use vstd::utf8::{encode_utf8, is_ascii_chars, is_ascii_chars_encode_utf8};

verus! {

/// One payload value: a scalar carried through the bridge untouched.
#[derive(Clone, Debug, PartialEq, Eq)]
pub enum PayloadValue {
    Null,
    Bool(bool),
    UInt(u64),
    Text(String),
}

/// The mathematical model of a payload value.
pub enum PVal {
    Null,
    Bool(bool),
    UInt(u64),
    Text(Seq<char>),
}

impl View for PayloadValue {
    type V = PVal;

    open spec fn view(&self) -> PVal {
        match self {
            PayloadValue::Null => PVal::Null,
            PayloadValue::Bool(b) => PVal::Bool(*b),
            PayloadValue::UInt(n) => PVal::UInt(*n),
            PayloadValue::Text(s) => PVal::Text(s@),
        }
    }
}

/// An ordered mapping from string keys to payload values.
pub type Payload = Vec<(String, PayloadValue)>;

/// The mathematical model of a payload.
pub open spec fn view_payload(p: Payload) -> Seq<(Seq<char>, PVal)> {
    p@.map_values(|e: (String, PayloadValue)| (e.0@, e.1@))
}

/// A payload value whose wire form parses back to itself.
pub open spec fn wf_pval(v: PVal) -> bool {
    match v {
        PVal::Text(s) => json_safe(s),
        _ => true,
    }
}

/// Keys and values all lie in the wire-safe character range.
pub open spec fn wf_payload(p: Seq<(Seq<char>, PVal)>) -> bool {
    forall|i: int| 0 <= i < p.len() ==> json_safe(#[trigger] p[i].0) && wf_pval(p[i].1)
}

// ------------------------------------------------------------------
// Wire form of payloads.
// ------------------------------------------------------------------
pub open spec fn ser_pval(v: PVal) -> Seq<u8> {
    match v {
        PVal::Null => encode_utf8("null"@),
        PVal::Bool(b) => if b {
            encode_utf8("true"@)
        } else {
            encode_utf8("false"@)
        },
        PVal::UInt(n) => dec_rep(n),
        PVal::Text(s) => quoted(s),
    }
}

pub open spec fn ser_entry(e: (Seq<char>, PVal)) -> Seq<u8> {
    quoted(e.0) + seq![COLON] + ser_pval(e.1)
}

/// The wire form of all entries after the first, up to and including the
/// closing brace.
pub open spec fn ser_entries_rest(p: Seq<(Seq<char>, PVal)>) -> Seq<u8>
    decreases p.len(),
{
    if p.len() == 0 {
        seq![RBRACE]
    } else {
        seq![COMMA] + ser_entry(p[0]) + ser_entries_rest(p.skip(1))
    }
}

pub open spec fn ser_payload(p: Seq<(Seq<char>, PVal)>) -> Seq<u8> {
    if p.len() == 0 {
        seq![LBRACE, RBRACE]
    } else {
        seq![LBRACE] + ser_entry(p[0]) + ser_entries_rest(p.skip(1))
    }
}

// ------------------------------------------------------------------
// Reading payloads back.
// ------------------------------------------------------------------
pub open spec fn parse_pval(s: Seq<u8>) -> Option<(PVal, Seq<u8>)> {
    if s.len() == 0 {
        None
    } else if s[0] == QUOTE {
        match parse_string(s) {
            Some((t, r)) => Some((PVal::Text(t), r)),
            None => None,
        }
    } else if is_digit(s[0]) {
        match parse_u64(s) {
            Some((n, r)) => Some((PVal::UInt(n), r)),
            None => None,
        }
    } else {
        match parse_lit(s, encode_utf8("null"@)) {
            Some(r) => Some((PVal::Null, r)),
            None => match parse_lit(s, encode_utf8("true"@)) {
                Some(r) => Some((PVal::Bool(true), r)),
                None => match parse_lit(s, encode_utf8("false"@)) {
                    Some(r) => Some((PVal::Bool(false), r)),
                    None => None,
                },
            },
        }
    }
}

pub open spec fn parse_entry(s: Seq<u8>) -> Option<((Seq<char>, PVal), Seq<u8>)> {
    match parse_string(s) {
        Some((k, r1)) => if r1.len() > 0 && r1[0] == COLON {
            match parse_pval(r1.skip(1)) {
                Some((v, r2)) => Some(((k, v), r2)),
                None => None,
            }
        } else {
            None
        },
        None => None,
    }
}

pub open spec fn parse_entries_rest(s: Seq<u8>) -> Option<(Seq<(Seq<char>, PVal)>, Seq<u8>)>
    decreases s.len(),
{
    if s.len() == 0 {
        None
    } else if s[0] == RBRACE {
        Some((Seq::empty(), s.skip(1)))
    } else if s[0] == COMMA {
        match parse_entry(s.skip(1)) {
            Some((e, r)) => if r.len() < s.len() {
                match parse_entries_rest(r) {
                    Some((es, r2)) => Some((seq![e] + es, r2)),
                    None => None,
                }
            } else {
                None
            },
            None => None,
        }
    } else {
        None
    }
}

pub open spec fn parse_payload(s: Seq<u8>) -> Option<(Seq<(Seq<char>, PVal)>, Seq<u8>)> {
    if s.len() > 0 && s[0] == LBRACE {
        if s.len() > 1 && s[1] == RBRACE {
            Some((Seq::empty(), s.skip(2)))
        } else {
            match parse_entry(s.skip(1)) {
                Some((e, r)) => if r.len() < s.len() {
                    match parse_entries_rest(r) {
                        Some((es, r2)) => Some((seq![e] + es, r2)),
                        None => None,
                    }
                } else {
                    None
                },
                None => None,
            }
        }
    } else {
        None
    }
}

// ------------------------------------------------------------------
// Laws: the payload parser inverts the payload encoder.
// ------------------------------------------------------------------
/// The first byte and length of each keyword literal.
proof fn lemma_lit_bytes()
    ensures
        encode_utf8("null"@).len() == 4,
        encode_utf8("null"@)[0] == 110,
        encode_utf8("true"@).len() == 4,
        encode_utf8("true"@)[0] == 116,
        encode_utf8("false"@).len() == 5,
        encode_utf8("false"@)[0] == 102,
{
    reveal_strlit("null");
    reveal_strlit("true");
    reveal_strlit("false");
    assert(is_ascii_chars("null"@));
    assert(is_ascii_chars("true"@));
    assert(is_ascii_chars("false"@));
    is_ascii_chars_encode_utf8("null"@);
    is_ascii_chars_encode_utf8("true"@);
    is_ascii_chars_encode_utf8("false"@);
    assert(encode_utf8("null"@)[0] == 'n' as u8);
    assert(encode_utf8("true"@)[0] == 't' as u8);
    assert(encode_utf8("false"@)[0] == 'f' as u8);
}

/// A suffix that may legitimately follow a value on the wire.
pub open spec fn ends_value(rest: Seq<u8>) -> bool {
    rest.len() > 0 && (rest[0] == COMMA || rest[0] == RBRACE)
}

pub proof fn lemma_parse_pval_ser(v: PVal, rest: Seq<u8>)
    requires
        wf_pval(v),
        ends_value(rest),
    ensures
        parse_pval(ser_pval(v) + rest) == Some((v, rest)),
{
    let s = ser_pval(v) + rest;
    lemma_lit_bytes();
    match v {
        PVal::Null => {
            lemma_parse_lit(encode_utf8("null"@), rest);
            assert(s[0] == 110);
        },
        PVal::Bool(b) => {
            if b {
                assert(s[0] == 116);
                assert(s.len() >= 4);
                assert(s.take(4)[0] == s[0]);
                assert(parse_lit(s, encode_utf8("null"@)) is None);
                lemma_parse_lit(encode_utf8("true"@), rest);
            } else {
                assert(s[0] == 102);
                assert(s.take(4)[0] == s[0]);
                assert(parse_lit(s, encode_utf8("null"@)) is None);
                assert(parse_lit(s, encode_utf8("true"@)) is None);
                lemma_parse_lit(encode_utf8("false"@), rest);
            }
        },
        PVal::UInt(n) => {
            lemma_dec_rep_shape(n);
            assert(s[0] == dec_rep(n)[0]);
            assert(!is_digit(rest[0]));
            lemma_parse_u64_dec_rep(n, rest);
        },
        PVal::Text(t) => {
            assert(s[0] == QUOTE);
            lemma_parse_string_quoted(t, rest);
        },
    }
}

pub proof fn lemma_parse_entry_ser(e: (Seq<char>, PVal), rest: Seq<u8>)
    requires
        json_safe(e.0),
        wf_pval(e.1),
        ends_value(rest),
    ensures
        parse_entry(ser_entry(e) + rest) == Some((e, rest)),
        ser_entry(e).len() >= 3,
{
    let s = ser_entry(e) + rest;
    let tail = seq![COLON] + ser_pval(e.1) + rest;
    assert(s =~= quoted(e.0) + tail);
    lemma_parse_string_quoted(e.0, tail);
    assert(tail[0] == COLON);
    assert(tail.skip(1) =~= ser_pval(e.1) + rest);
    lemma_parse_pval_ser(e.1, rest);
}

/// The serialized tail of a payload always begins with a comma or the
/// closing brace.
proof fn lemma_ser_entries_rest_head(p: Seq<(Seq<char>, PVal)>)
    ensures
        ser_entries_rest(p).len() > 0,
        ser_entries_rest(p)[0] == COMMA || ser_entries_rest(p)[0] == RBRACE,
{
}

pub proof fn lemma_parse_entries_rest_ser(p: Seq<(Seq<char>, PVal)>, rest: Seq<u8>)
    requires
        wf_payload(p),
    ensures
        parse_entries_rest(ser_entries_rest(p) + rest) == Some((p, rest)),
    decreases p.len(),
{
    let s = ser_entries_rest(p) + rest;
    if p.len() == 0 {
        assert(s =~= seq![RBRACE] + rest);
        assert(s.skip(1) =~= rest);
        assert(Seq::<(Seq<char>, PVal)>::empty() =~= p);
    } else {
        let tail = ser_entries_rest(p.skip(1)) + rest;
        assert(s =~= seq![COMMA] + ser_entry(p[0]) + tail);
        assert(s[0] == COMMA);
        assert(s[0] != RBRACE);
        assert(s.skip(1) =~= ser_entry(p[0]) + tail);
        lemma_ser_entries_rest_head(p.skip(1));
        assert(ends_value(tail));
        lemma_parse_entry_ser(p[0], tail);
        assert(tail.len() < s.len());
        lemma_parse_entries_rest_ser(p.skip(1), rest);
        assert(seq![p[0]] + p.skip(1) =~= p);
    }
}

pub proof fn lemma_parse_payload_ser(p: Seq<(Seq<char>, PVal)>, rest: Seq<u8>)
    requires
        wf_payload(p),
    ensures
        parse_payload(ser_payload(p) + rest) == Some((p, rest)),
{
    let s = ser_payload(p) + rest;
    if p.len() == 0 {
        assert(s =~= seq![LBRACE, RBRACE] + rest);
        assert(s.skip(2) =~= rest);
        assert(Seq::<(Seq<char>, PVal)>::empty() =~= p);
    } else {
        let tail = ser_entries_rest(p.skip(1)) + rest;
        assert(s =~= seq![LBRACE] + (ser_entry(p[0]) + tail));
        assert(s[0] == LBRACE);
        assert(s[1] == (ser_entry(p[0]) + tail)[0]);
        assert((ser_entry(p[0]) + tail)[0] == QUOTE);
        assert(s.skip(1) =~= ser_entry(p[0]) + tail);
        lemma_ser_entries_rest_head(p.skip(1));
        lemma_parse_entry_ser(p[0], tail);
        assert(tail.len() < s.len());
        lemma_parse_entries_rest_ser(p.skip(1), rest);
        assert(seq![p[0]] + p.skip(1) =~= p);
    }
}

// ------------------------------------------------------------------
// Executable payload codec, tied exactly to the specs above.
// ------------------------------------------------------------------
/// Appends the wire form of one payload value.
pub fn emit_pval(out: &mut Vec<u8>, v: &PayloadValue)
    ensures
        final(out)@ == old(out)@ + ser_pval(v@),
{
    match v {
        PayloadValue::Null => emit_lit(out, "null"),
        PayloadValue::Bool(b) => if *b {
            emit_lit(out, "true")
        } else {
            emit_lit(out, "false")
        },
        PayloadValue::UInt(n) => emit_u64(out, *n),
        PayloadValue::Text(s) => emit_quoted(out, s.as_str()),
    }
}

/// Appends the wire form of a whole payload.
pub fn emit_payload(out: &mut Vec<u8>, p: &Payload)
    ensures
        final(out)@ == old(out)@ + ser_payload(view_payload(*p)),
{
    let ghost pv = view_payload(*p);
    out.push(LBRACE);
    if p.len() == 0 {
        out.push(RBRACE);
        proof {
            assert(out@ =~= old(out)@ + ser_payload(pv));
        }
        return ;
    }
    let e0 = &p[0];
    emit_quoted(out, e0.0.as_str());
    out.push(COLON);
    emit_pval(out, &e0.1);
    proof {
        assert(pv[0] == (e0.0@, e0.1@));
        assert(out@ =~= old(out)@ + seq![LBRACE] + ser_entry(pv[0]));
    }
    let mut k: usize = 1;
    while k < p.len()
        invariant
            1 <= k <= p@.len(),
            pv == view_payload(*p),
            pv.len() == p@.len(),
            out@ + ser_entries_rest(pv.skip(k as int)) =~= old(out)@ + ser_payload(pv),
        decreases p@.len() - k,
    {
        out.push(COMMA);
        let e = &p[k];
        emit_quoted(out, e.0.as_str());
        out.push(COLON);
        emit_pval(out, &e.1);
        proof {
            assert(pv[k as int] == (e.0@, e.1@));
            assert(pv.skip(k as int)[0] == pv[k as int]);
            assert(pv.skip(k as int).skip(1) =~= pv.skip(k + 1));
            assert(ser_entries_rest(pv.skip(k as int)) =~= seq![COMMA] + ser_entry(pv[k as int])
                + ser_entries_rest(pv.skip(k + 1)));
            assert(out@ + ser_entries_rest(pv.skip(k + 1)) =~= old(out)@ + ser_payload(pv));
        }
        k += 1;
    }
    out.push(RBRACE);
    proof {
        assert(pv.skip(pv.len() as int) =~= Seq::<(Seq<char>, PVal)>::empty());
        assert(ser_entries_rest(pv.skip(pv.len() as int)) =~= seq![RBRACE]);
        assert(out@ =~= old(out)@ + ser_payload(pv));
    }
}

/// Reads one payload value starting at position `i`.
pub fn parse_pval_at(v: &Vec<u8>, i: usize) -> (r: Option<(PayloadValue, usize)>)
    requires
        i <= v@.len(),
    ensures
        match r {
            Some(p) => {
                &&& i < p.1 <= v@.len()
                &&& parse_pval(v@.skip(i as int)) == Some((p.0@, v@.skip(p.1 as int)))
            },
            None => parse_pval(v@.skip(i as int)) is None,
        },
{
    let ghost s = v@.skip(i as int);
    if i >= v.len() {
        return None;
    }
    let b = v[i];
    proof {
        assert(s[0] == v@[i as int]);
    }
    if b == QUOTE {
        match scan_string_at(v, i) {
            Some(p) => Some((PayloadValue::Text(p.0), p.1)),
            None => None,
        }
    } else if 48 <= b && b <= 57 {
        match parse_u64_at(v, i) {
            Some(p) => Some((PayloadValue::UInt(p.0), p.1)),
            None => None,
        }
    } else {
        proof {
            lemma_lit_bytes();
        }
        match take_lit(v, i, "null") {
            Some(j) => Some((PayloadValue::Null, j)),
            None => match take_lit(v, i, "true") {
                Some(j) => Some((PayloadValue::Bool(true), j)),
                None => match take_lit(v, i, "false") {
                    Some(j) => Some((PayloadValue::Bool(false), j)),
                    None => None,
                },
            },
        }
    }
}

/// Reads one `key:value` entry starting at position `i`.
pub fn parse_entry_at(v: &Vec<u8>, i: usize) -> (r: Option<(String, PayloadValue, usize)>)
    requires
        i <= v@.len(),
    ensures
        match r {
            Some(p) => {
                &&& i < p.2 <= v@.len()
                &&& parse_entry(v@.skip(i as int)) == Some(((p.0@, p.1@), v@.skip(p.2 as int)))
            },
            None => parse_entry(v@.skip(i as int)) is None,
        },
{
    match scan_string_at(v, i) {
        Some(kp) => {
            let (key, j1) = kp;
            if j1 >= v.len() || v[j1] != COLON {
                proof {
                    if j1 < v@.len() {
                        assert(v@.skip(j1 as int)[0] == v@[j1 as int]);
                    }
                }
                return None;
            }
            proof {
                assert(v@.skip(j1 as int)[0] == v@[j1 as int]);
                assert(v@.skip(j1 as int).skip(1) =~= v@.skip(j1 + 1));
            }
            match parse_pval_at(v, j1 + 1) {
                Some(vp) => Some((key, vp.0, vp.1)),
                None => None,
            }
        },
        None => None,
    }
}

/// Reads a whole payload object starting at position `i`.
pub fn parse_payload_at(v: &Vec<u8>, i: usize) -> (r: Option<(Payload, usize)>)
    requires
        i <= v@.len(),
    ensures
        match r {
            Some(p) => {
                &&& i < p.1 <= v@.len()
                &&& parse_payload(v@.skip(i as int)) == Some(
                    (view_payload(p.0), v@.skip(p.1 as int)),
                )
            },
            None => parse_payload(v@.skip(i as int)) is None,
        },
{
    let ghost s0 = v@.skip(i as int);
    if i >= v.len() || v[i] != LBRACE {
        proof {
            if i < v@.len() {
                assert(s0[0] == v@[i as int]);
            }
        }
        return None;
    }
    proof {
        assert(s0[0] == v@[i as int]);
    }
    if i + 1 < v.len() && v[i + 1] == RBRACE {
        let empty_acc: Payload = Vec::new();
        proof {
            assert(s0[1] == v@[i + 1]);
            assert(s0.skip(2) =~= v@.skip(i + 2));
            assert(view_payload(empty_acc) =~= Seq::<(Seq<char>, PVal)>::empty());
        }
        return Some((empty_acc, i + 2));
    }
    proof {
        assert(s0.skip(1) =~= v@.skip(i + 1));
        if i + 1 < v@.len() {
            assert(s0[1] == v@[i + 1]);
        }
    }
    let first = parse_entry_at(v, i + 1);
    match first {
        None => {
            return None;
        },
        Some(fp) => {
            let (k0, v0, j0) = fp;
            let mut acc: Payload = Vec::new();
            acc.push((k0, v0));
            let mut cur: usize = j0;
            proof {
                assert(view_payload(acc) =~~= seq![(k0@, v0@)]);
                assert(v@.skip(j0 as int).len() < s0.len());
            }
            loop
                invariant
                    i < cur <= v@.len(),
                    s0 == v@.skip(i as int),
                    (parse_payload(s0) == (match parse_entries_rest(v@.skip(cur as int)) {
                        Some(p2) => Some((view_payload(acc) + p2.0, p2.1)),
                        None => None::<(Seq<(Seq<char>, PVal)>, Seq<u8>)>,
                    })),
                decreases v@.len() - cur,
            {
                let ghost sc = v@.skip(cur as int);
                if cur >= v.len() {
                    return None;
                }
                let b = v[cur];
                proof {
                    assert(sc[0] == v@[cur as int]);
                }
                if b == RBRACE {
                    proof {
                        assert(sc.skip(1) =~= v@.skip(cur + 1));
                        assert(view_payload(acc) + Seq::<(Seq<char>, PVal)>::empty()
                            =~= view_payload(acc));
                    }
                    return Some((acc, cur + 1));
                }
                if b != COMMA {
                    return None;
                }
                proof {
                    assert(sc.skip(1) =~= v@.skip(cur + 1));
                }
                match parse_entry_at(v, cur + 1) {
                    None => {
                        return None;
                    },
                    Some(ep) => {
                        let (k, val, j) = ep;
                        let ghost e = (k@, val@);
                        let ghost accv = view_payload(acc);
                        proof {
                            assert(v@.skip(j as int).len() < sc.len());
                            assert forall|es: Seq<(Seq<char>, PVal)>| #[trigger] (accv + (
                            seq![e] + es)) =~= (accv + seq![e]) + es by {}
                        }
                        acc.push((k, val));
                        proof {
                            assert(view_payload(acc) =~~= accv + seq![e]);
                        }
                        cur = j;
                    },
                }
            }
        },
    }
}

} // verus!
