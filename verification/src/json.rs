//! Primitives of the bridge's canonical wire form: a compact JSON text,
//! written and read byte by byte.
//!
//! The wire text is a sequence of bytes.  String content is restricted to
//! printable ASCII without `"` or `\`, so no escaping is ever needed and
//! every encoder is exactly invertible by the matching parser.  Each parser
//! works on a byte suffix and hands back the value together with the
//! remaining suffix.

use vstd::prelude::*;
use vstd::utf8::{
    decode_first_scalar, decode_utf8, encode_utf8, encode_utf8_decode_utf8, is_ascii_chars,
    is_ascii_chars_encode_utf8, pop_first_scalar, valid_first_scalar, valid_utf8,
};

verus! {

pub const QUOTE: u8 = 34;

pub const COMMA: u8 = 44;

pub const COLON: u8 = 58;

pub const LBRACE: u8 = 123;

pub const RBRACE: u8 = 125;

/// A character that may stand unescaped inside a quoted wire string:
/// printable ASCII, excluding the quote and the backslash.
pub open spec fn is_safe_char(c: char) -> bool {
    ' ' <= c <= '~' && c != '"' && c != '\\'
}

/// A string whose characters may all stand unescaped on the wire.
pub open spec fn json_safe(s: Seq<char>) -> bool {
    forall|i: int| 0 <= i < s.len() ==> is_safe_char(#[trigger] s[i])
}

/// The byte that may stand unescaped inside a quoted wire string.
pub open spec fn is_safe_byte(b: u8) -> bool {
    0x20 <= b <= 0x7e && b != QUOTE && b != 92
}

/// A quoted wire string: the UTF-8 bytes of the content between two quotes.
pub open spec fn quoted(s: Seq<char>) -> Seq<u8> {
    seq![QUOTE] + encode_utf8(s) + seq![QUOTE]
}

pub open spec fn is_digit(b: u8) -> bool {
    48 <= b <= 57
}

/// The decimal digits of `n`, most significant first.
pub open spec fn dec_rep(n: u64) -> Seq<u8>
    decreases n,
{
    if n < 10 {
        seq![(n + 48) as u8]
    } else {
        dec_rep(n / 10) + seq![((n % 10) + 48) as u8]
    }
}

/// The numeric value of a sequence of decimal digit bytes.
pub open spec fn digits_val(b: Seq<u8>) -> int
    decreases b.len(),
{
    if b.len() == 0 {
        0
    } else {
        digits_val(b.drop_last()) * 10 + (b.last() - 48)
    }
}

/// How many leading decimal digits the suffix has.
pub open spec fn count_digits(s: Seq<u8>) -> int
    decreases s.len(),
{
    if s.len() > 0 && is_digit(s[0]) {
        1 + count_digits(s.skip(1))
    } else {
        0
    }
}

/// Reads a canonical decimal `u64`: at least one digit, no leading zero,
/// value within range.
pub open spec fn parse_u64(s: Seq<u8>) -> Option<(u64, Seq<u8>)> {
    let k = count_digits(s);
    if k == 0 {
        None
    } else if s[0] == 48 && k > 1 {
        None
    } else if digits_val(s.take(k)) > u64::MAX {
        None
    } else {
        Some((digits_val(s.take(k)) as u64, s.skip(k)))
    }
}

/// Reads quoted-string content up to the closing quote; fails on a byte
/// that could not have been written by the encoder.
pub open spec fn scan_content(s: Seq<u8>) -> Option<(Seq<u8>, Seq<u8>)>
    decreases s.len(),
{
    if s.len() == 0 {
        None
    } else if s[0] == QUOTE {
        Some((Seq::empty(), s.skip(1)))
    } else if is_safe_byte(s[0]) {
        match scan_content(s.skip(1)) {
            Some((c, r)) => Some((seq![s[0]] + c, r)),
            None => None,
        }
    } else {
        None
    }
}

/// Reads a quoted wire string and decodes its content.
pub open spec fn parse_string(s: Seq<u8>) -> Option<(Seq<char>, Seq<u8>)> {
    if s.len() > 0 && s[0] == QUOTE {
        match scan_content(s.skip(1)) {
            Some((c, r)) => Some((decode_utf8(c), r)),
            None => None,
        }
    } else {
        None
    }
}

/// Reads an expected literal byte sequence.
pub open spec fn parse_lit(s: Seq<u8>, lit: Seq<u8>) -> Option<Seq<u8>> {
    if s.len() >= lit.len() && s.take(lit.len() as int) == lit {
        Some(s.skip(lit.len() as int))
    } else {
        None
    }
}

// ------------------------------------------------------------------
// Laws of the primitives: each parser exactly inverts its encoder.
// ------------------------------------------------------------------
pub proof fn lemma_parse_lit(lit: Seq<u8>, rest: Seq<u8>)
    ensures
        parse_lit(lit + rest, lit) == Some(rest),
{
    assert((lit + rest).take(lit.len() as int) =~= lit);
    assert((lit + rest).skip(lit.len() as int) =~= rest);
}

/// Every digit sequence that `dec_rep` yields is made of digits, and its
/// first digit is zero only for the number zero itself.
pub proof fn lemma_dec_rep_shape(n: u64)
    ensures
        dec_rep(n).len() >= 1,
        forall|i: int| 0 <= i < dec_rep(n).len() ==> is_digit(#[trigger] dec_rep(n)[i]),
        dec_rep(n)[0] == 48 ==> n == 0,
        n == 0 ==> dec_rep(n).len() == 1,
    decreases n,
{
    if n >= 10 {
        lemma_dec_rep_shape(n / 10);
    }
}

/// Reading back the digits of `n` yields `n`.
pub proof fn lemma_digits_val_dec_rep(n: u64)
    ensures
        digits_val(dec_rep(n)) == n,
    decreases n,
{
    if n < 10 {
        assert(dec_rep(n) == seq![(n + 48) as u8]);
        assert(dec_rep(n).drop_last() =~= Seq::<u8>::empty());
        assert(dec_rep(n).last() == (n + 48) as u8);
        assert(digits_val(dec_rep(n)) == digits_val(Seq::<u8>::empty()) * 10 + ((n + 48) as u8
            - 48));
    } else {
        lemma_digits_val_dec_rep(n / 10);
        let d = seq![((n % 10) + 48) as u8];
        assert(dec_rep(n) == dec_rep(n / 10) + d);
        assert((dec_rep(n / 10) + d).drop_last() =~= dec_rep(n / 10));
        assert((dec_rep(n / 10) + d).last() == ((n % 10) + 48) as u8);
        assert(digits_val(dec_rep(n)) == digits_val(dec_rep(n / 10)) * 10 + (n % 10));
        assert(n == (n / 10) * 10 + (n % 10));
    }
}

/// A run of digits followed by a non-digit is counted exactly.
pub proof fn lemma_count_digits_of(d: Seq<u8>, rest: Seq<u8>)
    requires
        forall|i: int| 0 <= i < d.len() ==> is_digit(#[trigger] d[i]),
        rest.len() == 0 || !is_digit(rest[0]),
    ensures
        count_digits(d + rest) == d.len(),
    decreases d.len(),
{
    if d.len() == 0 {
        assert(d + rest =~= rest);
    } else {
        assert((d + rest).skip(1) =~= d.skip(1) + rest);
        lemma_count_digits_of(d.skip(1), rest);
    }
}

/// Parsing the decimal digits of `n` (followed by a non-digit) yields `n`.
pub proof fn lemma_parse_u64_dec_rep(n: u64, rest: Seq<u8>)
    requires
        rest.len() == 0 || !is_digit(rest[0]),
    ensures
        parse_u64(dec_rep(n) + rest) == Some((n, rest)),
{
    let d = dec_rep(n);
    lemma_dec_rep_shape(n);
    lemma_digits_val_dec_rep(n);
    lemma_count_digits_of(d, rest);
    assert((d + rest).take(d.len() as int) =~= d);
    assert((d + rest).skip(d.len() as int) =~= rest);
    assert((d + rest)[0] == d[0]);
}

/// Scanning the encoder's output finds the closing quote exactly where it
/// was written.
pub proof fn lemma_scan_content_of(c: Seq<u8>, rest: Seq<u8>)
    requires
        forall|i: int| 0 <= i < c.len() ==> is_safe_byte(#[trigger] c[i]),
    ensures
        scan_content(c + seq![QUOTE] + rest) == Some((c, rest)),
    decreases c.len(),
{
    let s = c + seq![QUOTE] + rest;
    if c.len() == 0 {
        assert(s =~= seq![QUOTE] + rest);
        assert(s.skip(1) =~= rest);
        assert(scan_content(s) == Some((Seq::<u8>::empty(), rest)));
        assert(Seq::<u8>::empty() =~= c);
    } else {
        assert(s.skip(1) =~= c.skip(1) + seq![QUOTE] + rest);
        lemma_scan_content_of(c.skip(1), rest);
        assert(seq![s[0]] + c.skip(1) =~= c);
    }
}

/// The characters of a safe string encode to safe bytes.
pub proof fn lemma_safe_encode(q: Seq<char>)
    requires
        json_safe(q),
    ensures
        encode_utf8(q).len() == q.len(),
        forall|i: int| 0 <= i < encode_utf8(q).len() ==> is_safe_byte(#[trigger] encode_utf8(q)[i]),
{
    assert(is_ascii_chars(q));
    is_ascii_chars_encode_utf8(q);
    assert forall|i: int| 0 <= i < encode_utf8(q).len() implies is_safe_byte(
        #[trigger] encode_utf8(q)[i],
    ) by {
        assert(is_safe_char(q[i]));
        assert(encode_utf8(q)[i] == q[i] as u8);
    }
}

/// Parsing a quoted safe string yields its content exactly.
pub proof fn lemma_parse_string_quoted(q: Seq<char>, rest: Seq<u8>)
    requires
        json_safe(q),
    ensures
        parse_string(quoted(q) + rest) == Some((q, rest)),
{
    let e = encode_utf8(q);
    let s = quoted(q) + rest;
    lemma_safe_encode(q);
    assert(s.skip(1) =~= e + seq![QUOTE] + rest);
    lemma_scan_content_of(e, rest);
    assert(s[0] == QUOTE);
    encode_utf8_decode_utf8(q);
}

/// Reading one more digit multiplies the value by ten and adds the digit.
pub proof fn lemma_digits_val_step(s: Seq<u8>, k: int)
    requires
        0 <= k < s.len(),
    ensures
        digits_val(s.take(k + 1)) == digits_val(s.take(k)) * 10 + (s[k] - 48),
{
    assert(s.take(k + 1).drop_last() =~= s.take(k));
    assert(s.take(k + 1).last() == s[k]);
}

/// A scan that runs past safe bytes into a byte that is neither safe nor a
/// quote (or past the end of the input) finds no string.
pub proof fn lemma_scan_content_none(s: Seq<u8>, k: int)
    requires
        0 <= k <= s.len(),
        forall|i: int| 0 <= i < k ==> is_safe_byte(#[trigger] s[i]) && s[i] != QUOTE,
        k == s.len() || (!is_safe_byte(s[k]) && s[k] != QUOTE),
    ensures
        scan_content(s) is None,
    decreases k,
{
    if k > 0 {
        lemma_scan_content_none(s.skip(1), k - 1);
    }
}

/// ASCII bytes form valid UTF-8 and decode to the matching characters.
pub proof fn lemma_ascii_bytes_valid(b: Seq<u8>)
    requires
        forall|i: int| 0 <= i < b.len() ==> #[trigger] b[i] < 0x80,
    ensures
        valid_utf8(b),
        decode_utf8(b).len() == b.len(),
        forall|i: int| 0 <= i < b.len() ==> (#[trigger] decode_utf8(b)[i]) == b[i] as char,
    decreases b.len(),
{
    if b.len() > 0 {
        let b0 = b[0];
        assert(b0 & 0x7f == b0) by (bit_vector)
            requires
                b0 < 0x80,
        ;
        assert(valid_first_scalar(b));
        assert(pop_first_scalar(b) =~= b.skip(1));
        lemma_ascii_bytes_valid(b.skip(1));
        assert(decode_first_scalar(b) == b0 as u32);
        assert(decode_utf8(b) == seq![(b0 as u32) as char] + decode_utf8(b.skip(1)));
        assert((b0 as u32) as char == b0 as char);
    }
}

// ------------------------------------------------------------------
// Executable writers and readers, each tied exactly to its spec.
// ------------------------------------------------------------------
/// Relies on String::from_utf8: valid UTF-8 bytes decode to the string of
/// exactly the characters they encode.
#[verifier::external_body]
fn string_from_utf8(b: Vec<u8>) -> (r: String)
    requires
        valid_utf8(b@),
    ensures
        r@ == decode_utf8(b@),
{
    match String::from_utf8(b) {
        Ok(s) => s,
        Err(_) => String::new(),
    }
}

/// Appends the UTF-8 bytes of `lit` to the output.
pub fn emit_lit(out: &mut Vec<u8>, lit: &str)
    ensures
        final(out)@ == old(out)@ + encode_utf8(lit@),
{
    let b = lit.as_bytes();
    out.extend_from_slice(b);
}

/// Appends a quoted wire string.
pub fn emit_quoted(out: &mut Vec<u8>, s: &str)
    ensures
        final(out)@ == old(out)@ + quoted(s@),
{
    out.push(QUOTE);
    emit_lit(out, s);
    out.push(QUOTE);
    proof {
        assert(out@ =~= old(out)@ + quoted(s@));
    }
}

/// Appends the decimal digits of `n`.
pub fn emit_u64(out: &mut Vec<u8>, n: u64)
    ensures
        final(out)@ == old(out)@ + dec_rep(n),
    decreases n,
{
    if n < 10 {
        out.push((n as u8) + 48);
        proof {
            assert(out@ =~= old(out)@ + dec_rep(n));
        }
    } else {
        emit_u64(out, n / 10);
        out.push(((n % 10) as u8) + 48);
        proof {
            assert(out@ =~= old(out)@ + dec_rep(n));
        }
    }
}

/// Consumes the expected literal at position `i`, if it is there.
pub fn take_lit(v: &Vec<u8>, i: usize, lit: &str) -> (r: Option<usize>)
    requires
        i <= v@.len(),
    ensures
        match r {
            Some(j) => {
                &&& i <= j <= v@.len()
                &&& j - i == encode_utf8(lit@).len()
                &&& parse_lit(v@.skip(i as int), encode_utf8(lit@)) == Some(v@.skip(j as int))
            },
            None => parse_lit(v@.skip(i as int), encode_utf8(lit@)) is None,
        },
{
    let lb = lit.as_bytes_vec();
    let n = lb.len();
    let vn = v.len();
    if n > vn - i {
        proof {
            assert(v@.skip(i as int).len() < encode_utf8(lit@).len());
        }
        return None;
    }
    let mut k: usize = 0;
    while k < n
        invariant
            0 <= k <= n,
            i + n <= vn,
            vn == v@.len(),
            lb@ == encode_utf8(lit@),
            n == lb@.len(),
            forall|t: int| 0 <= t < k ==> v@[i + t] == lb@[t],
        decreases n - k,
    {
        if v[i + k] != lb[k] {
            proof {
                let s = v@.skip(i as int);
                assert(s.take(n as int)[k as int] == v@[i + k]);
                assert(s.take(n as int) != lb@);
            }
            return None;
        }
        k += 1;
    }
    proof {
        let s = v@.skip(i as int);
        assert(s.take(n as int) =~= lb@);
        assert(s.skip(n as int) =~= v@.skip(i + n));
    }
    Some(i + n)
}

/// Reads a quoted wire string starting at position `i`.
pub fn scan_string_at(v: &Vec<u8>, i: usize) -> (r: Option<(String, usize)>)
    requires
        i <= v@.len(),
    ensures
        match r {
            Some(p) => {
                &&& i < p.1 <= v@.len()
                &&& parse_string(v@.skip(i as int)) == Some((p.0@, v@.skip(p.1 as int)))
            },
            None => parse_string(v@.skip(i as int)) is None,
        },
{
    if i >= v.len() || v[i] != QUOTE {
        return None;
    }
    let ghost inner = v@.skip(i + 1);
    proof {
        assert(v@.skip(i as int).skip(1) =~= inner);
    }
    let mut j: usize = i + 1;
    let mut content: Vec<u8> = Vec::new();
    while j < v.len()
        invariant
            i + 1 <= j <= v@.len(),
            inner == v@.skip(i + 1),
            i < v@.len(),
            v@[i as int] == QUOTE,
            content@ =~= v@.subrange(i + 1, j as int),
            forall|t: int| i + 1 <= t < j ==> is_safe_byte(#[trigger] v@[t]),
        decreases v@.len() - j,
    {
        let b = v[j];
        if b == QUOTE {
            proof {
                assert(v@.skip(i as int).skip(1) =~= inner);
                assert(inner =~= content@ + seq![QUOTE] + v@.skip(j + 1));
                lemma_scan_content_of(content@, v@.skip(j + 1));
                assert(forall|t: int| 0 <= t < content@.len() ==> #[trigger] content@[t] < 0x80);
                lemma_ascii_bytes_valid(content@);
                assert(v@.skip(i as int)[0] == v@[i as int]);
                assert(parse_string(v@.skip(i as int)) == Some(
                    (decode_utf8(content@), v@.skip(j + 1)),
                ));
            }
            let s = string_from_utf8(content);
            return Some((s, j + 1));
        }
        if !(32 <= b && b <= 126 && b != 92) {
            proof {
                assert(v@.skip(i as int).skip(1) =~= inner);
                assert(forall|t: int|
                    0 <= t < j - (i + 1) ==> #[trigger] inner[t] == v@[i + 1 + t]);
                assert(inner[j - (i + 1)] == v@[j as int]);
                lemma_scan_content_none(inner, j - (i + 1));
            }
            return None;
        }
        content.push(b);
        j += 1;
    }
    proof {
        assert(v@.skip(i as int).skip(1) =~= inner);
        assert(forall|t: int| 0 <= t < j - (i + 1) ==> #[trigger] inner[t] == v@[i + 1 + t]);
        lemma_scan_content_none(inner, j - (i + 1));
    }
    None
}

/// Reads a canonical decimal `u64` starting at position `i`.
pub fn parse_u64_at(v: &Vec<u8>, i: usize) -> (r: Option<(u64, usize)>)
    requires
        i <= v@.len(),
    ensures
        match r {
            Some(p) => {
                &&& i < p.1 <= v@.len()
                &&& parse_u64(v@.skip(i as int)) == Some((p.0, v@.skip(p.1 as int)))
            },
            None => parse_u64(v@.skip(i as int)) is None,
        },
{
    let ghost s = v@.skip(i as int);
    let mut j: usize = i;
    let mut acc: u64 = 0;
    let mut too_big: bool = false;
    while j < v.len() && v[j] >= 48 && v[j] <= 57
        invariant
            i <= j <= v@.len(),
            s == v@.skip(i as int),
            forall|t: int| i <= t < j ==> is_digit(#[trigger] v@[t]),
            !too_big ==> digits_val(s.take(j - i)) == acc,
            too_big ==> digits_val(s.take(j - i)) > u64::MAX,
        decreases v@.len() - j,
    {
        let b = v[j];
        let d: u64 = (b - 48) as u64;
        proof {
            assert(s[j - i] == v@[j as int]);
            lemma_digits_val_step(s, j - i);
        }
        if !too_big {
            if acc <= (u64::MAX - d) / 10 {
                proof {
                    assert(acc * 10 + d <= u64::MAX) by (nonlinear_arith)
                        requires
                            acc <= (u64::MAX - d) / 10,
                            d <= 9,
                    ;
                }
                acc = acc * 10 + d;
            } else {
                proof {
                    assert(acc * 10 + d > u64::MAX) by (nonlinear_arith)
                        requires
                            acc > (u64::MAX - d) / 10,
                            d <= 9,
                    ;
                }
                too_big = true;
            }
        } else {
            proof {
                assert(digits_val(s.take(j - i)) * 10 + (s[j - i] - 48) > u64::MAX)
                    by (nonlinear_arith)
                    requires
                        digits_val(s.take(j - i)) > u64::MAX,
                        s[j - i] >= 48,
                ;
            }
        }
        j += 1;
    }
    let k = j - i;
    proof {
        assert(s.take(k as int) =~= v@.subrange(i as int, j as int));
        assert(forall|t: int| 0 <= t < k ==> is_digit(#[trigger] s.take(k as int)[t]));
        assert(s =~= s.take(k as int) + s.skip(k as int));
        if j < v@.len() {
            assert(s.skip(k as int)[0] == v@[j as int]);
        }
        lemma_count_digits_of(s.take(k as int), s.skip(k as int));
        assert(count_digits(s) == k);
    }
    if k == 0 {
        return None;
    }
    if v[i] == 48 && k > 1 {
        proof {
            assert(s[0] == v@[i as int]);
        }
        return None;
    }
    if too_big {
        return None;
    }
    proof {
        assert(s.skip(k as int) =~= v@.skip(j as int));
    }
    Some((acc, j))
}

} // verus!
