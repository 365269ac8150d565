//! Cursor-based pagination with opaque tokens.
//!
//! A token is the URL-safe base64 (no padding) encoding of the JSON text
//! `{"id":N}`. [`encode_cursor`] produces it and [`decode_cursor`] reads it back.

use vstd::prelude::*;
use vstd::string::StringSliceAdditionalSpecFns;
use vstd::utf8::valid_utf8;
use crate::text::{push_char, chars_of, i64_dec, int_dec, nat_dec, digit_char};

verus! {

// ── base64 alphabet ─────────────────────────────────────────────────────────

/// The byte of the alphabet `A-Z a-z 0-9 - _` at position `i`.
pub open spec fn b64_byte_spec(i: u8) -> u8 {
    if i < 26 {
        (65 + i) as u8
    } else if i < 52 {
        (97 + (i - 26)) as u8
    } else if i < 62 {
        (48 + (i - 52)) as u8
    } else if i == 62 {
        45u8
    } else {
        95u8
    }
}

/// The position in the alphabet of byte `b`, if it belongs to it.
pub open spec fn b64_index_spec(b: u8) -> Option<u8> {
    if 65 <= b && b <= 90 {
        Some((b - 65) as u8)
    } else if 97 <= b && b <= 122 {
        Some((b - 71) as u8)
    } else if 48 <= b && b <= 57 {
        Some((b + 4) as u8)
    } else if b == 45 {
        Some(62u8)
    } else if b == 95 {
        Some(63u8)
    } else {
        None
    }
}

#[verifier::when_used_as_spec(b64_byte_spec)]
fn b64_byte(i: u8) -> (r: u8)
    requires
        i < 64,
    ensures
        r == b64_byte_spec(i),
{
    if i < 26 {
        65 + i
    } else if i < 52 {
        97 + (i - 26)
    } else if i < 62 {
        48 + (i - 52)
    } else if i == 62 {
        45
    } else {
        95
    }
}

fn b64_index(b: u8) -> (r: Option<u8>)
    ensures
        r == b64_index_spec(b),
{
    if 65 <= b && b <= 90 {
        Some(b - 65)
    } else if 97 <= b && b <= 122 {
        Some(b - 71)
    } else if 48 <= b && b <= 57 {
        Some(b + 4)
    } else if b == 45 {
        Some(62)
    } else if b == 95 {
        Some(63)
    } else {
        None
    }
}

proof fn lemma_b64_index_byte(i: u8)
    requires
        i < 64,
    ensures
        b64_index_spec(b64_byte_spec(i)) == Some(i),
        b64_byte_spec(i) < 128,
{
}

// ── encoding ────────────────────────────────────────────────────────────────

/// The 24-bit word of a chunk of one to three bytes (missing bytes count as zero).
pub open spec fn enc_word(c: Seq<u8>) -> u32 {
    let b0 = c[0] as u32;
    let b1 = if c.len() > 1 { c[1] as u32 } else { 0u32 };
    let b2 = if c.len() > 2 { c[2] as u32 } else { 0u32 };
    ((b0 << 16u32) | (b1 << 8u32)) | b2
}

/// The six-bit group `k` (0 to 3, from the left) of a 24-bit word.
pub open spec fn sextet(n: u32, k: int) -> u8 {
    if k == 0 {
        ((n >> 18u32) & 0x3fu32) as u8
    } else if k == 1 {
        ((n >> 12u32) & 0x3fu32) as u8
    } else if k == 2 {
        ((n >> 6u32) & 0x3fu32) as u8
    } else {
        (n & 0x3fu32) as u8
    }
}

/// The encoding of one chunk of one to three bytes: one more character than bytes.
pub open spec fn enc_chunk(c: Seq<u8>) -> Seq<u8> {
    Seq::new((c.len() + 1) as nat, |k: int| b64_byte_spec(sextet(enc_word(c), k)))
}

/// Base64 (URL-safe alphabet, no padding) of a byte sequence, as bytes of the alphabet.
pub open spec fn b64_encode_spec(s: Seq<u8>) -> Seq<u8>
    decreases s.len(),
{
    if s.len() == 0 {
        seq![]
    } else {
        let cl: int = if s.len() >= 3 { 3 } else { s.len() as int };
        enc_chunk(s.take(cl)) + b64_encode_spec(s.skip(cl))
    }
}

/// The characters of a sequence of ASCII bytes.
pub open spec fn as_chars(b: Seq<u8>) -> Seq<char> {
    b.map_values(|x: u8| x as char)
}

/// The bytes of a sequence of characters, each taken as one byte.
pub open spec fn as_bytes(c: Seq<char>) -> Seq<u8> {
    c.map_values(|x: char| x as u8)
}

proof fn lemma_sextet_bound(n: u32)
    ensures
        ((n >> 18u32) & 0x3fu32) < 64,
        ((n >> 12u32) & 0x3fu32) < 64,
        ((n >> 6u32) & 0x3fu32) < 64,
        (n & 0x3fu32) < 64,
{
    assert(((n >> 18u32) & 0x3fu32) < 64) by (bit_vector);
    assert(((n >> 12u32) & 0x3fu32) < 64) by (bit_vector);
    assert(((n >> 6u32) & 0x3fu32) < 64) by (bit_vector);
    assert((n & 0x3fu32) < 64) by (bit_vector);
}

/// Encodes bytes as URL-safe base64 without padding.
pub fn b64_encode(input: &[u8]) -> (r: String)
    ensures
        r@ == as_chars(b64_encode_spec(input@)),
{
    let len = input.len();
    let mut out = String::new();
    let mut i: usize = 0;
    assert(input@.skip(0) =~= input@);
    while i < len
        invariant
            len == input@.len(),
            i <= len,
            as_chars(b64_encode_spec(input@)) == out@ + as_chars(b64_encode_spec(input@.skip(i as int))),
        decreases len - i,
    {
        let rem = len - i;
        let cl: usize = if rem >= 3 { 3 } else { rem };
        let ghost c = input@.skip(i as int).take(cl as int);
        let b0 = input[i] as u32;
        let b1: u32 = if rem > 1 { input[i + 1] as u32 } else { 0 };
        let b2: u32 = if rem > 2 { input[i + 2] as u32 } else { 0 };
        let n: u32 = ((b0 << 16u32) | (b1 << 8u32)) | b2;
        assert(n == enc_word(c));
        proof { lemma_sextet_bound(n); }
        let s0 = ((n >> 18u32) & 0x3f) as u8;
        let s1 = ((n >> 12u32) & 0x3f) as u8;
        let s2 = ((n >> 6u32) & 0x3f) as u8;
        let s3 = (n & 0x3f) as u8;
        let ghost prev = out@;
        push_char(&mut out, b64_byte(s0) as char);
        push_char(&mut out, b64_byte(s1) as char);
        if rem > 1 {
            push_char(&mut out, b64_byte(s2) as char);
        }
        if rem > 2 {
            push_char(&mut out, b64_byte(s3) as char);
        }
        let ghost e = enc_chunk(c);
        assert(out@ =~= prev + as_chars(e));
        let ghost rest = input@.skip(i as int);
        assert(rest.skip(cl as int) =~= input@.skip(i + cl));
        assert(as_chars(b64_encode_spec(rest)) =~= as_chars(e) + as_chars(b64_encode_spec(
            rest.skip(cl as int),
        )));
        i = i + cl;
    }
    assert(input@.skip(len as int) =~= Seq::<u8>::empty());
    assert(as_chars(b64_encode_spec(Seq::<u8>::empty())) =~= Seq::<char>::empty());
    assert(out@ =~= out@ + Seq::<char>::empty());
    out
}

// ── decoding ────────────────────────────────────────────────────────────────

/// Whether every byte belongs to the alphabet.
pub open spec fn all_b64(s: Seq<u8>) -> bool {
    forall|k: int| 0 <= k < s.len() ==> b64_index_spec(#[trigger] s[k]) is Some
}

/// The value of byte `k` of a chunk, zero past its end.
pub open spec fn chunk_val(c: Seq<u8>, k: int) -> u32 {
    if k < c.len() {
        b64_index_spec(c[k]).unwrap() as u32
    } else {
        0u32
    }
}

/// The 24-bit word read back from a chunk of two to four characters.
pub open spec fn dec_word(c: Seq<u8>) -> u32 {
    (((chunk_val(c, 0) << 18u32) | (chunk_val(c, 1) << 12u32)) | (chunk_val(c, 2) << 6u32))
        | chunk_val(c, 3)
}

/// The bytes of one chunk of two to four characters; `None` when a character
/// is outside the alphabet, or when the chunk is a lone final character.
pub open spec fn dec_chunk(c: Seq<u8>) -> Option<Seq<u8>> {
    if c.len() < 2 || !all_b64(c) {
        None
    } else {
        let n = dec_word(c);
        let first = seq![(n >> 16u32) as u8];
        let second = if c.len() > 2 { seq![(n >> 8u32) as u8] } else { seq![] };
        let third = if c.len() > 3 { seq![n as u8] } else { seq![] };
        Some(first + second + third)
    }
}

/// Base64 decoding of a character sequence (taken as bytes), four at a time.
pub open spec fn b64_decode_spec(s: Seq<u8>) -> Option<Seq<u8>>
    decreases s.len(),
{
    if s.len() == 0 {
        Some(seq![])
    } else {
        let cl: int = if s.len() >= 4 { 4 } else { s.len() as int };
        match dec_chunk(s.take(cl)) {
            None => None,
            Some(h) => match b64_decode_spec(s.skip(cl)) {
                None => None,
                Some(t) => Some(h + t),
            },
        }
    }
}

/// Decodes one chunk of two to four characters starting at `i`, appending its bytes.
fn dec_chunk_into(bytes: &[u8], i: usize, cl: usize, out: &mut Vec<u8>) -> (ok: bool)
    requires
        2 <= cl <= 4,
        i + cl <= bytes@.len(),
    ensures
        ok == dec_chunk(bytes@.skip(i as int).take(cl as int)) is Some,
        ok ==> final(out)@ == old(out)@ + dec_chunk(bytes@.skip(i as int).take(cl as int)).unwrap(),
{
    let ghost c = bytes@.skip(i as int).take(cl as int);
    let o0 = b64_index(bytes[i]);
    let o1 = b64_index(bytes[i + 1]);
    let o2: Option<u8> = if cl > 2 { b64_index(bytes[i + 2]) } else { Some(0) };
    let o3: Option<u8> = if cl > 3 { b64_index(bytes[i + 3]) } else { Some(0) };
    if o0.is_none() || o1.is_none() || o2.is_none() || o3.is_none() {
        proof {
            if o0.is_none() {
                assert(c[0] == bytes@[i as int]);
            } else if o1.is_none() {
                assert(c[1] == bytes@[i + 1]);
            } else if o2.is_none() {
                assert(c[2] == bytes@[i + 2]);
            } else {
                assert(c[3] == bytes@[i + 3]);
            }
        }
        return false;
    }
    assert(all_b64(c)) by {
        assert forall|k: int| 0 <= k < c.len() implies b64_index_spec(#[trigger] c[k]) is Some by {
            assert(c[k] == bytes@[i + k]);
            if k == 2 {
                assert(cl > 2);
            }
            if k == 3 {
                assert(cl > 3);
            }
        }
    }
    let v0 = o0.unwrap() as u32;
    let v1 = o1.unwrap() as u32;
    let v2 = o2.unwrap() as u32;
    let v3 = o3.unwrap() as u32;
    assert(v0 == chunk_val(c, 0));
    assert(v1 == chunk_val(c, 1));
    assert(v2 == chunk_val(c, 2));
    assert(v3 == chunk_val(c, 3));
    let n: u32 = (((v0 << 18u32) | (v1 << 12u32)) | (v2 << 6u32)) | v3;
    assert(n == dec_word(c));
    let ghost prev = out@;
    out.push((n >> 16u32) as u8);
    if cl > 2 {
        out.push((n >> 8u32) as u8);
    }
    if cl > 3 {
        out.push(n as u8);
    }
    assert(out@ =~= prev + dec_chunk(c).unwrap());
    true
}

/// Decodes URL-safe base64 without padding; `None` when a character is
/// outside the alphabet or one character is left over after the groups of four.
pub fn b64_decode(input: &str) -> (r: Option<Vec<u8>>)
    ensures
        r matches Some(v) ==> b64_decode_spec(input.spec_bytes()) == Some(v@),
        r is None ==> b64_decode_spec(input.spec_bytes()) is None,
{
    let bytes = input.as_bytes();
    let len = bytes.len();
    let mut out: Vec<u8> = Vec::new();
    let mut i: usize = 0;
    let ghost s = bytes@;
    assert(s.skip(0) =~= s);
    assert(b64_decode_spec(s) == match b64_decode_spec(s.skip(0)) {
        None => None,
        Some(t) => Some(out@ + t),
    }) by {
        match b64_decode_spec(s) {
            None => {},
            Some(t) => { assert(out@ + t =~= t); },
        }
    }
    while i < len
        invariant
            s == bytes@,
            s == input.spec_bytes(),
            len == s.len(),
            i <= len,
            i % 4 == 0 || i == len,
            forall|k: int| 0 <= k < i ==> b64_index_spec(#[trigger] s[k]) is Some,
            b64_decode_spec(s) == match b64_decode_spec(s.skip(i as int)) {
                None => None,
                Some(t) => Some(out@ + t),
            },
        decreases len - i,
    {
        let rem = len - i;
        let cl: usize = if rem >= 4 { 4 } else { rem };
        let ghost rest = s.skip(i as int);
        let ghost c = rest.take(cl as int);
        assert(rest.skip(cl as int) =~= s.skip(i + cl));
        if cl == 1 {
            assert(dec_chunk(c) is None);
            return None;
        }
        let ghost prev = out@;
        let ok = dec_chunk_into(bytes, i, cl, &mut out);
        if !ok {
            return None;
        }
        proof {
            match b64_decode_spec(s.skip(i + cl)) {
                None => {},
                Some(t) => {
                    assert(out@ + t =~= prev + (dec_chunk(c).unwrap() + t));
                },
            }
            assert forall|k: int| 0 <= k < i + cl implies b64_index_spec(#[trigger] s[k]) is Some by {
                if k >= i {
                    assert(s[k] == c[k - i]);
                }
            }
        }
        i = i + cl;
    }
    assert(s.skip(len as int) =~= Seq::<u8>::empty());
    assert(out@ + Seq::<u8>::empty() =~= out@);
    Some(out)
}

// ── reading the JSON text ───────────────────────────────────────────────────

/// The bytes of `"id":`.
pub open spec fn id_key() -> Seq<u8> {
    seq![34u8, 105u8, 100u8, 34u8, 58u8]
}

/// The first position at or after `i` where `key` occurs in `b`.
pub open spec fn find_from(b: Seq<u8>, key: Seq<u8>, i: int) -> Option<int>
    decreases b.len() + 1 - i,
{
    if i < 0 || i + key.len() > b.len() {
        None
    } else if b.subrange(i, i + key.len()) == key {
        Some(i)
    } else {
        find_from(b, key, i + 1)
    }
}

/// ASCII whitespace as `char::is_ascii_whitespace` defines it.
pub open spec fn is_ascii_ws(c: u8) -> bool {
    c == 32 || c == 9 || c == 10 || c == 12 || c == 13
}

/// `b` without its leading ASCII whitespace.
pub open spec fn trim_start(b: Seq<u8>) -> Seq<u8>
    decreases b.len(),
{
    if b.len() > 0 && is_ascii_ws(b[0]) {
        trim_start(b.skip(1))
    } else {
        b
    }
}

/// `b` without its trailing ASCII whitespace.
pub open spec fn trim_end(b: Seq<u8>) -> Seq<u8>
    decreases b.len(),
{
    if b.len() > 0 && is_ascii_ws(b.last()) {
        trim_end(b.drop_last())
    } else {
        b
    }
}

/// Whether a byte is an ASCII digit.
pub open spec fn is_digit_byte(c: u8) -> bool {
    48 <= c && c <= 57
}

/// The length of the leading run of digits and `-` signs.
pub open spec fn number_run(t: Seq<u8>, i: int) -> int
    decreases t.len() - i,
{
    if i < 0 || i >= t.len() {
        if i < 0 { 0 } else { t.len() as int }
    } else if is_digit_byte(t[i]) || t[i] == 45 {
        number_run(t, i + 1)
    } else {
        i
    }
}

/// Whether every byte is a digit.
pub open spec fn all_digits(d: Seq<u8>) -> bool {
    forall|k: int| 0 <= k < d.len() ==> is_digit_byte(#[trigger] d[k])
}

/// The value of a run of digits, read left to right.
pub open spec fn digits_value(d: Seq<u8>) -> nat
    decreases d.len(),
{
    if d.len() == 0 {
        0
    } else {
        digits_value(d.drop_last()) * 10 + (d.last() - 48) as nat
    }
}

/// What `str::parse::<i64>` gives for an ASCII text: an optional sign, then
/// at least one digit, and a value in range.
pub open spec fn parse_i64_spec(t: Seq<u8>) -> Option<i64> {
    if t.len() > 0 && t[0] == 45 {
        let d = t.skip(1);
        if d.len() > 0 && all_digits(d) && digits_value(d) <= 9223372036854775808 {
            Some((-(digits_value(d) as int)) as i64)
        } else {
            None
        }
    } else {
        let d = if t.len() > 0 && t[0] == 43 { t.skip(1) } else { t };
        if d.len() > 0 && all_digits(d) && digits_value(d) <= 9223372036854775807 {
            Some(digits_value(d) as i64)
        } else {
            None
        }
    }
}

/// The cursor id read from the decoded bytes of a token.
pub open spec fn read_cursor_json(b: Seq<u8>) -> Option<i64> {
    if !valid_utf8(b) {
        None
    } else {
        match find_from(b, id_key(), 0) {
            None => None,
            Some(p) => {
                let t = trim_end(trim_start(b.skip(p + 5)));
                parse_i64_spec(t.take(number_run(t, 0)))
            },
        }
    }
}

/// The cursor id of a token, given as its bytes.
pub open spec fn decode_cursor_spec(token: Seq<u8>) -> Option<i64> {
    match b64_decode_spec(token) {
        None => None,
        Some(b) => read_cursor_json(b),
    }
}

/// `std::str::from_utf8(b).is_ok()`: the conversion succeeds exactly when `b`
/// is valid UTF-8 (vstd's `valid_utf8`).
#[verifier::external_body]
fn is_valid_utf8(b: &[u8]) -> (r: bool)
    ensures
        r == valid_utf8(b@),
{
    std::str::from_utf8(b).is_ok()
}

fn find_key(b: &Vec<u8>) -> (r: Option<usize>)
    ensures
        r matches Some(p) ==> find_from(b@, id_key(), 0) == Some(p as int) && p + 5 <= b@.len(),
        r is None ==> find_from(b@, id_key(), 0) is None,
{
    let key: Vec<u8> = vec![34u8, 105u8, 100u8, 34u8, 58u8];
    assert(key@ =~= id_key());
    let mut i: usize = 0;
    while i <= b.len() && b.len() - i >= 5
        invariant
            key@ == id_key(),
            find_from(b@, id_key(), 0) == find_from(b@, id_key(), i as int),
        decreases b.len() - i,
    {
        let mut k: usize = 0;
        let mut same = true;
        while k < 5
            invariant
                i + 5 <= b.len(),
                key@ == id_key(),
                k <= 5,
                same == (forall|j: int| 0 <= j < k ==> b@[i + j] == key@[j]),
            decreases 5 - k,
        {
            if b[i + k] != key[k] {
                same = false;
            }
            k = k + 1;
        }
        if same {
            assert(b@.subrange(i as int, i + 5) =~= id_key());
            return Some(i);
        }
        assert(b@.subrange(i as int, i + 5) != id_key()) by {
            let j = choose|j: int| 0 <= j < 5 && b@[i + j] != key@[j];
            assert(b@.subrange(i as int, i + 5)[j] != id_key()[j]);
        }
        i = i + 1;
    }
    None
}

/// The value of a digit run as `u64`, or `None` when it exceeds `limit`.
fn digits_within(d: &[u8], start: usize, limit: u64) -> (r: Option<u64>)
    requires
        limit >= 9,
        start <= d@.len(),
        all_digits(d@.skip(start as int)),
    ensures
        r matches Some(v) ==> v == digits_value(d@.skip(start as int)) && v <= limit,
        r is None ==> digits_value(d@.skip(start as int)) > limit,
{
    let ghost ds = d@.skip(start as int);
    let mut acc: u64 = 0;
    let mut i: usize = start;
    assert(ds.take(0) =~= Seq::<u8>::empty());
    while i < d.len()
        invariant
            start <= i <= d@.len(),
            ds == d@.skip(start as int),
            all_digits(ds),
            acc == digits_value(ds.take(i - start)),
            acc <= limit,
            limit >= 9,
        decreases d.len() - i,
    {
        assert(ds[i - start] == d@[i as int]);
        assert(is_digit_byte(ds[i - start]));
        let dig = (d[i] - 48u8) as u64;
        assert(ds.take(i - start + 1).drop_last() =~= ds.take(i - start));
        assert(digits_value(ds.take(i - start + 1)) == acc * 10 + dig);
        if acc > (limit - dig) / 10 {
            // acc * 10 + dig > limit, and the value only grows from here
            assert(acc * 10 + dig > limit) by (nonlinear_arith)
                requires acc > (limit - dig) / 10, dig <= limit;
            proof { lemma_digits_value_prefix(ds, i - start + 1); }
            return None;
        }
        assert(acc * 10 + dig <= limit) by (nonlinear_arith)
            requires acc <= (limit - dig) / 10, dig <= limit;
        acc = acc * 10 + dig;
        i = i + 1;
    }
    assert(ds.take(d.len() - start) =~= ds);
    Some(acc)
}

/// A prefix of a digit run never has a greater value than the run.
proof fn lemma_digits_value_prefix(ds: Seq<u8>, n: int)
    requires
        0 <= n <= ds.len(),
        all_digits(ds),
    ensures
        digits_value(ds.take(n)) <= digits_value(ds),
    decreases ds.len() - n,
{
    if n < ds.len() {
        lemma_digits_value_prefix(ds, n + 1);
        assert(ds.take(n + 1).drop_last() =~= ds.take(n));
        assert(is_digit_byte(ds[n]));
        assert(digits_value(ds.take(n + 1)) == digits_value(ds.take(n)) * 10 + (ds[n] - 48) as nat);
    } else {
        assert(ds.take(n) =~= ds);
    }
}

/// `str::parse::<i64>` on an ASCII text.
fn parse_i64(t: &[u8]) -> (r: Option<i64>)
    ensures
        r == parse_i64_spec(t@),
{
    let len = t.len();
    if len == 0 {
        return None;
    }
    let neg = t[0] == 45;
    let start: usize = if t[0] == 45 || t[0] == 43 { 1 } else { 0 };
    if start >= len {
        assert(t@.skip(1).len() == 0);
        return None;
    }
    let mut k: usize = start;
    while k < len
        invariant
            start <= k <= len,
            len == t@.len(),
            len > 0,
            start == (if t@[0] == 45 || t@[0] == 43 { 1usize } else { 0usize }),
            forall|j: int| start <= j < k ==> is_digit_byte(#[trigger] t@[j]),
        decreases len - k,
    {
        if t[k] < 48 || t[k] > 57 {
            assert(!all_digits(t@.skip(start as int))) by {
                assert(t@.skip(start as int)[k - start] == t@[k as int]);
            }
            if start == 0 {
                assert(t@.skip(0) =~= t@);
            }
            return None;
        }
        k = k + 1;
    }
    assert(all_digits(t@.skip(start as int))) by {
        assert forall|j: int| 0 <= j < t@.skip(start as int).len() implies is_digit_byte(
            #[trigger] t@.skip(start as int)[j],
        ) by {
            assert(t@.skip(start as int)[j] == t@[start + j]);
        }
    }
    if start == 0 {
        assert(t@.skip(0) =~= t@);
    }
    if neg {
        match digits_within(t, start, 9223372036854775808u64) {
            None => None,
            Some(v) => {
                if v == 9223372036854775808u64 {
                    Some(i64::MIN)
                } else {
                    Some(-(v as i64))
                }
            },
        }
    } else {
        match digits_within(t, start, 9223372036854775807u64) {
            None => None,
            Some(v) => Some(v as i64),
        }
    }
}

/// Reads `{"id":N}` (decoded from a token) back into `N`.
fn read_cursor(b: &Vec<u8>) -> (r: Option<i64>)
    ensures
        r == read_cursor_json(b@),
{
    if !is_valid_utf8(b.as_slice()) {
        return None;
    }
    let p = match find_key(b) {
        None => return None,
        Some(p) => p,
    };
    let len = b.len();
    assert(p + 5 <= len);
    let mut s: usize = p + 5;
    let ghost after = b@.skip(p + 5);
    // leading whitespace
    while s < len && (b[s] == 32 || b[s] == 9 || b[s] == 10 || b[s] == 12 || b[s] == 13)
        invariant
            p + 5 <= s <= len,
            len == b@.len(),
            trim_start(after) == trim_start(b@.skip(s as int)),
        decreases len - s,
    {
        assert(b@.skip(s as int).skip(1) =~= b@.skip(s + 1));
        s = s + 1;
    }
    assert(trim_start(after) == b@.skip(s as int));
    // trailing whitespace
    let mut e: usize = len;
    while e > s && (b[e - 1] == 32 || b[e - 1] == 9 || b[e - 1] == 10 || b[e - 1] == 12 || b[e
        - 1] == 13)
        invariant
            s <= e <= len,
            len == b@.len(),
            trim_end(b@.skip(s as int)) == trim_end(b@.subrange(s as int, e as int)),
        decreases e,
    {
        assert(b@.subrange(s as int, e as int).drop_last() =~= b@.subrange(s as int, e - 1));
        e = e - 1;
    }
    let ghost t = b@.subrange(s as int, e as int);
    assert(trim_end(b@.skip(s as int)) == t);
    // run of digits and signs
    let mut q: usize = s;
    while q < e && ((b[q] >= 48 && b[q] <= 57) || b[q] == 45)
        invariant
            s <= q <= e,
            e <= len,
            len == b@.len(),
            t == b@.subrange(s as int, e as int),
            number_run(t, 0) == number_run(t, q - s),
        decreases e - q,
    {
        assert(t[q - s] == b@[q as int]);
        q = q + 1;
    }
    if q < e {
        assert(t[q - s] == b@[q as int]);
    }
    assert(number_run(t, q - s) == q - s);
    assert(t.take(q - s) =~= b@.subrange(s as int, q as int));
    let run = vstd::slice::slice_subrange(b.as_slice(), s, q);
    parse_i64(run)
}

// ── tokens ──────────────────────────────────────────────────────────────────

/// The JSON text `{"id":N}` of a cursor id, as bytes.
pub open spec fn cursor_json(id: i64) -> Seq<u8> {
    seq![123u8, 34u8, 105u8, 100u8, 34u8, 58u8] + as_bytes(int_dec(id as int)) + seq![125u8]
}

/// The token of a cursor id: base64 of its JSON text.
pub open spec fn encode_cursor_spec(id: i64) -> Seq<char> {
    as_chars(b64_encode_spec(cursor_json(id)))
}

/// Encode cursor id → opaque base64 JSON token.
pub fn encode_cursor(id: i64) -> (r: String)
    ensures
        r@ == encode_cursor_spec(id),
{
    let dec = i64_dec(id);
    let digits = chars_of(dec.as_str());
    let mut bytes: Vec<u8> = vec![123u8, 34u8, 105u8, 100u8, 34u8, 58u8];
    let mut i: usize = 0;
    while i < digits.len()
        invariant
            i <= digits@.len(),
            digits@ == int_dec(id as int),
            bytes@ == seq![123u8, 34u8, 105u8, 100u8, 34u8, 58u8] + as_bytes(digits@.take(i as int)),
        decreases digits.len() - i,
    {
        bytes.push(digits[i] as u8);
        assert(as_bytes(digits@.take(i + 1)) =~= as_bytes(digits@.take(i as int)).push(
            digits@[i as int] as u8,
        ));
        i = i + 1;
    }
    bytes.push(125u8);
    assert(digits@.take(digits.len() as int) =~= digits@);
    assert(bytes@ =~= cursor_json(id));
    b64_encode(bytes.as_slice())
}

/// Decode opaque base64 JSON token → cursor id.
///
/// `None` when the token is not base64 of UTF-8 text holding `"id":` followed
/// by an integer.
pub fn decode_cursor(token: &str) -> (r: Option<i64>)
    ensures
        r == decode_cursor_spec(token.spec_bytes()),
{
    match b64_decode(token) {
        None => None,
        Some(bytes) => read_cursor(&bytes),
    }
}

// ── pages ───────────────────────────────────────────────────────────────────

/// Input parameters for a cursor-paginated query.
#[derive(Debug, Clone)]
pub struct CursorPage {
    /// The cursor from the previous page's `next_cursor`. `None` for the first page.
    pub after: Option<i64>,
    /// Maximum number of records per page.
    pub limit: usize,
}

impl CursorPage {
    /// Create a page cursor for the first page.
    pub fn first(limit: usize) -> (r: Self)
        ensures
            r.after is None,
            r.limit == limit,
    {
        CursorPage { after: None, limit }
    }

    /// Create a page cursor from a known raw cursor value.
    pub fn after(cursor: i64, limit: usize) -> (r: Self)
        ensures
            r.after == Some(cursor),
            r.limit == limit,
    {
        CursorPage { after: Some(cursor), limit }
    }

    /// Decode an opaque token produced by [`CursorResult::next_token`].
    /// Returns `None` if the token is invalid.
    pub fn from_token(token: Option<&str>, limit: usize) -> (r: Option<Self>)
        ensures
            token is None ==> (r matches Some(p) && p.after is None && p.limit == limit),
            token matches Some(t) ==> match decode_cursor_spec(t.spec_bytes()) {
                None => r is None,
                Some(id) => (r matches Some(p) && p.after == Some(id) && p.limit == limit),
            },
    {
        match token {
            None => Some(Self::first(limit)),
            Some(t) => match decode_cursor(t) {
                None => None,
                Some(id) => Some(CursorPage { after: Some(id), limit }),
            },
        }
    }
}

/// The result of a cursor-paginated query.
#[derive(Debug, Clone)]
pub struct CursorResult<T> {
    /// The records on this page.
    pub data: Vec<T>,
    /// Cursor value to pass as `CursorPage::after` for the next page.
    /// `None` if this is the last page.
    pub next_cursor: Option<i64>,
    /// Whether more records exist after this page.
    pub has_more: bool,
}

impl<T> CursorResult<T> {
    /// Build a `CursorResult` from a batch that may contain one extra record.
    ///
    /// Pass `limit + 1` rows; if `rows.len() > limit`, trims the rows to `limit`
    /// and sets `has_more = true`. `get_id` extracts the cursor value from a row;
    /// the cursor is that of the last row kept.
    pub fn from_rows<F: Fn(&T) -> i64>(rows: Vec<T>, limit: usize, get_id: F) -> (r: Self)
        requires
            forall|t: &T| #[trigger] get_id.requires((t,)),
        ensures
            r.has_more == (rows@.len() > limit),
            r.data@ == (if rows@.len() > limit { rows@.take(limit as int) } else { rows@ }),
            !r.has_more ==> r.next_cursor is None,
            r.has_more && limit == 0 ==> r.next_cursor is None,
            r.has_more && limit > 0 ==> (r.next_cursor matches Some(id) && get_id.ensures(
                (&rows@[limit - 1],),
                id,
            )),
    {
        let mut rows = rows;
        let has_more = rows.len() > limit;
        if has_more {
            rows.truncate(limit);
        }
        let next_cursor = if has_more && rows.len() > 0 {
            let last = rows.len() - 1;
            Some(get_id(&rows[last]))
        } else {
            None
        };
        CursorResult { data: rows, next_cursor, has_more }
    }

    /// Encode `next_cursor` as an opaque base64 token for use in API responses.
    /// Pass the returned string to [`CursorPage::from_token`] to continue pagination.
    pub fn next_token(&self) -> (r: Option<String>)
        ensures
            self.next_cursor is None ==> r is None,
            self.next_cursor matches Some(id) ==> (r matches Some(t) && t@ == encode_cursor_spec(id)),
    {
        match self.next_cursor {
            None => None,
            Some(id) => Some(encode_cursor(id)),
        }
    }
}

// ── the round trip of a token ───────────────────────────────────────────────

proof fn lemma_b64_word(b0: u32, b1: u32, b2: u32)
    by (bit_vector)
    requires
        b0 < 256,
        b1 < 256,
        b2 < 256,
    ensures
        ((((((((b0 << 16u32) | (b1 << 8u32)) | b2) >> 18u32) & 0x3fu32) << 18u32) | ((((((b0
            << 16u32) | (b1 << 8u32)) | b2) >> 12u32) & 0x3fu32) << 12u32)) | ((((((b0 << 16u32)
            | (b1 << 8u32)) | b2) >> 6u32) & 0x3fu32) << 6u32)) | ((((b0 << 16u32) | (b1 << 8u32))
            | b2) & 0x3fu32) == ((b0 << 16u32) | (b1 << 8u32)) | b2,
        ((((b0 << 16u32) | (b1 << 8u32)) | b2) >> 16u32) as u8 == b0 as u8,
        ((((b0 << 16u32) | (b1 << 8u32)) | b2) >> 8u32) as u8 == b1 as u8,
        (((b0 << 16u32) | (b1 << 8u32)) | b2) as u8 == b2 as u8,
        b2 == 0 ==> ((((b0 << 16u32) | (b1 << 8u32)) | b2) & 0x3fu32) == 0,
        b1 == 0 && b2 == 0 ==> (((((b0 << 16u32) | (b1 << 8u32)) | b2) >> 6u32) & 0x3fu32) == 0,
{
}

proof fn lemma_sextet_small(n: u32, k: int)
    ensures
        sextet(n, k) < 64,
        k == 0 ==> sextet(n, k) as u32 == (n >> 18u32) & 0x3fu32,
        k == 1 ==> sextet(n, k) as u32 == (n >> 12u32) & 0x3fu32,
        k == 2 ==> sextet(n, k) as u32 == (n >> 6u32) & 0x3fu32,
        k == 3 ==> sextet(n, k) as u32 == n & 0x3fu32,
{
    lemma_sextet_bound(n);
}

/// Decoding the encoding of one chunk gives the chunk back.
proof fn lemma_chunk_roundtrip(c: Seq<u8>)
    requires
        1 <= c.len() <= 3,
    ensures
        dec_chunk(enc_chunk(c)) == Some(c),
        all_b64(enc_chunk(c)),
{
    let w = enc_word(c);
    let e = enc_chunk(c);
    let b0 = c[0] as u32;
    let b1 = if c.len() > 1 { c[1] as u32 } else { 0u32 };
    let b2 = if c.len() > 2 { c[2] as u32 } else { 0u32 };
    lemma_b64_word(b0, b1, b2);
    assert forall|k: int| 0 <= k < e.len() implies b64_index_spec(#[trigger] e[k]) == Some(
        sextet(w, k),
    ) by {
        lemma_sextet_small(w, k);
        lemma_b64_index_byte(sextet(w, k));
    }
    assert(all_b64(e));
    assert forall|k: int| 0 <= k < 4 implies #[trigger] chunk_val(e, k) == (if k < e.len() {
        sextet(w, k) as u32
    } else {
        0u32
    }) by {
        lemma_sextet_small(w, k);
    }
    lemma_sextet_small(w, 0);
    lemma_sextet_small(w, 1);
    lemma_sextet_small(w, 2);
    lemma_sextet_small(w, 3);
    assert(dec_word(e) == w);
    assert(dec_chunk(e).unwrap() =~= c);
}

/// The length of an encoding is never one more than a multiple of four, and
/// each of its bytes belongs to the alphabet.
proof fn lemma_encode_shape(x: Seq<u8>)
    ensures
        b64_encode_spec(x).len() % 4 != 1,
        b64_encode_spec(x).len() == 4 * (x.len() / 3) + (if x.len() % 3 == 0 { 0 } else { x.len() % 3 + 1 }),
        all_b64(b64_encode_spec(x)),
        forall|k: int| 0 <= k < b64_encode_spec(x).len() ==> #[trigger] b64_encode_spec(x)[k] < 128,
    decreases x.len(),
{
    if x.len() > 0 {
        let cl: int = if x.len() >= 3 { 3 } else { x.len() as int };
        lemma_encode_shape(x.skip(cl));
        lemma_chunk_roundtrip(x.take(cl));
        let e = enc_chunk(x.take(cl));
        let r = b64_encode_spec(x.skip(cl));
        assert(b64_encode_spec(x) == e + r);
        assert forall|k: int| 0 <= k < e.len() implies #[trigger] e[k] < 128 by {
            lemma_sextet_small(enc_word(x.take(cl)), k);
            lemma_b64_index_byte(sextet(enc_word(x.take(cl)), k));
        }
        assert forall|k: int| 0 <= k < (e + r).len() implies b64_index_spec(#[trigger] (e + r)[k]) is Some by {
            if k < e.len() {
                assert((e + r)[k] == e[k]);
            } else {
                assert((e + r)[k] == r[k - e.len()]);
            }
        }
        assert forall|k: int| 0 <= k < (e + r).len() implies #[trigger] (e + r)[k] < 128 by {
            if k < e.len() {
                assert((e + r)[k] == e[k]);
            } else {
                assert((e + r)[k] == r[k - e.len()]);
            }
        }
    }
}

/// Decoding an encoding gives the bytes back.
proof fn lemma_b64_roundtrip(x: Seq<u8>)
    ensures
        b64_decode_spec(b64_encode_spec(x)) == Some(x),
    decreases x.len(),
{
    if x.len() > 0 {
        let cl: int = if x.len() >= 3 { 3 } else { x.len() as int };
        let e = enc_chunk(x.take(cl));
        let r = b64_encode_spec(x.skip(cl));
        let whole = b64_encode_spec(x);
        assert(whole == e + r);
        lemma_b64_roundtrip(x.skip(cl));
        lemma_chunk_roundtrip(x.take(cl));
        lemma_encode_shape(x.skip(cl));
        if x.len() >= 3 {
            assert(whole.take(4) =~= e);
            assert(whole.skip(4) =~= r);
        } else {
            assert(x.skip(cl).len() == 0);
            assert(r.len() == 0);
            assert(whole.take(whole.len() as int) =~= e);
            assert(whole.skip(whole.len() as int) =~= r);
        }
        assert(x.take(cl) + x.skip(cl) =~= x);
    } else {
        assert(b64_decode_spec(b64_encode_spec(x)).unwrap() =~= x);
    }
}

/// Bytes below 128 form valid UTF-8.
proof fn lemma_ascii_valid_utf8(b: Seq<u8>)
    requires
        forall|k: int| 0 <= k < b.len() ==> #[trigger] b[k] < 128,
    ensures
        valid_utf8(b),
    decreases b.len(),
{
    if b.len() > 0 {
        let rest = b.subrange(1, b.len() as int);
        assert forall|k: int| 0 <= k < rest.len() implies #[trigger] rest[k] < 128 by {
            assert(rest[k] == b[k + 1]);
        }
        lemma_ascii_valid_utf8(rest);
        assert(vstd::utf8::pop_first_scalar(b) =~= rest);
    }
}

/// The characters of ASCII bytes are encoded as those same bytes.
proof fn lemma_ascii_chars_bytes(b: Seq<u8>)
    requires
        forall|k: int| 0 <= k < b.len() ==> #[trigger] b[k] < 128,
    ensures
        vstd::utf8::encode_utf8(as_chars(b)) == b,
{
    let cs = as_chars(b);
    assert(vstd::utf8::is_ascii_chars(cs)) by {
        assert forall|k: int| 0 <= k < cs.len() implies '\0' <= #[trigger] cs[k] <= '\u{7f}' by {
            assert(cs[k] == b[k] as char);
        }
    }
    vstd::utf8::is_ascii_chars_encode_utf8(cs);
    assert forall|k: int| 0 <= k < b.len() implies #[trigger] vstd::utf8::encode_utf8(cs)[k] == b[k] by {
        assert(cs[k] == b[k] as char);
        assert((b[k] as char) as u8 == b[k]);
    }
    assert(vstd::utf8::encode_utf8(cs) =~= b);
}

/// The bytes of a decimal rendering are digits, and they read back as the number.
proof fn lemma_dec_bytes(n: nat)
    ensures
        all_digits(as_bytes(nat_dec(n))),
        as_bytes(nat_dec(n)).len() >= 1,
        digits_value(as_bytes(nat_dec(n))) == n,
    decreases n,
{
    let d = as_bytes(nat_dec(n));
    if n < 10 {
        assert(d =~= seq![(digit_char(n) as u8)]);
        assert(digit_char(n) as u8 == (n + 48) as u8);
        assert(d.drop_last() =~= Seq::<u8>::empty());
        assert(digits_value(d.drop_last()) == 0);
        assert(d.last() == (n + 48) as u8);
        assert(digits_value(d) == digits_value(d.drop_last()) * 10 + (d.last() - 48) as nat);
    } else {
        lemma_dec_bytes(n / 10);
        let p = as_bytes(nat_dec(n / 10));
        assert(d =~= p.push(digit_char(n % 10) as u8));
        assert(digit_char(n % 10) as u8 == (n % 10 + 48) as u8);
        assert(d.drop_last() =~= p);
        assert(d.last() == (n % 10 + 48) as u8);
        assert((d.last() - 48) as nat == n % 10);
        assert((n / 10) * 10 + n % 10 == n) by (nonlinear_arith);
        assert(digits_value(d) == digits_value(p) * 10 + (d.last() - 48) as nat);
        assert forall|k: int| 0 <= k < d.len() implies is_digit_byte(#[trigger] d[k]) by {
            if k < p.len() {
                assert(d[k] == p[k]);
            }
        }
    }
}

/// The decimal rendering of an `i64` is at most 20 bytes of digits and `-`.
proof fn lemma_int_dec_bytes(id: i64)
    ensures
        parse_i64_spec(as_bytes(int_dec(id as int))) == Some(id),
        as_bytes(int_dec(id as int)).len() >= 1,
        forall|k: int| 0 <= k < as_bytes(int_dec(id as int)).len() ==> {
            let c = #[trigger] as_bytes(int_dec(id as int))[k];
            is_digit_byte(c) || c == 45
        },
{
    let d = as_bytes(int_dec(id as int));
    if id < 0 {
        let m: nat = (-(id as int)) as nat;
        lemma_dec_bytes(m);
        let ds = as_bytes(nat_dec(m));
        assert(d =~= seq![45u8] + ds);
        assert(d.skip(1) =~= ds);
        assert forall|k: int| 0 <= k < d.len() implies {
            let c = #[trigger] d[k];
            is_digit_byte(c) || c == 45
        } by {
            if k > 0 {
                assert(d[k] == ds[k - 1]);
            }
        }
    } else {
        lemma_dec_bytes(id as nat);
        assert(is_digit_byte(d[0]));
    }
}

/// The number run of a rendering followed by `}` covers exactly the rendering.
proof fn lemma_number_run(d: Seq<u8>, i: int)
    requires
        0 <= i <= d.len(),
        forall|k: int| 0 <= k < d.len() ==> {
            let c = #[trigger] d[k];
            is_digit_byte(c) || c == 45
        },
    ensures
        number_run(d.push(125u8), i) == d.len(),
    decreases d.len() - i,
{
    let t = d.push(125u8);
    if i < d.len() {
        assert(t[i] == d[i]);
        lemma_number_run(d, i + 1);
    } else {
        assert(t[i] == 125u8);
    }
}

/// The JSON text of a cursor id reads back as that id.
proof fn lemma_read_cursor_json(id: i64)
    ensures
        read_cursor_json(cursor_json(id)) == Some(id),
{
    let b = cursor_json(id);
    let d = as_bytes(int_dec(id as int));
    lemma_int_dec_bytes(id);
    assert forall|k: int| 0 <= k < b.len() implies #[trigger] b[k] < 128 by {
        if 6 <= k < 6 + d.len() {
            assert(b[k] == d[k - 6]);
        }
    }
    lemma_ascii_valid_utf8(b);
    assert(b.subrange(0, 5)[0] != id_key()[0]);
    assert(b.subrange(1, 6) =~= id_key());
    assert(find_from(b, id_key(), 1) == Some(1int));
    assert(find_from(b, id_key(), 0) == Some(1int));
    let after = b.skip(6);
    assert(after =~= d.push(125u8));
    assert(!is_ascii_ws(after[0])) by {
        assert(after[0] == d[0]);
    }
    assert(trim_start(after) == after);
    assert(after.last() == 125u8);
    assert(trim_end(after) == after);
    lemma_number_run(d, 0);
    assert(after.take(d.len() as int) =~= d);
}

/// Reading back the token of a cursor id gives the id.
pub proof fn lemma_cursor_token_roundtrip(id: i64)
    ensures
        decode_cursor_spec(vstd::utf8::encode_utf8(encode_cursor_spec(id))) == Some(id),
{
    let x = cursor_json(id);
    let e = b64_encode_spec(x);
    lemma_encode_shape(x);
    lemma_ascii_chars_bytes(e);
    lemma_b64_roundtrip(x);
    lemma_read_cursor_json(id);
}

/// Base64 round trip: decoding what encoding gives returns the bytes; the
/// encoding is `(4 * len + 2) / 3` characters long, all from the URL-safe
/// alphabet.
pub proof fn lemma_b64_encode_decode(x: Seq<u8>)
    ensures
        b64_decode_spec(b64_encode_spec(x)) == Some(x),
        b64_encode_spec(x).len() == (4 * x.len() + 2) / 3,
        all_b64(b64_encode_spec(x)),
{
    lemma_b64_roundtrip(x);
    lemma_encode_shape(x);
    let n = x.len() as int;
    assert(4 * (n / 3) + (if n % 3 == 0 { 0 } else { n % 3 + 1 }) == (4 * n + 2) / 3) by (nonlinear_arith)
        requires
            n >= 0,
    ;
}

} // verus!
