//! Text helpers: decimal rendering, joining, replacing, and small string utilities.

use vstd::prelude::*;

verus! {

// ── trusted std call ────────────────────────────────────────────────────────

/// `String::push`: the string afterwards is the old one with `c` appended.
#[verifier::external_body]
pub(crate) fn push_char(s: &mut String, c: char)
    ensures
        final(s)@ == old(s)@.push(c),
{
    s.push(c);
}

// ── comparing ───────────────────────────────────────────────────────────────

/// Whether two slices hold the same characters in the same order.
pub(crate) fn str_eq(a: &str, b: &str) -> (r: bool)
    ensures
        r == (a@ == b@),
{
    let x = chars_of(a);
    let y = chars_of(b);
    if x.len() != y.len() {
        assert(a@.len() != b@.len());
        return false;
    }
    let mut i: usize = 0;
    while i < x.len()
        invariant
            x@ == a@,
            y@ == b@,
            x@.len() == y@.len(),
            i <= x@.len(),
            forall|j: int| 0 <= j < i ==> x@[j] == y@[j],
        decreases x.len() - i,
    {
        if x[i] != y[i] {
            assert(a@[i as int] != b@[i as int]);
            return false;
        }
        i = i + 1;
    }
    assert(a@ =~= b@);
    true
}

// ── characters ──────────────────────────────────────────────────────────────

/// Characters of a string slice, in order.
pub fn chars_of(s: &str) -> (r: Vec<char>)
    ensures
        r@ == s@,
{
    let mut out: Vec<char> = Vec::new();
    for c in it: s.chars()
        invariant
            out@ == it.seq().take(it.index() as int),
            it.seq() == s@,
    {
        out.push(c);
    }
    out
}

/// A fresh `String` holding the given characters.
pub fn string_of_chars(cs: &Vec<char>) -> (r: String)
    ensures
        r@ == cs@,
{
    let mut out = String::new();
    let mut i: usize = 0;
    while i < cs.len()
        invariant
            i <= cs.len(),
            out@ == cs@.take(i as int),
        decreases cs.len() - i,
    {
        push_char(&mut out, cs[i]);
        assert(cs@.take(i + 1) =~= cs@.take(i as int).push(cs@[i as int]));
        i = i + 1;
    }
    assert(cs@.take(cs.len() as int) =~= cs@);
    out
}

/// A fresh `String` holding the characters of `s`.
pub fn owned(s: &str) -> (r: String)
    ensures
        r@ == s@,
{
    s.to_owned()
}

/// Appends `b` to `a`.
pub fn append(a: &mut String, b: &str)
    ensures
        final(a)@ == old(a)@ + b@,
{
    a.append(b);
}

// ── decimal rendering ───────────────────────────────────────────────────────

/// The character of a decimal digit.
pub open spec fn digit_char(d: nat) -> char
    recommends
        d < 10,
{
    (d + 48) as char
}

/// Whether `c` is an ASCII decimal digit.
pub open spec fn is_digit(c: char) -> bool {
    '0' <= c && c <= '9'
}

/// Decimal rendering of a natural number, with no leading zeros.
pub open spec fn nat_dec(n: nat) -> Seq<char>
    decreases n,
{
    if n < 10 {
        seq![digit_char(n)]
    } else {
        nat_dec(n / 10).push(digit_char(n % 10))
    }
}

/// Decimal rendering of an integer: a leading `-` for negative values.
pub open spec fn int_dec(i: int) -> Seq<char> {
    if i < 0 {
        seq!['-'] + nat_dec((-i) as nat)
    } else {
        nat_dec(i as nat)
    }
}

/// Every character of a decimal rendering is a digit, and there is at least one.
pub proof fn lemma_nat_dec_digits(n: nat)
    ensures
        nat_dec(n).len() >= 1,
        forall|k: int| 0 <= k < nat_dec(n).len() ==> is_digit(#[trigger] nat_dec(n)[k]),
    decreases n,
{
    if n >= 10 {
        lemma_nat_dec_digits(n / 10);
    }
}

/// Decimal rendering of a `u64`.
pub fn u64_dec(n: u64) -> (r: String)
    ensures
        r@ == nat_dec(n as nat),
{
    // collect digits least-significant first
    let mut digits: Vec<char> = Vec::new();
    let mut m: u64 = n;
    assert(nat_dec(n as nat) =~= nat_dec(m as nat) + digits@.reverse());
    while m >= 10
        invariant
            nat_dec(n as nat) == nat_dec(m as nat) + digits@.reverse(),
        decreases m,
    {
        let d = m % 10;
        let c = ((d as u8) + 48u8) as char;
        assert(c == digit_char((m % 10) as nat));
        let ghost old_digits = digits@;
        digits.push(c);
        assert(nat_dec(m as nat) == nat_dec((m / 10) as nat).push(digit_char((m % 10) as nat)));
        assert(digits@.reverse() =~= seq![c] + old_digits.reverse());
        assert(nat_dec((m / 10) as nat).push(c) + old_digits.reverse() =~= nat_dec((m / 10) as nat)
            + (seq![c] + old_digits.reverse()));
        m = m / 10;
    }
    let c = ((m as u8) + 48u8) as char;
    assert(c == digit_char(m as nat));
    let ghost old_digits = digits@;
    digits.push(c);
    assert(nat_dec(m as nat) == seq![digit_char(m as nat)]);
    assert(digits@.reverse() =~= seq![c] + old_digits.reverse());
    let mut out = String::new();
    let len = digits.len();
    let mut i: usize = 0;
    while i < len
        invariant
            len == digits@.len(),
            i <= len,
            out@ == digits@.reverse().take(i as int),
        decreases len - i,
    {
        push_char(&mut out, digits[len - 1 - i]);
        assert(digits@.reverse().take(i + 1) =~= digits@.reverse().take(i as int).push(
            digits@[len - 1 - i],
        ));
        i = i + 1;
    }
    assert(digits@.reverse().take(len as int) =~= digits@.reverse());
    out
}

/// Decimal rendering of a `usize`.
pub fn usize_dec(n: usize) -> (r: String)
    ensures
        r@ == nat_dec(n as nat),
{
    u64_dec(n as u64)
}

/// Decimal rendering of an `i64`, as `Display` writes it.
pub fn i64_dec(n: i64) -> (r: String)
    ensures
        r@ == int_dec(n as int),
{
    if n < 0 {
        let mag: u64 = if n == i64::MIN {
            9223372036854775808u64
        } else {
            (-n) as u64
        };
        let digits = u64_dec(mag);
        let mut out = String::new();
        push_char(&mut out, '-');
        append(&mut out, digits.as_str());
        assert(out@ =~= seq!['-'] + nat_dec((-(n as int)) as nat));
        out
    } else {
        u64_dec(n as u64)
    }
}

// ── qualified names ─────────────────────────────────────────────────────────

/// `a.b`.
pub open spec fn dot(a: Seq<char>, b: Seq<char>) -> Seq<char> {
    a + seq!['.'] + b
}

/// The qualified name `a.b`.
pub fn dotted(a: &str, b: &str) -> (r: String)
    ensures
        r@ == dot(a@, b@),
{
    let mut out = owned(a);
    push_char(&mut out, '.');
    append(&mut out, b);
    out
}

/// `a + b` as a fresh string.
pub fn cat_str(a: &str, b: &str) -> (r: String)
    ensures
        r@ == a@ + b@,
{
    let mut out = owned(a);
    append(&mut out, b);
    out
}

// ── joining ─────────────────────────────────────────────────────────────────

/// `parts` joined with `sep` between neighbours.
pub open spec fn seq_join(parts: Seq<Seq<char>>, sep: Seq<char>) -> Seq<char>
    decreases parts.len(),
{
    if parts.len() == 0 {
        seq![]
    } else if parts.len() == 1 {
        parts[0]
    } else {
        seq_join(parts.drop_last(), sep) + sep + parts.last()
    }
}

/// The characters of each string of a sequence.
pub open spec fn views(v: Seq<String>) -> Seq<Seq<char>> {
    v.map_values(|s: String| s@)
}

/// The characters of a sequence with one more string.
pub proof fn lemma_views_push(v: Seq<String>, x: String)
    ensures
        views(v.push(x)) == views(v).push(x@),
{
    assert(views(v.push(x)) =~= views(v).push(x@));
}

/// Joins strings with a separator.
pub fn join(parts: &Vec<String>, sep: &str) -> (r: String)
    ensures
        r@ == seq_join(views(parts@), sep@),
{
    let mut out = String::new();
    let ghost vs = views(parts@);
    let mut i: usize = 0;
    while i < parts.len()
        invariant
            i <= parts.len(),
            vs == views(parts@),
            vs.len() == parts.len(),
            out@ == seq_join(vs.take(i as int), sep@),
        decreases parts.len() - i,
    {
        assert(vs[i as int] == parts@[i as int]@);
        if i > 0 {
            append(&mut out, sep);
        }
        append(&mut out, parts[i].as_str());
        assert(vs.take(i + 1).drop_last() =~= vs.take(i as int));
        if i == 0 {
            assert(out@ =~= vs.take(1)[0]);
        }
        i = i + 1;
    }
    assert(vs.take(parts.len() as int) =~= vs);
    out
}

// ── replacing ───────────────────────────────────────────────────────────────

/// Every occurrence of `from` in `s`, scanned left to right without overlap,
/// replaced by `to`.
pub open spec fn seq_replace(s: Seq<char>, from: Seq<char>, to: Seq<char>) -> Seq<char>
    recommends
        from.len() > 0,
    decreases s.len(),
{
    if s.len() == 0 || from.len() == 0 {
        s
    } else if from.len() <= s.len() && s.take(from.len() as int) == from {
        to + seq_replace(s.skip(from.len() as int), from, to)
    } else {
        seq![s[0]] + seq_replace(s.skip(1), from, to)
    }
}

/// Whether `pat` occurs in `s` at position `i`.
fn matches_at(s: &Vec<char>, i: usize, pat: &Vec<char>) -> (r: bool)
    requires
        i <= s.len(),
    ensures
        r == (pat.len() <= s.len() - i && s@.skip(i as int).take(pat.len() as int) == pat@),
{
    if pat.len() > s.len() - i {
        return false;
    }
    let mut k: usize = 0;
    while k < pat.len()
        invariant
            pat.len() <= s.len() - i,
            k <= pat.len(),
            forall|j: int| 0 <= j < k ==> s@[i + j] == pat@[j],
        decreases pat.len() - k,
    {
        if s[i + k] != pat[k] {
            assert(s@.skip(i as int).take(pat.len() as int)[k as int] != pat@[k as int]);
            return false;
        }
        k = k + 1;
    }
    assert(s@.skip(i as int).take(pat.len() as int) =~= pat@);
    true
}

/// Replaces every occurrence of `from` by `to`, as `str::replace` does.
pub fn replace(s: &str, from: &str, to: &str) -> (r: String)
    requires
        from@.len() > 0,
    ensures
        r@ == seq_replace(s@, from@, to@),
{
    let cs = chars_of(s);
    let pat = chars_of(from);
    let mut out = String::new();
    let mut i: usize = 0;
    assert(cs@.skip(0) =~= cs@);
    assert(out@ + seq_replace(cs@.skip(0), from@, to@) =~= seq_replace(cs@, from@, to@));
    while i < cs.len()
        invariant
            i <= cs.len(),
            pat@ == from@,
            pat@.len() > 0,
            out@ + seq_replace(cs@.skip(i as int), from@, to@) == seq_replace(cs@, from@, to@),
        decreases cs.len() - i,
    {
        let ghost rest = cs@.skip(i as int);
        let ghost prev = out@;
        if matches_at(&cs, i, &pat) {
            append(&mut out, to);
            assert(rest.skip(pat@.len() as int) =~= cs@.skip(i + pat.len()));
            assert(out@ + seq_replace(cs@.skip(i + pat.len()), from@, to@) =~= prev
                + seq_replace(rest, from@, to@));
            i = i + pat.len();
        } else {
            push_char(&mut out, cs[i]);
            assert(rest.skip(1) =~= cs@.skip(i + 1));
            assert(rest[0] == cs@[i as int]);
            assert(out@ + seq_replace(cs@.skip(i + 1), from@, to@) =~= prev + seq_replace(
                rest,
                from@,
                to@,
            ));
            i = i + 1;
        }
    }
    assert(cs@.skip(cs.len() as int) =~= Seq::<char>::empty());
    assert(out@ =~= out@ + seq_replace(cs@.skip(cs.len() as int), from@, to@));
    assert(cs@ == s@);
    out
}

} // verus!
