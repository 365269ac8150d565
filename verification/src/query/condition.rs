//! WHERE-clause conditions and their SQL renderings.

use vstd::prelude::*;
use crate::text::{append, chars_of, is_digit, join, lemma_views_push, nat_dec, owned, push_char, seq_join, usize_dec, views};
use super::value::{SqlVal, SqlValue, duplicate_all, lemma_vals_push, literal_spec, vals};

verus! {

/// A single WHERE clause condition.
#[derive(Debug, Clone)]
pub enum Condition {
    Eq(String, SqlValue),
    Ne(String, SqlValue),
    Gt(String, SqlValue),
    Gte(String, SqlValue),
    Lt(String, SqlValue),
    Lte(String, SqlValue),
    Like(String, String),
    NotLike(String, String),
    IsNull(String),
    IsNotNull(String),
    In(String, Vec<SqlValue>),
    NotIn(String, Vec<SqlValue>),
    Between(String, SqlValue, SqlValue),
    NotBetween(String, SqlValue, SqlValue),
    /// Raw SQL fragment (no parameters).
    Raw(String),
    /// Raw SQL fragment with bound parameters.
    RawExpr(String, Vec<SqlValue>),
}

/// The mathematical value of a [`Condition`].
pub enum CondV {
    Eq(Seq<char>, SqlVal),
    Ne(Seq<char>, SqlVal),
    Gt(Seq<char>, SqlVal),
    Gte(Seq<char>, SqlVal),
    Lt(Seq<char>, SqlVal),
    Lte(Seq<char>, SqlVal),
    Like(Seq<char>, Seq<char>),
    NotLike(Seq<char>, Seq<char>),
    IsNull(Seq<char>),
    IsNotNull(Seq<char>),
    In(Seq<char>, Seq<SqlVal>),
    NotIn(Seq<char>, Seq<SqlVal>),
    Between(Seq<char>, SqlVal, SqlVal),
    NotBetween(Seq<char>, SqlVal, SqlVal),
    Raw(Seq<char>),
    RawExpr(Seq<char>, Seq<SqlVal>),
}

impl View for Condition {
    type V = CondV;

    open spec fn view(&self) -> CondV {
        match self {
            Condition::Eq(c, v) => CondV::Eq(c@, v@),
            Condition::Ne(c, v) => CondV::Ne(c@, v@),
            Condition::Gt(c, v) => CondV::Gt(c@, v@),
            Condition::Gte(c, v) => CondV::Gte(c@, v@),
            Condition::Lt(c, v) => CondV::Lt(c@, v@),
            Condition::Lte(c, v) => CondV::Lte(c@, v@),
            Condition::Like(c, p) => CondV::Like(c@, p@),
            Condition::NotLike(c, p) => CondV::NotLike(c@, p@),
            Condition::IsNull(c) => CondV::IsNull(c@),
            Condition::IsNotNull(c) => CondV::IsNotNull(c@),
            Condition::In(c, vs) => CondV::In(c@, vals(vs@)),
            Condition::NotIn(c, vs) => CondV::NotIn(c@, vals(vs@)),
            Condition::Between(c, lo, hi) => CondV::Between(c@, lo@, hi@),
            Condition::NotBetween(c, lo, hi) => CondV::NotBetween(c@, lo@, hi@),
            Condition::Raw(s) => CondV::Raw(s@),
            Condition::RawExpr(s, ps) => CondV::RawExpr(s@, vals(ps@)),
        }
    }
}

// ── placeholders ────────────────────────────────────────────────────────────

/// The numbered placeholder `$n`.
pub open spec fn ph(n: nat) -> Seq<char> {
    seq!['$'] + nat_dec(n)
}

/// The placeholders `$offset`, `$offset+1`, … (`n` of them).
pub open spec fn ph_list(offset: nat, n: nat) -> Seq<Seq<char>> {
    Seq::new(n, |i: int| ph((offset + i) as nat))
}

/// `n` anonymous placeholders `?`.
pub open spec fn q_list(n: nat) -> Seq<Seq<char>> {
    Seq::new(n, |i: int| seq!['?'])
}

/// The text of the placeholder `$n`.
pub fn ph_str(n: usize) -> (r: String)
    ensures
        r@ == ph(n as nat),
{
    let mut out = String::new();
    push_char(&mut out, '$');
    let d = usize_dec(n);
    append(&mut out, d.as_str());
    assert(out@ =~= ph(n as nat));
    out
}

/// The placeholders `$offset` … `$offset+n-1`.
pub fn ph_vec(offset: usize, n: usize) -> (r: Vec<String>)
    requires
        offset + n <= usize::MAX,
    ensures
        views(r@) == ph_list(offset as nat, n as nat),
{
    let mut out: Vec<String> = Vec::new();
    let mut i: usize = 0;
    while i < n
        invariant
            i <= n,
            offset + n <= usize::MAX,
            views(out@) == ph_list(offset as nat, i as nat),
        decreases n - i,
    {
        let p = ph_str(offset + i);
        let ghost prev = out@;
        out.push(p);
        proof { lemma_views_push(prev, p); }
        assert(views(out@) =~= ph_list(offset as nat, (i + 1) as nat));
        i = i + 1;
    }
    out
}

/// `n` anonymous placeholders.
pub fn q_vec(n: usize) -> (r: Vec<String>)
    ensures
        views(r@) == q_list(n as nat),
{
    let mut out: Vec<String> = Vec::new();
    let mut i: usize = 0;
    while i < n
        invariant
            i <= n,
            views(out@) == q_list(i as nat),
        decreases n - i,
    {
        let mut q = String::new();
        push_char(&mut q, '?');
        let ghost prev = out@;
        out.push(q);
        proof { lemma_views_push(prev, q); }
        assert(views(out@) =~= q_list((i + 1) as nat));
        i = i + 1;
    }
    out
}

/// The number of decimal digits of `s` in a row from position `i`.
pub open spec fn digit_run(s: Seq<char>, i: int) -> nat
    decreases s.len() - i,
{
    if 0 <= i < s.len() && is_digit(s[i]) {
        1 + digit_run(s, i + 1)
    } else {
        0
    }
}

/// The value of a string of decimal digits.
pub open spec fn dec_value(d: Seq<char>) -> nat
    decreases d.len(),
{
    if d.len() == 0 {
        0
    } else {
        dec_value(d.drop_last()) * 10 + ((d.last() as int) - 48) as nat
    }
}

/// A run of digits stays inside the text.
pub proof fn lemma_digit_run_bound(s: Seq<char>, i: int)
    requires
        0 <= i <= s.len(),
    ensures
        i + digit_run(s, i) <= s.len(),
    decreases s.len() - i,
{
    if i < s.len() && is_digit(s[i]) {
        lemma_digit_run_bound(s, i + 1);
    }
}

/// The placeholder `$k` read at position `i` (a `$` and its digits, all of
/// them): its number, when it is one of `$1` … `$n`.
pub open spec fn placeholder_at(s: Seq<char>, i: int, n: nat) -> Option<nat> {
    let k = digit_run(s, i + 1);
    let v = dec_value(s.subrange(i + 1, i + 1 + k));
    if 0 <= i < s.len() && s[i] == '$' && k > 0 && 1 <= v <= n {
        Some(v)
    } else {
        None
    }
}

/// A raw fragment from position `i` on, read left to right, with each
/// placeholder `$k` (`1 <= k <= n`) written as `$(offset + k - 1)`; all other
/// text, other placeholders included, is kept. Text already written is
/// never read again.
pub open spec fn renumber(s: Seq<char>, i: int, n: nat, offset: nat) -> Seq<char>
    decreases s.len() - i,
{
    if i < 0 || i >= s.len() {
        seq![]
    } else {
        proof {
            lemma_digit_run_bound(s, i + 1);
        }
        match placeholder_at(s, i, n) {
            Some(v) => ph((offset + v - 1) as nat) + renumber(s, i + 1 + digit_run(s, i + 1), n, offset),
            None => seq![s[i]] + renumber(s, i + 1, n, offset),
        }
    }
}

/// The placeholders `$1` … `$n` of a raw fragment renumbered from `offset`.
pub open spec fn rewrite_pg(s: Seq<char>, n: nat, offset: nat) -> Seq<char> {
    renumber(s, 0, n, offset)
}

// ── renderings ──────────────────────────────────────────────────────────────

/// The number of parameters a condition binds.
pub open spec fn cond_param_count(c: CondV) -> nat {
    match c {
        CondV::Eq(..) | CondV::Ne(..) | CondV::Gt(..) | CondV::Gte(..) | CondV::Lt(..) | CondV::Lte(
            ..,
        ) | CondV::Like(..) | CondV::NotLike(..) => 1,
        CondV::IsNull(..) | CondV::IsNotNull(..) | CondV::Raw(..) => 0,
        CondV::In(_, vs) | CondV::NotIn(_, vs) => vs.len(),
        CondV::Between(..) | CondV::NotBetween(..) => 2,
        CondV::RawExpr(_, ps) => ps.len(),
    }
}

/// The parameters a condition binds, in order.
pub open spec fn cond_params(c: CondV) -> Seq<SqlVal> {
    match c {
        CondV::Eq(_, v) | CondV::Ne(_, v) | CondV::Gt(_, v) | CondV::Gte(_, v) | CondV::Lt(_, v)
        | CondV::Lte(_, v) => seq![v],
        CondV::Like(_, p) | CondV::NotLike(_, p) => seq![SqlVal::Text(p)],
        CondV::IsNull(..) | CondV::IsNotNull(..) | CondV::Raw(..) => seq![],
        CondV::In(_, vs) | CondV::NotIn(_, vs) => vs,
        CondV::Between(_, lo, hi) | CondV::NotBetween(_, lo, hi) => seq![lo, hi],
        CondV::RawExpr(_, ps) => ps,
    }
}

/// The fragment of a condition with numbered placeholders starting at `offset`.
pub open spec fn cond_pg(c: CondV, offset: nat) -> Seq<char> {
    match c {
        CondV::Eq(col, _) => col + " = "@ + ph(offset),
        CondV::Ne(col, _) => col + " != "@ + ph(offset),
        CondV::Gt(col, _) => col + " > "@ + ph(offset),
        CondV::Gte(col, _) => col + " >= "@ + ph(offset),
        CondV::Lt(col, _) => col + " < "@ + ph(offset),
        CondV::Lte(col, _) => col + " <= "@ + ph(offset),
        CondV::Like(col, _) => col + " LIKE "@ + ph(offset),
        CondV::NotLike(col, _) => col + " NOT LIKE "@ + ph(offset),
        CondV::IsNull(col) => col + " IS NULL"@,
        CondV::IsNotNull(col) => col + " IS NOT NULL"@,
        CondV::In(col, vs) => col + " IN ("@ + seq_join(ph_list(offset, vs.len()), ", "@) + ")"@,
        CondV::NotIn(col, vs) => col + " NOT IN ("@ + seq_join(ph_list(offset, vs.len()), ", "@)
            + ")"@,
        CondV::Between(col, _, _) => col + " BETWEEN "@ + ph(offset) + " AND "@ + ph(offset + 1),
        CondV::NotBetween(col, _, _) => col + " NOT BETWEEN "@ + ph(offset) + " AND "@ + ph(
            offset + 1,
        ),
        CondV::Raw(s) => s,
        CondV::RawExpr(s, ps) => rewrite_pg(s, ps.len(), offset),
    }
}

/// The fragment of a condition with anonymous `?` placeholders.
pub open spec fn cond_q(c: CondV) -> Seq<char> {
    match c {
        CondV::Eq(col, _) => col + " = ?"@,
        CondV::Ne(col, _) => col + " != ?"@,
        CondV::Gt(col, _) => col + " > ?"@,
        CondV::Gte(col, _) => col + " >= ?"@,
        CondV::Lt(col, _) => col + " < ?"@,
        CondV::Lte(col, _) => col + " <= ?"@,
        CondV::Like(col, _) => col + " LIKE ?"@,
        CondV::NotLike(col, _) => col + " NOT LIKE ?"@,
        CondV::IsNull(col) => col + " IS NULL"@,
        CondV::IsNotNull(col) => col + " IS NOT NULL"@,
        CondV::In(col, vs) => col + " IN ("@ + seq_join(q_list(vs.len()), ", "@) + ")"@,
        CondV::NotIn(col, vs) => col + " NOT IN ("@ + seq_join(q_list(vs.len()), ", "@) + ")"@,
        CondV::Between(col, _, _) => col + " BETWEEN ? AND ?"@,
        CondV::NotBetween(col, _, _) => col + " NOT BETWEEN ? AND ?"@,
        CondV::Raw(s) => s,
        CondV::RawExpr(s, _) => s,
    }
}

/// The literals of a sequence of values.
pub open spec fn literals(vs: Seq<SqlVal>) -> Seq<Seq<char>> {
    vs.map_values(|v: SqlVal| literal_spec(v))
}

/// The fragment of a condition with its values written as literals.
pub open spec fn cond_literal(c: CondV) -> Seq<char> {
    match c {
        CondV::Eq(col, v) => col + " = "@ + literal_spec(v),
        CondV::Ne(col, v) => col + " != "@ + literal_spec(v),
        CondV::Gt(col, v) => col + " > "@ + literal_spec(v),
        CondV::Gte(col, v) => col + " >= "@ + literal_spec(v),
        CondV::Lt(col, v) => col + " < "@ + literal_spec(v),
        CondV::Lte(col, v) => col + " <= "@ + literal_spec(v),
        CondV::Like(col, p) => col + " LIKE '"@ + p + "'"@,
        CondV::NotLike(col, p) => col + " NOT LIKE '"@ + p + "'"@,
        CondV::IsNull(col) => col + " IS NULL"@,
        CondV::IsNotNull(col) => col + " IS NOT NULL"@,
        CondV::In(col, vs) => col + " IN ("@ + seq_join(literals(vs), ", "@) + ")"@,
        CondV::NotIn(col, vs) => col + " NOT IN ("@ + seq_join(literals(vs), ", "@) + ")"@,
        CondV::Between(col, lo, hi) => col + " BETWEEN "@ + literal_spec(lo) + " AND "@
            + literal_spec(hi),
        CondV::NotBetween(col, lo, hi) => col + " NOT BETWEEN "@ + literal_spec(lo) + " AND "@
            + literal_spec(hi),
        CondV::Raw(s) => s,
        CondV::RawExpr(s, _) => s,
    }
}

/// `a + b + c` as a fresh string.
pub fn cat3(a: &str, b: &str, c: &str) -> (r: String)
    ensures
        r@ == a@ + b@ + c@,
{
    let mut out = owned(a);
    append(&mut out, b);
    append(&mut out, c);
    out
}

/// `a + b` as a fresh string.
pub fn cat2(a: &str, b: &str) -> (r: String)
    ensures
        r@ == a@ + b@,
{
    let mut out = owned(a);
    append(&mut out, b);
    out
}

/// The digits of `s` from `from` on: where they end, and their value when it
/// is at most `n` (`None` when it is more).
fn scan_digits(s: &Vec<char>, from: usize, n: usize) -> (r: (usize, Option<usize>))
    requires
        from <= s@.len(),
    ensures
        r.0 == from + digit_run(s@, from as int),
        r.0 <= s@.len(),
        match r.1 {
            Some(v) => v == dec_value(s@.subrange(from as int, r.0 as int)) && v <= n,
            None => dec_value(s@.subrange(from as int, r.0 as int)) > n,
        },
{
    let mut j: usize = from;
    let mut v: usize = 0;
    let mut big = false;
    while j < s.len() && '0' <= s[j] && s[j] <= '9'
        invariant
            from <= j <= s@.len(),
            forall|k: int| from <= k < j ==> is_digit(#[trigger] s@[k]),
            big ==> dec_value(s@.subrange(from as int, j as int)) > n,
            !big ==> v == dec_value(s@.subrange(from as int, j as int)) && v <= n,
        decreases s.len() - j,
    {
        let ghost before = dec_value(s@.subrange(from as int, j as int));
        assert(s@.subrange(from as int, j + 1).drop_last() =~= s@.subrange(from as int, j as int));
        let d: usize = (s[j] as u32 - 48u32) as usize;
        assert(dec_value(s@.subrange(from as int, j + 1)) == before * 10 + d);
        if !big {
            if v > n / 10 {
                assert(v * 10 > n) by (nonlinear_arith)
                    requires
                        v > n / 10,
                ;
                big = true;
            } else {
                assert(v * 10 <= n) by (nonlinear_arith)
                    requires
                        v <= n / 10,
                ;
                if d > n - v * 10 {
                    big = true;
                } else {
                    v = v * 10 + d;
                }
            }
        }
        j = j + 1;
    }
    proof {
        lemma_digit_run_end(s@, from as int, j as int);
    }
    if big {
        (j, None)
    } else {
        (j, Some(v))
    }
}

/// A run of digits from `a` that stops at `j` is `j - a` long.
proof fn lemma_digit_run_end(s: Seq<char>, a: int, j: int)
    requires
        0 <= a <= j <= s.len(),
        forall|k: int| a <= k < j ==> is_digit(#[trigger] s[k]),
        j == s.len() || !is_digit(s[j]),
    ensures
        digit_run(s, a) == j - a,
    decreases j - a,
{
    if a < j {
        lemma_digit_run_end(s, a + 1, j);
    }
}

/// Renumbers the placeholders `$1` … `$n` of a raw fragment to start at
/// `offset`, in one pass from left to right.
fn rewrite_raw(sql: &str, n: usize, offset: usize) -> (r: String)
    requires
        offset + n <= usize::MAX + 1,
        offset >= 1,
    ensures
        r@ == rewrite_pg(sql@, n as nat, offset as nat),
{
    let cs = chars_of(sql);
    let mut out = String::new();
    let mut i: usize = 0;
    while i < cs.len()
        invariant
            i <= cs@.len(),
            cs@ == sql@,
            offset + n <= usize::MAX + 1,
            offset >= 1,
            out@ + renumber(cs@, i as int, n as nat, offset as nat) == renumber(cs@, 0, n as nat, offset as nat),
        decreases cs.len() - i,
    {
        let ghost prev = out@;
        if cs[i] == '$' {
            let (j, val) = scan_digits(&cs, i + 1, n);
            match val {
                Some(v) => {
                    if j > i + 1 && v >= 1 {
                        assert(placeholder_at(cs@, i as int, n as nat) == Some(v as nat));
                        let p = ph_str(offset - 1 + v);
                        append(&mut out, p.as_str());
                        assert(out@ + renumber(cs@, j as int, n as nat, offset as nat) =~= prev + renumber(
                            cs@,
                            i as int,
                            n as nat,
                            offset as nat,
                        ));
                        i = j;
                    } else {
                        assert(placeholder_at(cs@, i as int, n as nat) is None);
                        push_char(&mut out, '$');
                        assert(out@ + renumber(cs@, i + 1, n as nat, offset as nat) =~= prev + renumber(
                            cs@,
                            i as int,
                            n as nat,
                            offset as nat,
                        ));
                        i = i + 1;
                    }
                },
                None => {
                    assert(placeholder_at(cs@, i as int, n as nat) is None);
                    push_char(&mut out, '$');
                    assert(out@ + renumber(cs@, i + 1, n as nat, offset as nat) =~= prev + renumber(
                        cs@,
                        i as int,
                        n as nat,
                        offset as nat,
                    ));
                    i = i + 1;
                },
            }
        } else {
            assert(placeholder_at(cs@, i as int, n as nat) is None);
            push_char(&mut out, cs[i]);
            assert(out@ + renumber(cs@, i + 1, n as nat, offset as nat) =~= prev + renumber(
                cs@,
                i as int,
                n as nat,
                offset as nat,
            ));
            i = i + 1;
        }
    }
    assert(out@ =~= out@ + renumber(cs@, i as int, n as nat, offset as nat));
    out
}

/// The literals of a list of values, each rendered.
fn literal_vec(vs: &Vec<SqlValue>) -> (r: Vec<String>)
    ensures
        views(r@) == literals(vals(vs@)),
{
    let mut out: Vec<String> = Vec::new();
    let mut i: usize = 0;
    while i < vs.len()
        invariant
            i <= vs@.len(),
            views(out@) == literals(vals(vs@.take(i as int))),
        decreases vs.len() - i,
    {
        let l = vs[i].to_sql_literal();
        let ghost prev = out@;
        out.push(l);
        proof {
            lemma_views_push(prev, l);
            assert(vs@.take(i + 1) =~= vs@.take(i as int).push(vs@[i as int]));
            lemma_vals_push(vs@.take(i as int), vs@[i as int]);
        }
        assert(views(out@) =~= literals(vals(vs@.take(i + 1))));
        i = i + 1;
    }
    assert(vs@.take(vs@.len() as int) =~= vs@);
    out
}

impl Condition {
    /// An exact copy.
    pub fn duplicate(&self) -> (r: Condition)
        ensures
            r@ == self@,
    {
        match self {
            Condition::Eq(c, v) => Condition::Eq(c.clone(), v.duplicate()),
            Condition::Ne(c, v) => Condition::Ne(c.clone(), v.duplicate()),
            Condition::Gt(c, v) => Condition::Gt(c.clone(), v.duplicate()),
            Condition::Gte(c, v) => Condition::Gte(c.clone(), v.duplicate()),
            Condition::Lt(c, v) => Condition::Lt(c.clone(), v.duplicate()),
            Condition::Lte(c, v) => Condition::Lte(c.clone(), v.duplicate()),
            Condition::Like(c, p) => Condition::Like(c.clone(), p.clone()),
            Condition::NotLike(c, p) => Condition::NotLike(c.clone(), p.clone()),
            Condition::IsNull(c) => Condition::IsNull(c.clone()),
            Condition::IsNotNull(c) => Condition::IsNotNull(c.clone()),
            Condition::In(c, vs) => Condition::In(c.clone(), duplicate_all(vs.as_slice())),
            Condition::NotIn(c, vs) => Condition::NotIn(c.clone(), duplicate_all(vs.as_slice())),
            Condition::Between(c, lo, hi) => Condition::Between(c.clone(), lo.duplicate(), hi.duplicate()),
            Condition::NotBetween(c, lo, hi) => Condition::NotBetween(c.clone(), lo.duplicate(), hi.duplicate()),
            Condition::Raw(t) => Condition::Raw(t.clone()),
            Condition::RawExpr(t, ps) => Condition::RawExpr(t.clone(), duplicate_all(ps.as_slice())),
        }
    }
}

impl Condition {
    /// Render as a SQL fragment using positional placeholders (`$N`).
    ///
    /// `offset` is the next available parameter index (1-based).
    /// Returns `(sql_fragment, collected_params)`.
    pub fn to_param_sql(&self, offset: usize) -> (r: (String, Vec<SqlValue>))
        requires
            offset >= 1,
            offset + cond_param_count(self@) <= usize::MAX,
        ensures
            r.0@ == cond_pg(self@, offset as nat),
            vals(r.1@) == cond_params(self@),
    {
        let p = ph_str(offset);
        match self {
            Condition::Eq(col, v) => (cat3(col.as_str(), " = ", p.as_str()), vec![v.duplicate()]),
            Condition::Ne(col, v) => (cat3(col.as_str(), " != ", p.as_str()), vec![v.duplicate()]),
            Condition::Gt(col, v) => (cat3(col.as_str(), " > ", p.as_str()), vec![v.duplicate()]),
            Condition::Gte(col, v) => (cat3(col.as_str(), " >= ", p.as_str()), vec![v.duplicate()]),
            Condition::Lt(col, v) => (cat3(col.as_str(), " < ", p.as_str()), vec![v.duplicate()]),
            Condition::Lte(col, v) => (cat3(col.as_str(), " <= ", p.as_str()), vec![v.duplicate()]),
            Condition::Like(col, pat) => (
                cat3(col.as_str(), " LIKE ", p.as_str()),
                vec![SqlValue::Text(pat.clone())],
            ),
            Condition::NotLike(col, pat) => (
                cat3(col.as_str(), " NOT LIKE ", p.as_str()),
                vec![SqlValue::Text(pat.clone())],
            ),
            Condition::IsNull(col) => (cat2(col.as_str(), " IS NULL"), vec![]),
            Condition::IsNotNull(col) => (cat2(col.as_str(), " IS NOT NULL"), vec![]),
            Condition::In(col, vs) => {
                let phs = ph_vec(offset, vs.len());
                let list = join(&phs, ", ");
                let mut s = cat3(col.as_str(), " IN (", list.as_str());
                append(&mut s, ")");
                (s, duplicate_all(vs.as_slice()))
            },
            Condition::NotIn(col, vs) => {
                let phs = ph_vec(offset, vs.len());
                let list = join(&phs, ", ");
                let mut s = cat3(col.as_str(), " NOT IN (", list.as_str());
                append(&mut s, ")");
                (s, duplicate_all(vs.as_slice()))
            },
            Condition::Between(col, lo, hi) => {
                let p2 = ph_str(offset + 1);
                let mut s = cat3(col.as_str(), " BETWEEN ", p.as_str());
                append(&mut s, " AND ");
                append(&mut s, p2.as_str());
                (s, vec![lo.duplicate(), hi.duplicate()])
            },
            Condition::NotBetween(col, lo, hi) => {
                let p2 = ph_str(offset + 1);
                let mut s = cat3(col.as_str(), " NOT BETWEEN ", p.as_str());
                append(&mut s, " AND ");
                append(&mut s, p2.as_str());
                (s, vec![lo.duplicate(), hi.duplicate()])
            },
            Condition::Raw(sql) => (sql.clone(), vec![]),
            Condition::RawExpr(sql, ps) => (
                rewrite_raw(sql.as_str(), ps.len(), offset),
                duplicate_all(ps.as_slice()),
            ),
        }
    }

    /// Render as a SQL fragment using anonymous `?` placeholders (SQLite dialect).
    ///
    /// Returns `(sql_fragment, collected_params)`.
    pub fn to_param_sql_sqlite(&self) -> (r: (String, Vec<SqlValue>))
        ensures
            r.0@ == cond_q(self@),
            vals(r.1@) == cond_params(self@),
    {
        match self {
            Condition::Eq(col, v) => (cat2(col.as_str(), " = ?"), vec![v.duplicate()]),
            Condition::Ne(col, v) => (cat2(col.as_str(), " != ?"), vec![v.duplicate()]),
            Condition::Gt(col, v) => (cat2(col.as_str(), " > ?"), vec![v.duplicate()]),
            Condition::Gte(col, v) => (cat2(col.as_str(), " >= ?"), vec![v.duplicate()]),
            Condition::Lt(col, v) => (cat2(col.as_str(), " < ?"), vec![v.duplicate()]),
            Condition::Lte(col, v) => (cat2(col.as_str(), " <= ?"), vec![v.duplicate()]),
            Condition::Like(col, pat) => (
                cat2(col.as_str(), " LIKE ?"),
                vec![SqlValue::Text(pat.clone())],
            ),
            Condition::NotLike(col, pat) => (
                cat2(col.as_str(), " NOT LIKE ?"),
                vec![SqlValue::Text(pat.clone())],
            ),
            Condition::IsNull(col) => (cat2(col.as_str(), " IS NULL"), vec![]),
            Condition::IsNotNull(col) => (cat2(col.as_str(), " IS NOT NULL"), vec![]),
            Condition::In(col, vs) => {
                let qs = q_vec(vs.len());
                let list = join(&qs, ", ");
                let mut s = cat3(col.as_str(), " IN (", list.as_str());
                append(&mut s, ")");
                (s, duplicate_all(vs.as_slice()))
            },
            Condition::NotIn(col, vs) => {
                let qs = q_vec(vs.len());
                let list = join(&qs, ", ");
                let mut s = cat3(col.as_str(), " NOT IN (", list.as_str());
                append(&mut s, ")");
                (s, duplicate_all(vs.as_slice()))
            },
            Condition::Between(col, lo, hi) => (
                cat2(col.as_str(), " BETWEEN ? AND ?"),
                vec![lo.duplicate(), hi.duplicate()],
            ),
            Condition::NotBetween(col, lo, hi) => (
                cat2(col.as_str(), " NOT BETWEEN ? AND ?"),
                vec![lo.duplicate(), hi.duplicate()],
            ),
            Condition::Raw(sql) => (sql.clone(), vec![]),
            Condition::RawExpr(sql, ps) => (sql.clone(), duplicate_all(ps.as_slice())),
        }
    }

    /// Render as a SQL literal fragment (no parameterization — for debug output).
    pub fn to_literal_sql(&self) -> (r: String)
        ensures
            r@ == cond_literal(self@),
    {
        match self {
            Condition::Eq(col, v) => cat3(col.as_str(), " = ", v.to_sql_literal().as_str()),
            Condition::Ne(col, v) => cat3(col.as_str(), " != ", v.to_sql_literal().as_str()),
            Condition::Gt(col, v) => cat3(col.as_str(), " > ", v.to_sql_literal().as_str()),
            Condition::Gte(col, v) => cat3(col.as_str(), " >= ", v.to_sql_literal().as_str()),
            Condition::Lt(col, v) => cat3(col.as_str(), " < ", v.to_sql_literal().as_str()),
            Condition::Lte(col, v) => cat3(col.as_str(), " <= ", v.to_sql_literal().as_str()),
            Condition::Like(col, p) => {
                let mut s = cat3(col.as_str(), " LIKE '", p.as_str());
                append(&mut s, "'");
                s
            },
            Condition::NotLike(col, p) => {
                let mut s = cat3(col.as_str(), " NOT LIKE '", p.as_str());
                append(&mut s, "'");
                s
            },
            Condition::IsNull(col) => cat2(col.as_str(), " IS NULL"),
            Condition::IsNotNull(col) => cat2(col.as_str(), " IS NOT NULL"),
            Condition::In(col, vs) => {
                let lits = literal_vec(vs);
                let list = join(&lits, ", ");
                let mut s = cat3(col.as_str(), " IN (", list.as_str());
                append(&mut s, ")");
                s
            },
            Condition::NotIn(col, vs) => {
                let lits = literal_vec(vs);
                let list = join(&lits, ", ");
                let mut s = cat3(col.as_str(), " NOT IN (", list.as_str());
                append(&mut s, ")");
                s
            },
            Condition::Between(col, lo, hi) => {
                let mut s = cat3(col.as_str(), " BETWEEN ", lo.to_sql_literal().as_str());
                append(&mut s, " AND ");
                append(&mut s, hi.to_sql_literal().as_str());
                s
            },
            Condition::NotBetween(col, lo, hi) => {
                let mut s = cat3(col.as_str(), " NOT BETWEEN ", lo.to_sql_literal().as_str());
                append(&mut s, " AND ");
                append(&mut s, hi.to_sql_literal().as_str());
                s
            },
            Condition::Raw(sql) => sql.clone(),
            Condition::RawExpr(sql, _) => sql.clone(),
        }
    }
}

} // verus!
