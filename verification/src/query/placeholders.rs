//! Reading placeholders back out of generated SQL: the numbers of the `$n`
//! placeholders in order, and the text with each `$n` written as `?`. The
//! laws here say that a condition numbers its placeholders consecutively
//! from its offset, that a `WHERE` clause numbers them `$1`, `$2`, … in order,
//! and that the anonymous rendering is the numbered one with each `$n` as `?`.

use vstd::prelude::*;
use crate::text::{digit_char, is_digit, lemma_nat_dec_digits, nat_dec, seq_join};
use super::condition::{CondV, cond_param_count, cond_pg, cond_q, dec_value, digit_run, lemma_digit_run_bound, ph, ph_list, q_list};
use super::sql_gen::{pair_vals, set_list, update_spec, cols_spec, group_spec, joins_spec, lemma_select_params_count, lemma_where_params_len, limit_spec, offset_spec, order_spec, params_total, select_spec, soft_conds, source_spec, where_clause};
use super::builder::QueryV;
use super::sql_write::{data_cols, insert_head};
use super::value::SqlVal;
use super::value::{Dialect, JoinOp, join_op_spec};

verus! {

/// The numbers of the placeholders of `s`, left to right: each `$` followed
/// by digits (all of them) is one placeholder.
pub open spec fn ph_nums(s: Seq<char>) -> Seq<nat>
    decreases s.len(),
{
    if s.len() == 0 {
        seq![]
    } else {
        proof {
            lemma_digit_run_bound(s, 1);
        }
        let k = digit_run(s, 1) as int;
        if s[0] == '$' && k > 0 {
            seq![dec_value(s.subrange(1, 1 + k))] + ph_nums(s.skip(1 + k))
        } else {
            ph_nums(s.skip(1))
        }
    }
}

/// `s` with each placeholder `$n` written as `?`.
pub open spec fn anon(s: Seq<char>) -> Seq<char>
    decreases s.len(),
{
    if s.len() == 0 {
        seq![]
    } else {
        proof {
            lemma_digit_run_bound(s, 1);
        }
        let k = digit_run(s, 1) as int;
        if s[0] == '$' && k > 0 {
            seq!['?'] + anon(s.skip(1 + k))
        } else {
            seq![s[0]] + anon(s.skip(1))
        }
    }
}

/// Whether `s` holds no `$`.
pub open spec fn no_dollar(s: Seq<char>) -> bool {
    forall|i: int| 0 <= i < s.len() ==> s[i] != '$'
}

/// Whether `s` does not start with a digit.
pub open spec fn no_leading_digit(s: Seq<char>) -> bool {
    s.len() == 0 || !is_digit(s[0])
}

/// The numbers `from`, `from + 1`, … (`n` of them).
pub open spec fn consecutive(from: nat, n: nat) -> Seq<nat> {
    Seq::new(n, |i: int| (from + i) as nat)
}

/// A run of digits: each of its characters is a digit, and the one after it
/// (if any) is not.
proof fn lemma_digit_run_shape(s: Seq<char>, i: int)
    requires
        0 <= i <= s.len(),
    ensures
        i + digit_run(s, i) <= s.len(),
        forall|j: int| i <= j < i + digit_run(s, i) ==> is_digit(#[trigger] s[j]),
        i + digit_run(s, i) == s.len() || !is_digit(s[i + digit_run(s, i)]),
    decreases s.len() - i,
{
    if i < s.len() && is_digit(s[i]) {
        lemma_digit_run_shape(s, i + 1);
    }
}

/// A run of digits from `a` that stops at `j` is `j - a` long.
proof fn lemma_run_is(s: Seq<char>, a: int, j: int)
    requires
        0 <= a <= j <= s.len(),
        forall|k: int| a <= k < j ==> is_digit(#[trigger] s[k]),
        j == s.len() || !is_digit(s[j]),
    ensures
        digit_run(s, a) == j - a,
    decreases j - a,
{
    if a < j {
        lemma_run_is(s, a + 1, j);
    }
}

/// Reading placeholders splits at a point where no digits follow.
pub proof fn lemma_ph_cat(a: Seq<char>, b: Seq<char>)
    requires
        no_leading_digit(b),
    ensures
        ph_nums(a + b) == ph_nums(a) + ph_nums(b),
        anon(a + b) == anon(a) + anon(b),
    decreases a.len(),
{
    if a.len() == 0 {
        assert(a + b =~= b);
    } else {
        let s = a + b;
        lemma_digit_run_shape(a, 1);
        let k = digit_run(a, 1) as int;
        assert forall|j: int| 1 <= j < 1 + k implies is_digit(#[trigger] s[j]) by {
            assert(s[j] == a[j]);
            assert(is_digit(a[j]));
        }
        if 1 + k < a.len() {
            assert(s[1 + k] == a[1 + k]);
        } else {
            assert(1 + k == a.len());
            if b.len() > 0 {
                assert(s[1 + k] == b[0]);
            } else {
                assert(s.len() == 1 + k);
            }
        }
        lemma_run_is(s, 1, 1 + k);
        assert(s[0] == a[0]);
        if a[0] == '$' && k > 0 {
            assert(s.subrange(1, 1 + k) =~= a.subrange(1, 1 + k));
            assert(s.skip(1 + k) =~= a.skip(1 + k) + b);
            lemma_ph_cat(a.skip(1 + k), b);
            assert(ph_nums(a + b) =~= ph_nums(a) + ph_nums(b));
            assert(anon(a + b) =~= anon(a) + anon(b));
        } else {
            assert(s.skip(1) =~= a.skip(1) + b);
            lemma_ph_cat(a.skip(1), b);
            assert(ph_nums(a + b) =~= ph_nums(a) + ph_nums(b));
            assert(anon(a + b) =~= anon(a) + anon(b));
        }
    }
}

/// Text without `$` holds no placeholder and is kept as it is.
pub proof fn lemma_ph_plain(a: Seq<char>)
    requires
        no_dollar(a),
    ensures
        ph_nums(a) == Seq::<nat>::empty(),
        anon(a) == a,
    decreases a.len(),
{
    if a.len() > 0 {
        lemma_ph_plain(a.skip(1));
        assert(anon(a) =~= a);
    }
}

/// Reading the digits of a decimal rendering gives the number back.
pub proof fn lemma_dec_value_nat_dec(n: nat)
    ensures
        dec_value(nat_dec(n)) == n,
    decreases n,
{
    if n >= 10 {
        lemma_dec_value_nat_dec(n / 10);
        let d = nat_dec(n);
        assert(d.drop_last() =~= nat_dec(n / 10));
        assert(d.last() == digit_char(n % 10));
        assert((digit_char(n % 10) as int) == n % 10 + 48);
        assert(dec_value(d) == dec_value(d.drop_last()) * 10 + ((d.last() as int) - 48) as nat);
    } else {
        let d = nat_dec(n);
        assert(d.drop_last() =~= Seq::<char>::empty());
        assert((digit_char(n) as int) == n + 48);
        assert(dec_value(d) == dec_value(d.drop_last()) * 10 + ((d.last() as int) - 48) as nat);
    }
}

/// The placeholder `$n` reads as the number `n`, and as `?`.
pub proof fn lemma_ph_single(n: nat)
    ensures
        ph_nums(ph(n)) == seq![n],
        anon(ph(n)) == seq!['?'],
{
    let s = ph(n);
    let d = nat_dec(n);
    let m = d.len() as int;
    lemma_nat_dec_digits(n);
    assert forall|j: int| 1 <= j < 1 + m implies is_digit(#[trigger] s[j]) by {
        assert(s[j] == d[j - 1]);
    }
    lemma_run_is(s, 1, 1 + m);
    assert(s.subrange(1, 1 + m) =~= d);
    lemma_dec_value_nat_dec(n);
    assert(s.skip(1 + m) =~= Seq::<char>::empty());
    assert(s[0] == '$');
    assert(digit_run(s, 1) == m);
    assert(ph_nums(s.skip(1 + m)) =~= Seq::<nat>::empty());
    assert(anon(s.skip(1 + m)) =~= Seq::<char>::empty());
    assert(ph_nums(s) =~= seq![n]);
    assert(anon(s) =~= seq!['?']);
}

/// Plain text followed by one placeholder: the placeholder's number, and the
/// text with `?` in its place.
proof fn lemma_plain_then_ph(a: Seq<char>, n: nat)
    requires
        no_dollar(a),
    ensures
        ph_nums(a + ph(n)) == seq![n],
        anon(a + ph(n)) == a + seq!['?'],
{
    lemma_ph_cat(a, ph(n));
    lemma_ph_plain(a);
    lemma_ph_single(n);
    assert(seq![] + seq![n] =~= seq![n]);
}

/// Two placeholders, each after plain text.
proof fn lemma_two_ph(a: Seq<char>, n: nat, b: Seq<char>, m: nat)
    requires
        no_dollar(a),
        no_dollar(b),
        no_leading_digit(b),
    ensures
        ph_nums(a + ph(n) + b + ph(m)) == seq![n, m],
        anon(a + ph(n) + b + ph(m)) == a + seq!['?'] + b + seq!['?'],
{
    lemma_plain_then_ph(a, n);
    lemma_plain_then_ph(b, m);
    assert(no_leading_digit(b + ph(m))) by {
        if b.len() == 0 {
            assert((b + ph(m))[0] == '$');
        } else {
            assert((b + ph(m))[0] == b[0]);
        }
    }
    lemma_ph_cat(a + ph(n), b + ph(m));
    assert(a + ph(n) + b + ph(m) =~= (a + ph(n)) + (b + ph(m)));
    assert(seq![n] + seq![m] =~= seq![n, m]);
    assert(a + seq!['?'] + (b + seq!['?']) =~= a + seq!['?'] + b + seq!['?']);
}

/// A list of placeholders `$from`, … joined with `, `: their numbers in
/// order, and as many `?` joined the same way.
proof fn lemma_join_ph(from: nat, n: nat)
    ensures
        ph_nums(seq_join(ph_list(from, n), ", "@)) == consecutive(from, n),
        anon(seq_join(ph_list(from, n), ", "@)) == seq_join(q_list(n), ", "@),
        no_leading_digit(seq_join(ph_list(from, n), ", "@)),
    decreases n,
{
    reveal_strlit(", ");
    if n == 0 {
        assert(consecutive(from, 0) =~= Seq::<nat>::empty());
    } else if n == 1 {
        lemma_ph_single(from);
        assert(ph_list(from, 1)[0] == ph(from));
        assert(consecutive(from, 1) =~= seq![from]);
        assert(q_list(1)[0] == seq!['?']);
        assert(ph(from)[0] == '$');
    } else {
        let prev = seq_join(ph_list(from, (n - 1) as nat), ", "@);
        lemma_join_ph(from, (n - 1) as nat);
        assert(ph_list(from, n).drop_last() =~= ph_list(from, (n - 1) as nat));
        assert(q_list(n).drop_last() =~= q_list((n - 1) as nat));
        let last = ph((from + n - 1) as nat);
        assert(ph_list(from, n).last() == last);
        assert(q_list(n).last() == seq!['?']);
        lemma_plain_then_ph(", "@, (from + n - 1) as nat);
        assert((", "@ + last)[0] == ',');
        lemma_ph_cat(prev, ", "@ + last);
        assert(seq_join(ph_list(from, n), ", "@) =~= prev + (", "@ + last));
        assert(consecutive(from, (n - 1) as nat) + seq![(from + n - 1) as nat] =~= consecutive(from, n));
        assert(seq_join(q_list(n), ", "@) =~= seq_join(q_list((n - 1) as nat), ", "@) + (", "@ + seq!['?']));
        assert(prev.len() > 0) by {
            if n - 1 == 1 {
                assert(prev == ph(from));
            }
        }
        assert((prev + (", "@ + last))[0] == prev[0]);
    }
}

/// The column (or, for raw conditions, the text) of a condition.
pub open spec fn cond_column(c: CondV) -> Seq<char> {
    match c {
        CondV::Eq(col, _) | CondV::Ne(col, _) | CondV::Gt(col, _) | CondV::Gte(col, _) | CondV::Lt(col, _)
        | CondV::Lte(col, _) | CondV::Like(col, _) | CondV::NotLike(col, _) | CondV::IsNull(col)
        | CondV::IsNotNull(col) | CondV::In(col, _) | CondV::NotIn(col, _) | CondV::Between(col, _, _)
        | CondV::NotBetween(col, _, _) | CondV::Raw(col) | CondV::RawExpr(col, _) => col,
    }
}

/// Whether a condition is built from a column and values (not raw SQL).
pub open spec fn typed(c: CondV) -> bool {
    !(c is Raw) && !(c is RawExpr)
}

/// A condition's placeholders are numbered consecutively from its offset,
/// one per parameter, each once; with `?` for each `$n` it is the anonymous
/// rendering.
pub proof fn lemma_cond_placeholders(c: CondV, offset: nat)
    requires
        typed(c),
        no_dollar(cond_column(c)),
    ensures
        ph_nums(cond_pg(c, offset)) == consecutive(offset, cond_param_count(c)),
        anon(cond_pg(c, offset)) == cond_q(c),
{
    reveal_strlit(" = ");
    reveal_strlit(" != ");
    reveal_strlit(" > ");
    reveal_strlit(" >= ");
    reveal_strlit(" < ");
    reveal_strlit(" <= ");
    reveal_strlit(" LIKE ");
    reveal_strlit(" NOT LIKE ");
    reveal_strlit(" = ?");
    reveal_strlit(" != ?");
    reveal_strlit(" > ?");
    reveal_strlit(" >= ?");
    reveal_strlit(" < ?");
    reveal_strlit(" <= ?");
    reveal_strlit(" LIKE ?");
    reveal_strlit(" NOT LIKE ?");
    reveal_strlit(" IS NULL");
    reveal_strlit(" IS NOT NULL");
    reveal_strlit(" IN (");
    reveal_strlit(" NOT IN (");
    reveal_strlit(")");
    reveal_strlit(" BETWEEN ");
    reveal_strlit(" NOT BETWEEN ");
    reveal_strlit(" AND ");
    reveal_strlit(" BETWEEN ? AND ?");
    reveal_strlit(" NOT BETWEEN ? AND ?");
    let one = consecutive(offset, 1);
    assert(one =~= seq![offset]);
    match c {
        CondV::Eq(col, _) => {
            lemma_plain_then_ph(col + " = "@, offset);
            assert(col + " = "@ + seq!['?'] =~= col + " = ?"@);
        },
        CondV::Ne(col, _) => {
            lemma_plain_then_ph(col + " != "@, offset);
            assert(col + " != "@ + seq!['?'] =~= col + " != ?"@);
        },
        CondV::Gt(col, _) => {
            lemma_plain_then_ph(col + " > "@, offset);
            assert(col + " > "@ + seq!['?'] =~= col + " > ?"@);
        },
        CondV::Gte(col, _) => {
            lemma_plain_then_ph(col + " >= "@, offset);
            assert(col + " >= "@ + seq!['?'] =~= col + " >= ?"@);
        },
        CondV::Lt(col, _) => {
            lemma_plain_then_ph(col + " < "@, offset);
            assert(col + " < "@ + seq!['?'] =~= col + " < ?"@);
        },
        CondV::Lte(col, _) => {
            lemma_plain_then_ph(col + " <= "@, offset);
            assert(col + " <= "@ + seq!['?'] =~= col + " <= ?"@);
        },
        CondV::Like(col, _) => {
            lemma_plain_then_ph(col + " LIKE "@, offset);
            assert(col + " LIKE "@ + seq!['?'] =~= col + " LIKE ?"@);
        },
        CondV::NotLike(col, _) => {
            lemma_plain_then_ph(col + " NOT LIKE "@, offset);
            assert(col + " NOT LIKE "@ + seq!['?'] =~= col + " NOT LIKE ?"@);
        },
        CondV::IsNull(col) => {
            lemma_ph_plain(col + " IS NULL"@);
            assert(consecutive(offset, 0) =~= Seq::<nat>::empty());
        },
        CondV::IsNotNull(col) => {
            lemma_ph_plain(col + " IS NOT NULL"@);
            assert(consecutive(offset, 0) =~= Seq::<nat>::empty());
        },
        CondV::In(col, vs) => {
            lemma_in_list(col + " IN ("@, offset, vs.len());
        },
        CondV::NotIn(col, vs) => {
            lemma_in_list(col + " NOT IN ("@, offset, vs.len());
        },
        CondV::Between(col, _, _) => {
            lemma_two_ph(col + " BETWEEN "@, offset, " AND "@, offset + 1);
            assert(consecutive(offset, 2) =~= seq![offset, offset + 1]);
            assert(col + " BETWEEN "@ + seq!['?'] + " AND "@ + seq!['?'] =~= col + " BETWEEN ? AND ?"@);
        },
        CondV::NotBetween(col, _, _) => {
            lemma_two_ph(col + " NOT BETWEEN "@, offset, " AND "@, offset + 1);
            assert(consecutive(offset, 2) =~= seq![offset, offset + 1]);
            assert(col + " NOT BETWEEN "@ + seq!['?'] + " AND "@ + seq!['?'] =~= col
                + " NOT BETWEEN ? AND ?"@);
        },
        CondV::Raw(_) => {},
        CondV::RawExpr(_, _) => {},
    }
}

/// Plain text, a list of placeholders joined with `, `, and `)`.
proof fn lemma_in_list(a: Seq<char>, offset: nat, n: nat)
    requires
        no_dollar(a),
    ensures
        ph_nums(a + seq_join(ph_list(offset, n), ", "@) + ")"@) == consecutive(offset, n),
        anon(a + seq_join(ph_list(offset, n), ", "@) + ")"@) == a + seq_join(q_list(n), ", "@) + ")"@,
{
    reveal_strlit(")");
    let j = seq_join(ph_list(offset, n), ", "@);
    lemma_join_ph(offset, n);
    lemma_ph_cat(a, j);
    lemma_ph_cat(a + j, ")"@);
    lemma_ph_plain(a);
    lemma_ph_plain(")"@);
    assert(Seq::<nat>::empty() + consecutive(offset, n) + Seq::<nat>::empty() =~= consecutive(offset, n));
}

/// Text without `$` in front of anything leaves the placeholders of what
/// follows as they are.
pub proof fn lemma_plain_prefix(a: Seq<char>, b: Seq<char>)
    requires
        no_dollar(a),
    ensures
        ph_nums(a + b) == ph_nums(b),
        anon(a + b) == a + anon(b),
    decreases a.len(),
{
    if a.len() == 0 {
        assert(a + b =~= b);
    } else {
        let s = a + b;
        assert(s[0] == a[0]);
        assert(s.skip(1) =~= a.skip(1) + b);
        lemma_plain_prefix(a.skip(1), b);
        assert(anon(a + b) =~= a + anon(b));
    }
}

/// Whether every condition is built from a column and values, the column
/// free of `$`.
pub open spec fn typed_conds(conds: Seq<(JoinOp, CondV)>) -> bool {
    forall|i: int| 0 <= i < conds.len() ==> typed(#[trigger] conds[i].1) && no_dollar(cond_column(conds[i].1))
}

/// A `WHERE` clause after `start` parameters numbers its placeholders
/// `$(start+1)`, `$(start+2)`, … in order, one per parameter; its SQLite and
/// MySQL rendering is the same text with each `$n` written as `?`.
pub proof fn lemma_where_placeholders(conds: Seq<(JoinOp, CondV)>, start: nat, d: Dialect)
    requires
        typed_conds(conds),
        d != Dialect::Postgres,
    ensures
        ph_nums(where_clause(Dialect::Postgres, conds, start).0) == consecutive(start + 1, params_total(conds)),
        anon(where_clause(Dialect::Postgres, conds, start).0) == where_clause(d, conds, start).0,
    decreases conds.len(),
{
    reveal_strlit(" WHERE ");
    if conds.len() == 0 {
        assert(consecutive(start + 1, 0) =~= Seq::<nat>::empty());
    } else {
        let rest = conds.drop_last();
        assert(typed_conds(rest)) by {
            assert forall|i: int| 0 <= i < rest.len() implies typed(#[trigger] rest[i].1) && no_dollar(
                cond_column(rest[i].1),
            ) by {
                assert(rest[i] == conds[i]);
            }
        }
        lemma_where_placeholders(rest, start, d);
        lemma_where_params_len(Dialect::Postgres, rest, start);
        lemma_where_params_len(d, rest, start);
        let c = conds.last().1;
        assert(conds[conds.len() - 1] == conds.last());
        let total = params_total(rest);
        let off = start + total + 1;
        let prev = where_clause(Dialect::Postgres, rest, start).0;
        let sep = if conds.len() == 1 {
            " WHERE "@
        } else {
            seq![' '] + join_op_spec(conds.last().0) + seq![' ']
        };
        assert(no_dollar(sep) && sep.len() > 0 && sep[0] == ' ') by {
            if conds.len() != 1 {
                match conds.last().0 {
                    JoinOp::And => {},
                    JoinOp::Or => {},
                }
            }
        }
        let frag = cond_pg(c, off as nat);
        lemma_cond_placeholders(c, off as nat);
        lemma_plain_prefix(sep, frag);
        lemma_ph_cat(prev, sep + frag);
        assert(where_clause(Dialect::Postgres, conds, start).0 =~= prev + (sep + frag));
        assert(where_clause(d, conds, start).0 =~= where_clause(d, rest, start).0 + (sep + cond_q(c)));
        assert(consecutive(start + 1, total) + consecutive(off as nat, cond_param_count(c)) =~= consecutive(
            start + 1,
            params_total(conds),
        ));
    }
}

/// What a `SELECT` writes before its `WHERE` clause.
pub open spec fn select_head(q: QueryV) -> Seq<char> {
    "SELECT "@ + (if q.distinct { "DISTINCT "@ } else { seq![] }) + cols_spec(q) + " FROM "@ + source_spec(q)
        + joins_spec(q.joins)
}

/// What a `SELECT` writes after its `WHERE` clause.
pub open spec fn select_tail(q: QueryV) -> Seq<char> {
    group_spec(q) + order_spec(q) + limit_spec(q.limit_val) + offset_spec(q.offset_val)
}

/// A `SELECT` of typed conditions, with no `$` in the text around them and
/// no subquery, CTE or ranking wrapper, numbers its placeholders `$1`, `$2`,
/// … in order, one per parameter; its SQLite and MySQL rendering is the
/// same text with each `$n` written as `?`, and binds the same parameters.
pub proof fn lemma_select_placeholders(q: QueryV, d: Dialect)
    requires
        q.ctes.len() == 0,
        q.cte_params.len() == 0,
        q.having_rank_n is None,
        typed_conds(soft_conds(q)),
        no_dollar(select_head(q)),
        no_dollar(select_tail(q)),
        d != Dialect::Postgres,
    ensures
        ph_nums(select_spec(q, Dialect::Postgres).0) == consecutive(1, select_spec(q, Dialect::Postgres).1.len()),
        anon(select_spec(q, Dialect::Postgres).0) == select_spec(q, d).0,
        select_spec(q, d).1 == select_spec(q, Dialect::Postgres).1,
{
    let conds = soft_conds(q);
    lemma_where_placeholders(conds, 0, d);
    lemma_select_params_count(q, Dialect::Postgres);
    lemma_where_params_len(Dialect::Postgres, conds, 0);
    lemma_where_params_len(d, conds, 0);
    let head = select_head(q);
    let tail = select_tail(q);
    let w = where_clause(Dialect::Postgres, conds, 0).0;
    lemma_select_parts(q, Dialect::Postgres);
    lemma_select_parts(q, d);
    lemma_tail_shape(q);
    lemma_ph_cat(w, tail);
    lemma_ph_plain(tail);
    lemma_plain_prefix(head, w + tail);
    assert(ph_nums(w) + Seq::<nat>::empty() =~= ph_nums(w));
    assert(head + (anon(w) + tail) =~= head + (where_clause(d, conds, 0).0 + tail));
    lemma_where_params_same(conds, 0, d);
}

/// The parameters of a `WHERE` clause are the same in every dialect.
pub proof fn lemma_where_params_same(conds: Seq<(JoinOp, CondV)>, start: nat, d: Dialect)
    ensures
        where_clause(d, conds, start).1 == where_clause(Dialect::Postgres, conds, start).1,
    decreases conds.len(),
{
    if conds.len() > 0 {
        lemma_where_params_same(conds.drop_last(), start, d);
    }
}

/// What follows the `WHERE` clause starts with a space, if anything.
proof fn lemma_tail_shape(q: QueryV)
    ensures
        no_leading_digit(select_tail(q)),
{
    reveal_strlit(" GROUP BY ");
    reveal_strlit(" HAVING ");
    reveal_strlit(" ORDER BY ");
    reveal_strlit(" LIMIT ");
    reveal_strlit(" OFFSET ");
    let g = group_spec(q);
    let o = order_spec(q);
    let l = limit_spec(q.limit_val);
    let f = offset_spec(q.offset_val);
    assert(g.len() == 0 || g[0] == ' ');
    assert(o.len() == 0 || o[0] == ' ');
    assert(l.len() == 0 || l[0] == ' ');
    assert(f.len() == 0 || f[0] == ' ');
    let t = select_tail(q);
    assert(t =~= g + o + l + f);
    if t.len() > 0 {
        if g.len() > 0 {
            assert(t[0] == g[0]);
        } else if o.len() > 0 {
            assert(t[0] == o[0]);
        } else if l.len() > 0 {
            assert(t[0] == l[0]);
        } else {
            assert(t[0] == f[0]);
        }
    }
}

/// A plain `SELECT` is its head, its `WHERE` clause and its tail.
proof fn lemma_select_parts(q: QueryV, d: Dialect)
    requires
        q.ctes.len() == 0,
        q.cte_params.len() == 0,
        q.having_rank_n is None,
    ensures
        select_spec(q, d).0 == select_head(q) + (where_clause(d, soft_conds(q), 0).0 + select_tail(q)),
        select_spec(q, d).1 == where_clause(d, soft_conds(q), 0).1,
{
    assert(select_spec(q, d).0 =~= select_head(q) + (where_clause(d, soft_conds(q), 0).0 + select_tail(q)));
    assert(select_spec(q, d).1 =~= where_clause(d, soft_conds(q), 0).1);
}

// ── anonymous placeholders ──────────────────────────────────────────────────

/// The number of `?` characters of `s`.
pub open spec fn count_q(s: Seq<char>) -> nat
    decreases s.len(),
{
    if s.len() == 0 {
        0
    } else {
        (if s[0] == '?' { 1nat } else { 0nat }) + count_q(s.skip(1))
    }
}

/// Whether `s` holds no `?`.
pub open spec fn no_qmark(s: Seq<char>) -> bool {
    forall|i: int| 0 <= i < s.len() ==> s[i] != '?'
}

/// Whether no `$` of `s` is followed by a digit: `s` holds no placeholder.
pub open spec fn no_ph(s: Seq<char>) -> bool {
    forall|i: int| #![trigger s[i]] 0 <= i < s.len() && s[i] == '$' ==> i + 1 == s.len() || !is_digit(s[i + 1])
}

proof fn lemma_count_cat(a: Seq<char>, b: Seq<char>)
    ensures
        count_q(a + b) == count_q(a) + count_q(b),
    decreases a.len(),
{
    if a.len() == 0 {
        assert(a + b =~= b);
    } else {
        assert((a + b)[0] == a[0]);
        assert((a + b).skip(1) =~= a.skip(1) + b);
        lemma_count_cat(a.skip(1), b);
    }
}

proof fn lemma_count_zero(s: Seq<char>)
    requires
        no_qmark(s),
    ensures
        count_q(s) == 0,
    decreases s.len(),
{
    if s.len() > 0 {
        lemma_count_zero(s.skip(1));
    }
}

/// Writing each placeholder as `?` adds one `?` per placeholder.
proof fn lemma_anon_count(t: Seq<char>)
    ensures
        count_q(anon(t)) == ph_nums(t).len() + count_q(t),
    decreases t.len(),
{
    if t.len() > 0 {
        lemma_digit_run_shape(t, 1);
        let k = digit_run(t, 1) as int;
        if t[0] == '$' && k > 0 {
            lemma_anon_count(t.skip(1 + k));
            let head = t.take(1 + k);
            assert(no_qmark(head)) by {
                assert forall|j: int| 0 <= j < head.len() implies head[j] != '?' by {
                    if j > 0 {
                        assert(is_digit(t[j]));
                    }
                }
            }
            lemma_count_zero(head);
            assert(t =~= head + t.skip(1 + k));
            lemma_count_cat(head, t.skip(1 + k));
            assert(anon(t) == seq!['?'] + anon(t.skip(1 + k)));
            assert((seq!['?'] + anon(t.skip(1 + k))).skip(1) =~= anon(t.skip(1 + k)));
        } else {
            lemma_anon_count(t.skip(1));
            assert(anon(t) == seq![t[0]] + anon(t.skip(1)));
            assert((seq![t[0]] + anon(t.skip(1))).skip(1) =~= anon(t.skip(1)));
        }
    }
}

/// Text holding no placeholder reads as no placeholder numbers.
proof fn lemma_no_ph_nums(u: Seq<char>)
    requires
        no_ph(u),
    ensures
        ph_nums(u) == Seq::<nat>::empty(),
    decreases u.len(),
{
    if u.len() > 0 {
        let rest = u.skip(1);
        assert(no_ph(rest)) by {
            assert forall|i: int| #![trigger rest[i]] 0 <= i < rest.len() && rest[i] == '$' implies i + 1
                == rest.len() || !is_digit(rest[i + 1]) by {
                assert(rest[i] == u[i + 1]);
                if i + 1 < rest.len() {
                    assert(rest[i + 1] == u[i + 2]);
                }
            }
        }
        lemma_no_ph_nums(rest);
        if u[0] == '$' {
            if u.len() > 1 {
                assert(!is_digit(u[1]));
            }
            assert(digit_run(u, 1) == 0);
        }
    }
}

/// After writing each placeholder as `?`, no placeholder is left, and the
/// text starts with `?` or with the character it started with.
proof fn lemma_anon_no_ph(t: Seq<char>)
    ensures
        no_ph(anon(t)),
        anon(t).len() > 0 ==> t.len() > 0 && (anon(t)[0] == '?' || anon(t)[0] == t[0]),
    decreases t.len(),
{
    if t.len() > 0 {
        lemma_digit_run_shape(t, 1);
        let k = digit_run(t, 1) as int;
        let u = anon(t);
        if t[0] == '$' && k > 0 {
            let rest = anon(t.skip(1 + k));
            lemma_anon_no_ph(t.skip(1 + k));
            assert(u == seq!['?'] + rest);
            assert forall|i: int| #![trigger u[i]] 0 <= i < u.len() && u[i] == '$' implies i + 1 == u.len()
                || !is_digit(u[i + 1]) by {
                assert(i > 0);
                assert(u[i] == rest[i - 1]);
                assert(rest[i - 1] == '$');
                if i + 1 < u.len() {
                    assert(u[i + 1] == rest[i]);
                }
            }
        } else {
            let rest = anon(t.skip(1));
            lemma_anon_no_ph(t.skip(1));
            assert(u == seq![t[0]] + rest);
            assert forall|i: int| #![trigger u[i]] 0 <= i < u.len() && u[i] == '$' implies i + 1 == u.len()
                || !is_digit(u[i + 1]) by {
                if i == 0 {
                    if u.len() > 1 {
                        assert(u[1] == rest[0]);
                        assert(t.skip(1)[0] == t[1]);
                        if t[0] == '$' {
                            assert(k == 0);
                            assert(!is_digit(t[1]));
                        }
                    }
                } else {
                    assert(u[i] == rest[i - 1]);
                    assert(rest[i - 1] == '$');
                    if i + 1 < u.len() {
                        assert(u[i + 1] == rest[i]);
                    }
                }
            }
        }
    }
}

/// A placeholder holds no `?`.
proof fn lemma_ph_no_qmark(n: nat)
    ensures
        no_qmark(ph(n)),
{
    lemma_nat_dec_digits(n);
    let p = ph(n);
    assert forall|j: int| 0 <= j < p.len() implies p[j] != '?' by {
        if j > 0 {
            assert(p[j] == nat_dec(n)[j - 1]);
        }
    }
}

/// A list of placeholders joined with `, ` holds no `?`.
proof fn lemma_join_no_qmark(from: nat, n: nat)
    ensures
        no_qmark(seq_join(ph_list(from, n), ", "@)),
    decreases n,
{
    reveal_strlit(", ");
    if n == 1 {
        lemma_ph_no_qmark(from);
        assert(ph_list(from, 1)[0] == ph(from));
    } else if n > 1 {
        lemma_join_no_qmark(from, (n - 1) as nat);
        assert(ph_list(from, n).drop_last() =~= ph_list(from, (n - 1) as nat));
        lemma_ph_no_qmark((from + n - 1) as nat);
        assert(ph_list(from, n).last() == ph((from + n - 1) as nat));
    }
}

/// A condition whose column holds no `?` renders with no `?` in PostgreSQL.
proof fn lemma_cond_no_qmark(c: CondV, offset: nat)
    requires
        typed(c),
        no_qmark(cond_column(c)),
    ensures
        no_qmark(cond_pg(c, offset)),
{
    reveal_strlit(" = ");
    reveal_strlit(" != ");
    reveal_strlit(" > ");
    reveal_strlit(" >= ");
    reveal_strlit(" < ");
    reveal_strlit(" <= ");
    reveal_strlit(" LIKE ");
    reveal_strlit(" NOT LIKE ");
    reveal_strlit(" IS NULL");
    reveal_strlit(" IS NOT NULL");
    reveal_strlit(" IN (");
    reveal_strlit(" NOT IN (");
    reveal_strlit(")");
    reveal_strlit(" BETWEEN ");
    reveal_strlit(" NOT BETWEEN ");
    reveal_strlit(" AND ");
    lemma_ph_no_qmark(offset);
    lemma_ph_no_qmark(offset + 1);
    match c {
        CondV::In(_, vs) => {
            lemma_join_no_qmark(offset, vs.len());
        },
        CondV::NotIn(_, vs) => {
            lemma_join_no_qmark(offset, vs.len());
        },
        _ => {},
    }
}

/// Whether every condition's column holds no `?`.
pub open spec fn qmark_free_conds(conds: Seq<(JoinOp, CondV)>) -> bool {
    forall|i: int| 0 <= i < conds.len() ==> no_qmark(cond_column(#[trigger] conds[i].1))
}

/// A `WHERE` clause of typed conditions whose columns hold no `?` has no `?`
/// in PostgreSQL.
proof fn lemma_where_no_qmark(conds: Seq<(JoinOp, CondV)>, start: nat)
    requires
        typed_conds(conds),
        qmark_free_conds(conds),
    ensures
        no_qmark(where_clause(Dialect::Postgres, conds, start).0),
    decreases conds.len(),
{
    reveal_strlit(" WHERE ");
    if conds.len() > 0 {
        let rest = conds.drop_last();
        assert(typed_conds(rest) && qmark_free_conds(rest)) by {
            assert forall|i: int| 0 <= i < rest.len() implies typed(#[trigger] rest[i].1) && no_dollar(
                cond_column(rest[i].1),
            ) && no_qmark(cond_column(rest[i].1)) by {
                assert(rest[i] == conds[i]);
            }
        }
        lemma_where_no_qmark(rest, start);
        let c = conds.last().1;
        assert(conds[conds.len() - 1] == conds.last());
        let off = start + where_clause(Dialect::Postgres, rest, start).1.len() + 1;
        lemma_cond_no_qmark(c, off as nat);
        if conds.len() != 1 {
            match conds.last().0 {
                JoinOp::And => {},
                JoinOp::Or => {},
            }
        }
    }
}

/// A `SELECT` as in [`lemma_select_placeholders`], with no `?` in its text
/// either, renders in SQLite and MySQL with no `$` placeholder and exactly
/// one `?` per parameter.
pub proof fn lemma_select_marks(q: QueryV, d: Dialect)
    requires
        q.ctes.len() == 0,
        q.cte_params.len() == 0,
        q.having_rank_n is None,
        typed_conds(soft_conds(q)),
        qmark_free_conds(soft_conds(q)),
        no_dollar(select_head(q)),
        no_dollar(select_tail(q)),
        no_qmark(select_head(q)),
        no_qmark(select_tail(q)),
        d != Dialect::Postgres,
    ensures
        ph_nums(select_spec(q, d).0) == Seq::<nat>::empty(),
        count_q(select_spec(q, d).0) == select_spec(q, d).1.len(),
{
    lemma_select_placeholders(q, d);
    let p = select_spec(q, Dialect::Postgres).0;
    lemma_anon_no_ph(p);
    lemma_no_ph_nums(anon(p));
    lemma_anon_count(p);
    lemma_select_parts(q, Dialect::Postgres);
    let w = where_clause(Dialect::Postgres, soft_conds(q), 0).0;
    lemma_where_no_qmark(soft_conds(q), 0);
    lemma_count_zero(select_head(q));
    lemma_count_zero(w);
    lemma_count_zero(select_tail(q));
    lemma_count_cat(w, select_tail(q));
    lemma_count_cat(select_head(q), w + select_tail(q));
}

// ── updates ─────────────────────────────────────────────────────────────────

/// Whether no column of the pairs holds a `$`.
pub open spec fn plain_columns(cols: Seq<(Seq<char>, SqlVal)>) -> bool {
    forall|i: int| 0 <= i < cols.len() ==> no_dollar(#[trigger] cols[i].0)
}

/// The `SET` list of an update numbers its placeholders `$1`, … in order,
/// and written with `?` it is the anonymous `SET` list.
proof fn lemma_set_join(cols: Seq<(Seq<char>, SqlVal)>, d: Dialect)
    requires
        plain_columns(cols),
        d != Dialect::Postgres,
    ensures
        ph_nums(seq_join(set_list(Dialect::Postgres, cols), ", "@)) == consecutive(1, cols.len()),
        anon(seq_join(set_list(Dialect::Postgres, cols), ", "@)) == seq_join(set_list(d, cols), ", "@),
    decreases cols.len(),
{
    reveal_strlit(", ");
    reveal_strlit(" = ");
    reveal_strlit(" = ?");
    let n = cols.len();
    if n == 0 {
        assert(consecutive(1, 0) =~= Seq::<nat>::empty());
    } else {
        let last = n - 1;
        let item = cols[last].0 + " = "@ + ph(n as nat);
        assert(set_list(Dialect::Postgres, cols)[last] == item);
        assert(set_list(d, cols)[last] == cols[last].0 + " = ?"@);
        lemma_plain_then_ph(cols[last].0 + " = "@, n as nat);
        assert(cols[last].0 + " = "@ + seq!['?'] =~= cols[last].0 + " = ?"@);
        if n == 1 {
            assert(consecutive(1, 1) =~= seq![1nat]);
        } else {
            let rest = cols.drop_last();
            assert(plain_columns(rest)) by {
                assert forall|i: int| 0 <= i < rest.len() implies no_dollar(#[trigger] rest[i].0) by {
                    assert(rest[i] == cols[i]);
                }
            }
            lemma_set_join(rest, d);
            assert(set_list(Dialect::Postgres, cols).drop_last() =~= set_list(Dialect::Postgres, rest));
            assert(set_list(d, cols).drop_last() =~= set_list(d, rest));
            let prev = seq_join(set_list(Dialect::Postgres, rest), ", "@);
            lemma_plain_prefix(", "@, item);
            assert((", "@ + item)[0] == ',');
            lemma_ph_cat(prev, ", "@ + item);
            assert(seq_join(set_list(Dialect::Postgres, cols), ", "@) =~= prev + (", "@ + item));
            assert(seq_join(set_list(d, cols), ", "@) =~= seq_join(set_list(d, rest), ", "@) + (", "@ + (
            cols[last].0 + " = ?"@)));
            assert(consecutive(1, (n - 1) as nat) + seq![n as nat] =~= consecutive(1, n as nat));
        }
    }
}

/// An `UPDATE` numbers its placeholders `$1`, `$2`, … in order: first one
/// per assigned column, then one per parameter of its conditions; its SQLite
/// and MySQL rendering is the same text with each `$n` written as `?`, and
/// binds the same parameters.
pub proof fn lemma_update_placeholders(q: QueryV, cols: Seq<(Seq<char>, SqlVal)>, d: Dialect)
    requires
        no_dollar(q.table),
        plain_columns(cols),
        typed_conds(q.conditions),
        d != Dialect::Postgres,
    ensures
        ph_nums(update_spec(q, Dialect::Postgres, cols).0) == consecutive(
            1,
            update_spec(q, Dialect::Postgres, cols).1.len(),
        ),
        anon(update_spec(q, Dialect::Postgres, cols).0) == update_spec(q, d, cols).0,
        update_spec(q, d, cols).1 == update_spec(q, Dialect::Postgres, cols).1,
{
    reveal_strlit("UPDATE ");
    reveal_strlit(" SET ");
    let n = cols.len();
    let j = seq_join(set_list(Dialect::Postgres, cols), ", "@);
    let w = where_clause(Dialect::Postgres, q.conditions, n).0;
    let head = "UPDATE "@ + q.table + " SET "@;
    lemma_set_join(cols, d);
    lemma_where_placeholders(q.conditions, n, d);
    lemma_where_params_len(Dialect::Postgres, q.conditions, n);
    lemma_where_params_same(q.conditions, n, d);
    assert(no_leading_digit(w)) by {
        if q.conditions.len() > 0 {
            crate::query::laws::lemma_where_starts(Dialect::Postgres, q.conditions, n);
            assert(w[0] == w.subrange(0, 7)[0]);
            reveal_strlit(" WHERE ");
        }
    }
    lemma_ph_cat(j, w);
    lemma_plain_prefix(head, j + w);
    assert(update_spec(q, Dialect::Postgres, cols).0 =~= head + (j + w));
    assert(update_spec(q, d, cols).0 =~= head + (seq_join(set_list(d, cols), ", "@) + where_clause(
        d,
        q.conditions,
        n,
    ).0));
    assert(consecutive(1, n) + consecutive(n + 1, params_total(q.conditions)) =~= consecutive(
        1,
        n + params_total(q.conditions),
    ));
    assert(pair_vals(cols).len() == n);
}

// ── inserts ─────────────────────────────────────────────────────────────────

/// Parts without `$`, joined with a separator without `$`, hold no `$`.
proof fn lemma_join_no_dollar(parts: Seq<Seq<char>>, sep: Seq<char>)
    requires
        forall|i: int| 0 <= i < parts.len() ==> no_dollar(#[trigger] parts[i]),
        no_dollar(sep),
    ensures
        no_dollar(seq_join(parts, sep)),
    decreases parts.len(),
{
    if parts.len() > 1 {
        let rest = parts.drop_last();
        assert forall|i: int| 0 <= i < rest.len() implies no_dollar(#[trigger] rest[i]) by {
            assert(rest[i] == parts[i]);
        }
        lemma_join_no_dollar(rest, sep);
        assert(no_dollar(parts.last()));
        let j = seq_join(parts, sep);
        let a = seq_join(rest, sep);
        assert(j == a + sep + parts.last());
        assert forall|k: int| 0 <= k < j.len() implies j[k] != '$' by {
            if k < a.len() {
                assert(j[k] == a[k]);
            } else if k < a.len() + sep.len() {
                assert(j[k] == sep[k - a.len()]);
            } else {
                assert(j[k] == parts.last()[k - a.len() - sep.len()]);
            }
        }
    } else if parts.len() == 1 {
        assert(no_dollar(parts[0]));
    }
}

/// An `INSERT` of a row numbers its placeholders `$1`, … one per value, in
/// order; its SQLite and MySQL rendering is the same text with each `$n`
/// written as `?`.
pub proof fn lemma_insert_placeholders(table: Seq<char>, data: Seq<(Seq<char>, SqlVal)>, d: Dialect)
    requires
        no_dollar(table),
        plain_columns(data),
        d != Dialect::Postgres,
    ensures
        ph_nums(insert_head(Dialect::Postgres, table, data, false)) == consecutive(1, data.len()),
        anon(insert_head(Dialect::Postgres, table, data, false)) == insert_head(d, table, data, false),
{
    reveal_strlit("INSERT INTO ");
    reveal_strlit(" (");
    reveal_strlit(") VALUES (");
    reveal_strlit(", ");
    reveal_strlit(")");
    let cols = data_cols(data);
    assert forall|i: int| 0 <= i < cols.len() implies no_dollar(#[trigger] cols[i]) by {
        assert(cols[i] == data[i].0);
    }
    lemma_join_no_dollar(cols, ", "@);
    let a = "INSERT INTO "@ + table + " ("@ + seq_join(cols, ", "@) + ") VALUES ("@;
    lemma_in_list(a, 1, data.len());
    assert(insert_head(Dialect::Postgres, table, data, false) =~= a + seq_join(ph_list(1, data.len()), ", "@)
        + ")"@);
    assert(insert_head(d, table, data, false) =~= a + seq_join(q_list(data.len()), ", "@) + ")"@);
}

} // verus!
