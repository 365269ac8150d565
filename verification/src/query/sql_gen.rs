//! SELECT / COUNT / DELETE / UPDATE SQL generation for [`QueryBuilder`].

use vstd::prelude::*;
use crate::text::{append, int_dec, i64_dec, join, lemma_views_push, nat_dec, owned, push_char, seq_join, usize_dec, views};
use super::builder::{QueryBuilder, QueryV, conds_view, data_view, new_query, order_view, pairs_view};
use super::condition::{CondV, Condition, cond_param_count, cond_params, cond_pg, cond_q, ph, ph_str};
use super::value::{Dialect, Join, JoinOp, JoinV, OrderDir, OrderV, SoftDeleteMode, SqlVal, SqlValue, join_op_spec, lemma_vals_add, lemma_vals_push, order_dir_spec, vals};

verus! {

// ── WHERE ───────────────────────────────────────────────────────────────────

/// The fragment of one condition in a dialect, numbered from `offset`.
pub open spec fn frag_spec(d: Dialect, c: CondV, offset: nat) -> Seq<char> {
    if d == Dialect::Postgres {
        cond_pg(c, offset)
    } else {
        cond_q(c)
    }
}

/// The `WHERE` clause of `conds` and the parameters it binds, when `start`
/// parameters come before it: ` WHERE c1 OP2 c2 …`, empty with no conditions.
pub open spec fn where_clause(d: Dialect, conds: Seq<(JoinOp, CondV)>, start: nat) -> (Seq<char>, Seq<SqlVal>)
    decreases conds.len(),
{
    if conds.len() == 0 {
        (seq![], seq![])
    } else {
        let prev = where_clause(d, conds.drop_last(), start);
        let op = conds.last().0;
        let c = conds.last().1;
        let frag = frag_spec(d, c, start + prev.1.len() + 1);
        let sep = if conds.len() == 1 {
            " WHERE "@
        } else {
            seq![' '] + join_op_spec(op) + seq![' ']
        };
        (prev.0 + sep + frag, prev.1 + cond_params(c))
    }
}

/// The number of parameters a list of conditions binds.
pub open spec fn params_total(conds: Seq<(JoinOp, CondV)>) -> nat
    decreases conds.len(),
{
    if conds.len() == 0 {
        0
    } else {
        params_total(conds.drop_last()) + cond_param_count(conds.last().1)
    }
}

/// A condition binds as many parameters as it counts.
pub proof fn lemma_cond_params_len(c: CondV)
    ensures
        cond_params(c).len() == cond_param_count(c),
{
}

/// The parameters of a `WHERE` clause number as many as its conditions count.
pub proof fn lemma_where_params_len(d: Dialect, conds: Seq<(JoinOp, CondV)>, start: nat)
    ensures
        where_clause(d, conds, start).1.len() == params_total(conds),
    decreases conds.len(),
{
    if conds.len() > 0 {
        lemma_where_params_len(d, conds.drop_last(), start);
        lemma_cond_params_len(conds.last().1);
    }
}

/// The conditions a query filters on: its own, then the soft-delete filter.
pub open spec fn soft_conds(q: QueryV) -> Seq<(JoinOp, CondV)> {
    match q.soft_delete_column {
        Some(col) => match q.soft_delete_mode {
            SoftDeleteMode::Exclude => q.conditions.push((JoinOp::And, CondV::IsNull(col))),
            SoftDeleteMode::Include => q.conditions,
            SoftDeleteMode::Only => q.conditions.push((JoinOp::And, CondV::IsNotNull(col))),
        },
        None => q.conditions,
    }
}

/// Appends one condition to a `WHERE` clause under construction.
fn where_step(
    d: Dialect,
    first: bool,
    op: JoinOp,
    c: &Condition,
    out: &mut String,
    params: &mut Vec<SqlValue>,
)
    requires
        old(params)@.len() + 1 + cond_param_count(c@) <= usize::MAX,
    ensures
        final(out)@ == old(out)@ + (if first {
            " WHERE "@
        } else {
            seq![' '] + join_op_spec(op) + seq![' ']
        }) + frag_spec(d, c@, (old(params)@.len() + 1) as nat),
        vals(final(params)@) == vals(old(params)@) + cond_params(c@),
{
    let (frag, ps) = match d {
        Dialect::Postgres => c.to_param_sql(params.len() + 1),
        Dialect::Sqlite | Dialect::Mysql => c.to_param_sql_sqlite(),
    };
    let ghost before = params@;
    let ghost added = ps@;
    let mut ps = ps;
    params.append(&mut ps);
    proof { lemma_vals_add(before, added); }
    if first {
        append(out, " WHERE ");
    } else {
        push_char(out, ' ');
        let kw = op.keyword();
        append(out, kw.as_str());
        push_char(out, ' ');
    }
    append(out, frag.as_str());
}

/// Appends the `WHERE` clause of `conds`, followed by `extra` when given.
pub(crate) fn build_where_from_dialect(
    d: Dialect,
    conds: &[(JoinOp, Condition)],
    extra: Option<Condition>,
    params: &mut Vec<SqlValue>,
) -> (r: String)
    requires
        old(params)@.len() + 1 + params_total(all_conds(conds_view(conds@), extra)) <= usize::MAX,
    ensures
        r@ == where_clause(d, all_conds(conds_view(conds@), extra), old(params)@.len() as nat).0,
        vals(final(params)@) == vals(old(params)@) + where_clause(
            d,
            all_conds(conds_view(conds@), extra),
            old(params)@.len() as nat,
        ).1,
{
    let ghost start = params@.len() as nat;
    let ghost p0 = vals(params@);
    let ghost cv = conds_view(conds@);
    let ghost all = all_conds(cv, extra);
    let mut out = String::new();
    let mut i: usize = 0;
    proof {
        lemma_params_total_prefix(all, cv.len() as int);
        assert(all.take(cv.len() as int) =~= cv);
    }
    while i < conds.len()
        invariant
            i <= conds@.len(),
            cv == conds_view(conds@),
            all == all_conds(cv, extra),
            start + 1 + params_total(all) <= usize::MAX,
            params_total(cv) <= params_total(all),
            out@ == where_clause(d, cv.take(i as int), start).0,
            vals(params@) == p0 + where_clause(d, cv.take(i as int), start).1,
            p0.len() == start,
        decreases conds.len() - i,
    {
        let ghost pre = cv.take(i as int);
        proof {
            lemma_where_params_len(d, pre, start);
            lemma_params_total_prefix(cv, i + 1);
            assert(cv.take(i + 1).drop_last() =~= pre);
            assert(cv[i as int] == (conds@[i as int].0, conds@[i as int].1@));
            assert(cv.take(i + 1).last() == cv[i as int]);
            assert(params_total(cv.take(i + 1)) == params_total(pre) + cond_param_count(
                conds@[i as int].1@,
            ));
            assert(vals(params@).len() == params@.len());
            assert(params@.len() == start + params_total(pre));
        }
        let op = conds[i].0;
        where_step(d, i == 0, op, &conds[i].1, &mut out, params);
        proof {
            assert(cv.take(i + 1).last() == cv[i as int]);
            assert(vals(params@) =~= p0 + where_clause(d, cv.take(i + 1), start).1);
        }
        i = i + 1;
    }
    assert(cv.take(conds@.len() as int) =~= cv);
    match extra {
        None => {
            assert(all == cv);
            out
        },
        Some(c) => {
            proof {
                lemma_where_params_len(d, cv, start);
                assert(all.drop_last() =~= cv);
                assert(all.last() == (JoinOp::And, c@));
            }
            where_step(d, conds.len() == 0, JoinOp::And, &c, &mut out, params);
            proof {
                assert(vals(params@) =~= p0 + where_clause(d, all, start).1);
            }
            out
        },
    }
}

/// `conds`, followed by `extra` (joined with `AND`) when given.
pub open spec fn all_conds(conds: Seq<(JoinOp, CondV)>, extra: Option<Condition>) -> Seq<(JoinOp, CondV)> {
    match extra {
        Some(c) => conds.push((JoinOp::And, c@)),
        None => conds,
    }
}

/// The parameters of a prefix number at most those of the whole.
pub proof fn lemma_params_total_prefix(conds: Seq<(JoinOp, CondV)>, n: int)
    requires
        0 <= n <= conds.len(),
    ensures
        params_total(conds.take(n)) <= params_total(conds),
    decreases conds.len() - n,
{
    if n < conds.len() {
        lemma_params_total_prefix(conds, n + 1);
        assert(conds.take(n + 1).drop_last() =~= conds.take(n));
    } else {
        assert(conds.take(n) =~= conds);
    }
}

// ── clause specifications ───────────────────────────────────────────────────

/// The text of one join.
pub open spec fn join_text(j: JoinV) -> Seq<char> {
    match j {
        JoinV::Inner(t, on) => " INNER JOIN "@ + t + " ON "@ + on,
        JoinV::Left(t, on) => " LEFT JOIN "@ + t + " ON "@ + on,
        JoinV::Right(t, on) => " RIGHT JOIN "@ + t + " ON "@ + on,
    }
}

/// The joins of a query, in order.
pub open spec fn joins_spec(js: Seq<JoinV>) -> Seq<char>
    decreases js.len(),
{
    if js.len() == 0 {
        seq![]
    } else {
        joins_spec(js.drop_last()) + join_text(js.last())
    }
}

/// ` GROUP BY …` and ` HAVING …`, each when set.
pub open spec fn group_spec(q: QueryV) -> Seq<char> {
    (if q.group_by.len() > 0 {
        " GROUP BY "@ + seq_join(q.group_by, ", "@)
    } else {
        seq![]
    }) + (match q.having {
        Some(h) => " HAVING "@ + h,
        None => seq![],
    })
}

/// One `ORDER BY` item: a raw expression as written, else `col DIR`.
pub open spec fn order_item(p: (Seq<char>, OrderV)) -> Seq<char> {
    match p.1 {
        OrderV::Raw(e) => e,
        _ => p.0 + seq![' '] + order_dir_spec(p.1),
    }
}

/// ` ORDER BY …` when any ordering is set.
pub open spec fn order_spec(q: QueryV) -> Seq<char> {
    if q.order.len() == 0 {
        seq![]
    } else {
        " ORDER BY "@ + seq_join(q.order.map_values(|p: (Seq<char>, OrderV)| order_item(p)), ", "@)
    }
}

/// ` LIMIT n` when set.
pub open spec fn limit_spec(l: Option<usize>) -> Seq<char> {
    match l {
        Some(n) => " LIMIT "@ + nat_dec(n as nat),
        None => seq![],
    }
}

/// ` OFFSET n` when set.
pub open spec fn offset_spec(o: Option<usize>) -> Seq<char> {
    match o {
        Some(n) => " OFFSET "@ + nat_dec(n as nat),
        None => seq![],
    }
}

/// The selected columns: the list joined with `, `, or `*`.
pub open spec fn cols_spec(q: QueryV) -> Seq<char> {
    match q.select_cols {
        Some(c) => seq_join(c, ", "@),
        None => seq!['*'],
    }
}

/// What the query reads from: the override when set, else the table.
pub open spec fn source_spec(q: QueryV) -> Seq<char> {
    match q.from_override {
        Some(f) => f,
        None => q.table,
    }
}

/// `name AS (inner)`.
pub open spec fn cte_clause(p: (Seq<char>, Seq<char>)) -> Seq<char> {
    p.0 + " AS ("@ + p.1 + seq![')']
}

/// Whether the parameters a query binds can be numbered in a `usize`.
pub open spec fn params_fit(q: QueryV) -> bool {
    q.cte_params.len() + 1 + params_total(soft_conds(q)) <= usize::MAX
}

/// The `SELECT … FROM …` part of a query, before any `WITH` clause.
pub open spec fn select_body_spec(q: QueryV, d: Dialect, strip: bool) -> Seq<char> {
    "SELECT "@ + (if q.distinct { "DISTINCT "@ } else { seq![] }) + cols_spec(q) + " FROM "@
        + source_spec(q) + joins_spec(q.joins) + where_clause(d, soft_conds(q), q.cte_params.len()).0
        + group_spec(q) + order_spec(q) + (if strip { seq![] } else { limit_spec(q.limit_val) }) + (
    if strip {
        seq![]
    } else {
        offset_spec(q.offset_val)
    })
}

/// The `SELECT` of a query without the ranking wrapper; `strip` leaves out
/// `LIMIT` and `OFFSET`.
pub open spec fn select_plain(q: QueryV, d: Dialect, strip: bool) -> (Seq<char>, Seq<SqlVal>) {
    let w = where_clause(d, soft_conds(q), q.cte_params.len());
    let body = select_body_spec(q, d, strip);
    let sql = if q.ctes.len() == 0 {
        body
    } else {
        "WITH "@ + seq_join(q.ctes.map_values(|p: (Seq<char>, Seq<char>)| cte_clause(p)), ", "@)
            + seq![' '] + body
    };
    (sql, q.cte_params + w.1)
}

/// The `SELECT` statement of a query and its parameters.
pub open spec fn select_spec(q: QueryV, d: Dialect) -> (Seq<char>, Seq<SqlVal>) {
    match q.having_rank_n {
        Some(p) => {
            let inner = select_plain(q, d, true);
            (
                "SELECT * FROM ("@ + inner.0 + ") AS __ranked WHERE "@ + p.0 + " = "@ + int_dec(
                    p.1 as int,
                ),
                inner.1,
            )
        },
        None => select_plain(q, d, false),
    }
}

/// `col = $i` (numbered from `start + 1`) or `col = ?` for each column.
pub open spec fn set_list(d: Dialect, cols: Seq<(Seq<char>, SqlVal)>) -> Seq<Seq<char>> {
    Seq::new(
        cols.len(),
        |i: int|
            if d == Dialect::Postgres {
                cols[i].0 + " = "@ + ph((i + 1) as nat)
            } else {
                cols[i].0 + " = ?"@
            },
    )
}

/// The values of column/value pairs, in order.
pub open spec fn pair_vals(cols: Seq<(Seq<char>, SqlVal)>) -> Seq<SqlVal> {
    cols.map_values(|p: (Seq<char>, SqlVal)| p.1)
}

/// `UPDATE table SET … WHERE …` over the query's own conditions.
pub open spec fn update_spec(q: QueryV, d: Dialect, cols: Seq<(Seq<char>, SqlVal)>) -> (Seq<char>, Seq<SqlVal>) {
    let w = where_clause(d, q.conditions, cols.len());
    ("UPDATE "@ + q.table + " SET "@ + seq_join(set_list(d, cols), ", "@) + w.0, pair_vals(cols) + w.1)
}

// ── clause builders ─────────────────────────────────────────────────────────

/// Appends `c` to `out` once for each `i < n`, separated by `, `.
fn push_join(out: &mut String, parts: &Vec<String>)
    ensures
        final(out)@ == old(out)@ + seq_join(views(parts@), ", "@),
{
    let j = join(parts, ", ");
    append(out, j.as_str());
}

impl<T> QueryBuilder<T> {
    /// The joins, in order.
    pub(crate) fn build_joins(&self) -> (r: String)
        ensures
            r@ == joins_spec(self@.joins),
    {
        let mut out = String::new();
        let ghost js = self@.joins;
        let mut i: usize = 0;
        while i < self.joins.len()
            invariant
                i <= self.joins@.len(),
                js == self@.joins,
                js == self.joins@.map_values(|j: Join| j@),
                out@ == joins_spec(js.take(i as int)),
            decreases self.joins.len() - i,
        {
            assert(js.take(i + 1).drop_last() =~= js.take(i as int));
            assert(js[i as int] == self.joins@[i as int]@);
            match &self.joins[i] {
                Join::Inner(t, on) => {
                    append(&mut out, " INNER JOIN ");
                    append(&mut out, t.as_str());
                    append(&mut out, " ON ");
                    append(&mut out, on.as_str());
                },
                Join::Left(t, on) => {
                    append(&mut out, " LEFT JOIN ");
                    append(&mut out, t.as_str());
                    append(&mut out, " ON ");
                    append(&mut out, on.as_str());
                },
                Join::Right(t, on) => {
                    append(&mut out, " RIGHT JOIN ");
                    append(&mut out, t.as_str());
                    append(&mut out, " ON ");
                    append(&mut out, on.as_str());
                },
            }
            assert(out@ =~= joins_spec(js.take(i + 1)));
            i = i + 1;
        }
        assert(js.take(self.joins@.len() as int) =~= js);
        out
    }

    /// ` GROUP BY …` and ` HAVING …`.
    pub(crate) fn build_group_by(&self) -> (r: String)
        ensures
            r@ == group_spec(self@),
    {
        let mut out = String::new();
        if self.group_by.len() > 0 {
            append(&mut out, " GROUP BY ");
            push_join(&mut out, &self.group_by);
        }
        match &self.having {
            Some(h) => {
                append(&mut out, " HAVING ");
                append(&mut out, h.as_str());
            },
            None => {},
        }
        assert(out@ =~= group_spec(self@));
        out
    }

    /// ` ORDER BY …`.
    pub(crate) fn build_order(&self) -> (r: String)
        ensures
            r@ == order_spec(self@),
    {
        if self.order.len() == 0 {
            return String::new();
        }
        let ghost ov = self@.order;
        let ghost items = ov.map_values(|p: (Seq<char>, OrderV)| order_item(p));
        let mut parts: Vec<String> = Vec::new();
        let mut i: usize = 0;
        while i < self.order.len()
            invariant
                i <= self.order@.len(),
                ov == order_view(self.order@),
                items == ov.map_values(|p: (Seq<char>, OrderV)| order_item(p)),
                views(parts@) == items.take(i as int),
            decreases self.order.len() - i,
        {
            let item = match &self.order[i].1 {
                OrderDir::Raw(e) => e.clone(),
                dir => {
                    let mut s = self.order[i].0.clone();
                    push_char(&mut s, ' ');
                    let kw = dir.keyword();
                    append(&mut s, kw.as_str());
                    s
                },
            };
            assert(ov[i as int] == (self.order@[i as int].0@, self.order@[i as int].1@));
            assert(item@ == items[i as int]);
            let ghost prev = parts@;
            parts.push(item);
            proof { lemma_views_push(prev, item); }
            assert(views(parts@) =~= items.take(i + 1));
            i = i + 1;
        }
        assert(items.take(self.order@.len() as int) =~= items);
        let mut out = String::new();
        append(&mut out, " ORDER BY ");
        push_join(&mut out, &parts);
        out
    }

    /// The `WHERE` clause over the query's conditions and, when `soft`, the
    /// soft-delete filter.
    pub(crate) fn build_where_with_soft_delete(&self, d: Dialect, soft: bool, params: &mut Vec<SqlValue>) -> (r: String)
        requires
            old(params)@.len() + 1 + params_total(
                if soft { soft_conds(self@) } else { self@.conditions },
            ) <= usize::MAX,
        ensures
            r@ == where_clause(
                d,
                if soft { soft_conds(self@) } else { self@.conditions },
                old(params)@.len() as nat,
            ).0,
            vals(final(params)@) == vals(old(params)@) + where_clause(
                d,
                if soft { soft_conds(self@) } else { self@.conditions },
                old(params)@.len() as nat,
            ).1,
    {
        let extra: Option<Condition> = if soft {
            match &self.soft_delete_column {
                Some(col) => match self.soft_delete_mode {
                    SoftDeleteMode::Exclude => Some(Condition::IsNull(col.clone())),
                    SoftDeleteMode::Include => None,
                    SoftDeleteMode::Only => Some(Condition::IsNotNull(col.clone())),
                },
                None => None,
            }
        } else {
            None
        };
        assert(all_conds(conds_view(self.conditions@), extra) == (if soft {
            soft_conds(self@)
        } else {
            self@.conditions
        }));
        build_where_from_dialect(d, self.conditions.as_slice(), extra, params)
    }
}

/// `col = $i` / `col = ?` clauses of column/value pairs, and their values.
pub(crate) fn set_clauses(d: Dialect, cols: &Vec<(String, SqlValue)>, params: &mut Vec<SqlValue>) -> (r: Vec<String>)
    ensures
        views(r@) == set_list(d, pairs_view(cols@)),
        vals(final(params)@) == vals(old(params)@) + pair_vals(pairs_view(cols@)),
{
    let ghost target = set_list(d, pairs_view(cols@));
    let ghost p0 = vals(params@);
    let ghost pv = pair_vals(pairs_view(cols@));
    let mut out: Vec<String> = Vec::new();
    let mut i: usize = 0;
    while i < cols.len()
        invariant
            i <= cols@.len(),
            target == set_list(d, pairs_view(cols@)),
            pv == pair_vals(pairs_view(cols@)),
            views(out@) == target.take(i as int),
            vals(params@) == p0 + pv.take(i as int),
        decreases cols.len() - i,
    {
        let mut s = cols[i].0.clone();
        match d {
            Dialect::Postgres => {
                append(&mut s, " = ");
                let p = ph_str(i + 1);
                append(&mut s, p.as_str());
            },
            Dialect::Sqlite | Dialect::Mysql => {
                append(&mut s, " = ?");
            },
        }
        let ghost prev = out@;
        out.push(s);
        proof { lemma_views_push(prev, s); }
        assert(views(out@) =~= target.take(i + 1));
        let ghost before = params@;
        let v = cols[i].1.duplicate();
        params.push(v);
        proof { lemma_vals_push(before, v); }
        assert(vals(params@) =~= p0 + pv.take(i + 1));
        i = i + 1;
    }
    assert(target.take(cols@.len() as int) =~= target);
    assert(pv.take(cols@.len() as int) =~= pv);
    out
}

/// Owned column/value pairs from borrowed ones.
pub fn owned_pairs(data: &[(&str, SqlValue)]) -> (r: Vec<(String, SqlValue)>)
    ensures
        pairs_view(r@) == data_view(data@),
{
    let mut out: Vec<(String, SqlValue)> = Vec::new();
    let mut i: usize = 0;
    while i < data.len()
        invariant
            i <= data@.len(),
            pairs_view(out@) == data_view(data@.take(i as int)),
        decreases data.len() - i,
    {
        let c = owned(data[i].0);
        let v = data[i].1.duplicate();
        let ghost prev = out@;
        out.push((c, v));
        assert(out@ == prev.push((c, v)));
        assert(data@.take(i + 1) == data@.take(i as int).push(data@[i as int]));
        assert(pairs_view(out@) =~= pairs_view(prev).push((data@[i as int].0@, data@[i as int].1@)));
        assert(data_view(data@.take(i + 1)) =~= data_view(data@.take(i as int)).push(
            (data@[i as int].0@, data@[i as int].1@),
        ));
        i = i + 1;
    }
    assert(data@.take(data@.len() as int) =~= data@);
    out
}

impl<T> QueryBuilder<T> {
    #[verifier::rlimit(40)]
    fn select_body(&self, d: Dialect, strip: bool) -> (r: (String, Vec<SqlValue>))
        requires
            params_fit(self@),
        ensures
            r.0@ == select_body_spec(self@, d, strip),
            vals(r.1@) == select_plain(self@, d, strip).1,
    {
        let mut params: Vec<SqlValue> = Vec::new();
        let mut k: usize = 0;
        while k < self.cte_params.len()
            invariant
                k <= self.cte_params@.len(),
                vals(params@) == vals(self.cte_params@.take(k as int)),
            decreases self.cte_params.len() - k,
        {
            let ghost before = params@;
            let v = self.cte_params[k].duplicate();
            params.push(v);
            proof { lemma_vals_push(before, v); }
            assert(vals(params@) =~= vals(self.cte_params@.take(k + 1)));
            k = k + 1;
        }
        assert(self.cte_params@.take(self.cte_params@.len() as int) =~= self.cte_params@);
        let mut sql = String::new();
        append(&mut sql, "SELECT ");
        if self.distinct {
            append(&mut sql, "DISTINCT ");
        }
        match &self.select_cols {
            Some(c) => push_join(&mut sql, c),
            None => push_char(&mut sql, '*'),
        }
        append(&mut sql, " FROM ");
        match &self.from_override {
            Some(f) => append(&mut sql, f.as_str()),
            None => append(&mut sql, self.table.as_str()),
        }
        let joins = self.build_joins();
        append(&mut sql, joins.as_str());
        let w = self.build_where_with_soft_delete(d, true, &mut params);
        append(&mut sql, w.as_str());
        let g = self.build_group_by();
        append(&mut sql, g.as_str());
        let o = self.build_order();
        append(&mut sql, o.as_str());
        if !strip {
            match self.limit_val {
                Some(n) => {
                    append(&mut sql, " LIMIT ");
                    let t = usize_dec(n);
                    append(&mut sql, t.as_str());
                },
                None => {},
            }
            match self.offset_val {
                Some(n) => {
                    append(&mut sql, " OFFSET ");
                    let t = usize_dec(n);
                    append(&mut sql, t.as_str());
                },
                None => {},
            }
        }
        assert(sql@ =~= select_body_spec(self@, d, strip));
        assert(vals(params@) =~= select_plain(self@, d, strip).1);
        (sql, params)
    }
    /// `WITH name AS (inner), … ` when the query has common table expressions.
    fn cte_prefix(&self) -> (r: String)
        ensures
            r@ == (if self@.ctes.len() == 0 {
                seq![]
            } else {
                "WITH "@ + seq_join(self@.ctes.map_values(|p: (Seq<char>, Seq<char>)| cte_clause(p)), ", "@)
                    + seq![' ']
            }),
    {
        if self.ctes.len() == 0 {
            return String::new();
        }
        let ghost q = self@;
        let ghost cv = q.ctes.map_values(|p: (Seq<char>, Seq<char>)| cte_clause(p));
        let mut clauses: Vec<String> = Vec::new();
        let mut i: usize = 0;
        while i < self.ctes.len()
            invariant
                i <= self.ctes@.len(),
                q == self@,
                cv == q.ctes.map_values(|p: (Seq<char>, Seq<char>)| cte_clause(p)),
                views(clauses@) == cv.take(i as int),
            decreases self.ctes.len() - i,
        {
            let mut c = self.ctes[i].0.clone();
            append(&mut c, " AS (");
            append(&mut c, self.ctes[i].1.as_str());
            push_char(&mut c, ')');
            assert(q.ctes[i as int] == (self.ctes@[i as int].0@, self.ctes@[i as int].1@));
            assert(c@ == cte_clause(q.ctes[i as int]));
            assert(cv[i as int] == cte_clause(q.ctes[i as int]));
            let ghost prev = clauses@;
            clauses.push(c);
            proof { lemma_views_push(prev, c); }
            assert(views(clauses@) =~= cv.take(i + 1));
            i = i + 1;
        }
        assert(cv.take(self.ctes@.len() as int) =~= cv);
        let mut out = String::new();
        append(&mut out, "WITH ");
        push_join(&mut out, &clauses);
        push_char(&mut out, ' ');
        out
    }

    fn select_plain(&self, d: Dialect, strip: bool) -> (r: (String, Vec<SqlValue>))
        requires
            params_fit(self@),
        ensures
            r.0@ == select_plain(self@, d, strip).0,
            vals(r.1@) == select_plain(self@, d, strip).1,
    {
        let (body, params) = self.select_body(d, strip);
        let mut out = self.cte_prefix();
        append(&mut out, body.as_str());
        if self.ctes.len() == 0 {
            assert(out@ =~= body@);
        }
        (out, params)
    }

    /// Build a parameterized `SELECT` statement for the given [`Dialect`].
    pub fn to_sql_with_dialect(&self, dialect: Dialect) -> (r: (String, Vec<SqlValue>))
        requires
            params_fit(self@),
        ensures
            r.0@ == select_spec(self@, dialect).0,
            vals(r.1@) == select_spec(self@, dialect).1,
    {
        match &self.having_rank_n {
            Some(p) => {
                let (inner, params) = self.select_plain(dialect, true);
                let mut out = String::new();
                append(&mut out, "SELECT * FROM (");
                append(&mut out, inner.as_str());
                append(&mut out, ") AS __ranked WHERE ");
                append(&mut out, p.0.as_str());
                append(&mut out, " = ");
                let n = i64_dec(p.1);
                append(&mut out, n.as_str());
                (out, params)
            },
            None => self.select_plain(dialect, false),
        }
    }

    /// Build a parameterized `SELECT` statement (PostgreSQL `$N` placeholders).
    pub fn to_sql(&self) -> (r: (String, Vec<SqlValue>))
        requires
            params_fit(self@),
        ensures
            r.0@ == select_spec(self@, Dialect::Postgres).0,
            vals(r.1@) == select_spec(self@, Dialect::Postgres).1,
    {
        self.to_sql_with_dialect(Dialect::Postgres)
    }

    /// Build a `SELECT COUNT(*) FROM …` statement for the given dialect.
    pub fn to_count_sql_with_dialect(&self, dialect: Dialect) -> (r: (String, Vec<SqlValue>))
        requires
            1 + params_total(soft_conds(self@)) <= usize::MAX,
        ensures
            r.0@ == "SELECT COUNT(*) FROM "@ + self@.table + joins_spec(self@.joins) + where_clause(
                dialect,
                soft_conds(self@),
                0,
            ).0,
            vals(r.1@) == where_clause(dialect, soft_conds(self@), 0).1,
    {
        let mut params: Vec<SqlValue> = Vec::new();
        let joins = self.build_joins();
        let w = self.build_where_with_soft_delete(dialect, true, &mut params);
        let mut sql = String::new();
        append(&mut sql, "SELECT COUNT(*) FROM ");
        append(&mut sql, self.table.as_str());
        append(&mut sql, joins.as_str());
        append(&mut sql, w.as_str());
        assert(vals(params@) =~= where_clause(dialect, soft_conds(self@), 0).1);
        (sql, params)
    }

    /// Build a `SELECT COUNT(*) FROM …` statement (PostgreSQL dialect).
    pub fn to_count_sql(&self) -> (r: (String, Vec<SqlValue>))
        requires
            1 + params_total(soft_conds(self@)) <= usize::MAX,
        ensures
            r.0@ == "SELECT COUNT(*) FROM "@ + self@.table + joins_spec(self@.joins) + where_clause(
                Dialect::Postgres,
                soft_conds(self@),
                0,
            ).0,
            vals(r.1@) == where_clause(Dialect::Postgres, soft_conds(self@), 0).1,
    {
        self.to_count_sql_with_dialect(Dialect::Postgres)
    }

    /// The same statement as [`to_count_sql`](Self::to_count_sql).
    pub fn count_sql(&self) -> (r: (String, Vec<SqlValue>))
        requires
            1 + params_total(soft_conds(self@)) <= usize::MAX,
        ensures
            r.0@ == "SELECT COUNT(*) FROM "@ + self@.table + joins_spec(self@.joins) + where_clause(
                Dialect::Postgres,
                soft_conds(self@),
                0,
            ).0,
            vals(r.1@) == where_clause(Dialect::Postgres, soft_conds(self@), 0).1,
    {
        self.to_count_sql()
    }

    /// Build a `DELETE FROM … WHERE …` statement for the given dialect; the
    /// soft-delete filter does not apply.
    pub fn to_delete_sql_with_dialect(&self, dialect: Dialect) -> (r: (String, Vec<SqlValue>))
        requires
            1 + params_total(self@.conditions) <= usize::MAX,
        ensures
            r.0@ == "DELETE FROM "@ + self@.table + where_clause(dialect, self@.conditions, 0).0,
            vals(r.1@) == where_clause(dialect, self@.conditions, 0).1,
    {
        let mut params: Vec<SqlValue> = Vec::new();
        let w = self.build_where_with_soft_delete(dialect, false, &mut params);
        let mut sql = String::new();
        append(&mut sql, "DELETE FROM ");
        append(&mut sql, self.table.as_str());
        append(&mut sql, w.as_str());
        assert(vals(params@) =~= where_clause(dialect, self@.conditions, 0).1);
        (sql, params)
    }

    /// Build a `DELETE FROM … WHERE …` statement (PostgreSQL dialect).
    pub fn to_delete_sql(&self) -> (r: (String, Vec<SqlValue>))
        requires
            1 + params_total(self@.conditions) <= usize::MAX,
        ensures
            r.0@ == "DELETE FROM "@ + self@.table + where_clause(Dialect::Postgres, self@.conditions, 0).0,
            vals(r.1@) == where_clause(Dialect::Postgres, self@.conditions, 0).1,
    {
        self.to_delete_sql_with_dialect(Dialect::Postgres)
    }

    /// Permanently delete, bypassing soft delete, for the given dialect.
    pub fn to_force_delete_sql_with_dialect(&self, dialect: Dialect) -> (r: (String, Vec<SqlValue>))
        requires
            1 + params_total(self@.conditions) <= usize::MAX,
        ensures
            r.0@ == "DELETE FROM "@ + self@.table + where_clause(dialect, self@.conditions, 0).0,
            vals(r.1@) == where_clause(dialect, self@.conditions, 0).1,
    {
        self.to_delete_sql_with_dialect(dialect)
    }

    /// Permanently delete, bypassing soft delete (PostgreSQL dialect).
    pub fn to_force_delete_sql(&self) -> (r: (String, Vec<SqlValue>))
        requires
            1 + params_total(self@.conditions) <= usize::MAX,
        ensures
            r.0@ == "DELETE FROM "@ + self@.table + where_clause(Dialect::Postgres, self@.conditions, 0).0,
            vals(r.1@) == where_clause(Dialect::Postgres, self@.conditions, 0).1,
    {
        self.to_delete_sql_with_dialect(Dialect::Postgres)
    }

    fn update_from(&self, dialect: Dialect, cols: &Vec<(String, SqlValue)>) -> (r: (String, Vec<SqlValue>))
        requires
            cols@.len() + 1 + params_total(self@.conditions) <= usize::MAX,
        ensures
            r.0@ == update_spec(self@, dialect, pairs_view(cols@)).0,
            vals(r.1@) == update_spec(self@, dialect, pairs_view(cols@)).1,
    {
        let mut params: Vec<SqlValue> = Vec::new();
        let sets = set_clauses(dialect, cols, &mut params);
        assert(vals(params@) =~= pair_vals(pairs_view(cols@)));
        assert(params@.len() == cols@.len());
        let mut sql = String::new();
        append(&mut sql, "UPDATE ");
        append(&mut sql, self.table.as_str());
        append(&mut sql, " SET ");
        push_join(&mut sql, &sets);
        let w = self.build_where_with_soft_delete(dialect, false, &mut params);
        append(&mut sql, w.as_str());
        (sql, params)
    }

    /// Build an `UPDATE … SET … WHERE …` statement for the given dialect.
    pub fn to_update_sql_with_dialect(&self, dialect: Dialect, data: &[(&str, SqlValue)]) -> (r: (
        String,
        Vec<SqlValue>,
    ))
        requires
            data@.len() + 1 + params_total(self@.conditions) <= usize::MAX,
        ensures
            r.0@ == update_spec(self@, dialect, data_view(data@)).0,
            vals(r.1@) == update_spec(self@, dialect, data_view(data@)).1,
    {
        let cols = owned_pairs(data);
        self.update_from(dialect, &cols)
    }

    /// Build an `UPDATE … SET … WHERE …` statement (PostgreSQL dialect).
    pub fn to_update_sql(&self, data: &[(&str, SqlValue)]) -> (r: (String, Vec<SqlValue>))
        requires
            data@.len() + 1 + params_total(self@.conditions) <= usize::MAX,
        ensures
            r.0@ == update_spec(self@, Dialect::Postgres, data_view(data@)).0,
            vals(r.1@) == update_spec(self@, Dialect::Postgres, data_view(data@)).1,
    {
        self.to_update_sql_with_dialect(Dialect::Postgres, data)
    }

    /// `UPDATE … SET` the update columns `WHERE …`, for the given dialect.
    pub fn to_restore_sql_with_dialect(&self, dialect: Dialect) -> (r: (String, Vec<SqlValue>))
        requires
            self@.update_columns.len() + 1 + params_total(self@.conditions) <= usize::MAX,
        ensures
            r.0@ == update_spec(self@, dialect, self@.update_columns).0,
            vals(r.1@) == update_spec(self@, dialect, self@.update_columns).1,
    {
        self.update_from(dialect, &self.update_columns)
    }

    /// `UPDATE … SET` the update columns `WHERE …` (PostgreSQL dialect).
    pub fn to_restore_sql(&self) -> (r: (String, Vec<SqlValue>))
        requires
            self@.update_columns.len() + 1 + params_total(self@.conditions) <= usize::MAX,
        ensures
            r.0@ == update_spec(self@, Dialect::Postgres, self@.update_columns).0,
            vals(r.1@) == update_spec(self@, Dialect::Postgres, self@.update_columns).1,
    {
        self.update_from(Dialect::Postgres, &self.update_columns)
    }
}

// ── laws ────────────────────────────────────────────────────────────────────

/// Soft deletion: with a soft-delete column a query hides deleted rows
/// (`col IS NULL`, after its own conditions), `with_trashed` shows every row,
/// `only_trashed` only the deleted ones; without the column nothing is added.
pub proof fn lemma_soft_delete_modes(q: QueryV, col: Seq<char>)
    ensures
        soft_conds(QueryV { soft_delete_column: Some(col), soft_delete_mode: SoftDeleteMode::Exclude, ..q })
            == q.conditions.push((JoinOp::And, CondV::IsNull(col))),
        soft_conds(QueryV { soft_delete_column: Some(col), soft_delete_mode: SoftDeleteMode::Include, ..q })
            == q.conditions,
        soft_conds(QueryV { soft_delete_column: Some(col), soft_delete_mode: SoftDeleteMode::Only, ..q })
            == q.conditions.push((JoinOp::And, CondV::IsNotNull(col))),
        soft_conds(QueryV { soft_delete_column: None, ..q }) == q.conditions,
{
}

/// A fresh query on a soft-deleting table filters on `col IS NULL` and on
/// nothing else, in every dialect.
pub proof fn lemma_fresh_soft_delete_filter(table: Seq<char>, col: Seq<char>, d: Dialect)
    ensures
        where_clause(d, soft_conds(QueryV { soft_delete_column: Some(col), ..new_query(table) }), 0)
            == (" WHERE "@ + col + " IS NULL"@, Seq::<SqlVal>::empty()),
{
    let conds = soft_conds(QueryV { soft_delete_column: Some(col), ..new_query(table) });
    assert(conds =~= seq![(JoinOp::And, CondV::IsNull(col))]);
    assert(conds.drop_last() =~= Seq::<(JoinOp, CondV)>::empty());
    let e = Seq::<(JoinOp, CondV)>::empty();
    assert(where_clause(d, e, 0) == (Seq::<char>::empty(), Seq::<SqlVal>::empty()));
    assert(where_clause(d, conds.drop_last(), 0) == where_clause(d, e, 0));
    assert(conds.last() == (JoinOp::And, CondV::IsNull(col)));
    assert(frag_spec(d, CondV::IsNull(col), 1) == col + " IS NULL"@);
    let w = where_clause(d, conds, 0);
    assert(w.0 =~= " WHERE "@ + col + " IS NULL"@);
    assert(w.1 =~= Seq::<SqlVal>::empty());
}

/// With trashed rows included, a query selects what the same query without a
/// soft-delete column selects.
pub proof fn lemma_with_trashed_unfiltered(q: QueryV, col: Seq<char>, d: Dialect)
    ensures
        select_spec(QueryV { soft_delete_column: Some(col), soft_delete_mode: SoftDeleteMode::Include, ..q }, d)
            == select_spec(QueryV { soft_delete_column: None, ..q }, d),
{
    let a = QueryV { soft_delete_column: Some(col), soft_delete_mode: SoftDeleteMode::Include, ..q };
    let b = QueryV { soft_delete_column: None, ..q };
    assert(soft_conds(a) == soft_conds(b));
    assert(select_body_spec(a, d, true) == select_body_spec(b, d, true));
    assert(select_body_spec(a, d, false) == select_body_spec(b, d, false));
}

/// Deleting ignores soft deletion: the statement is the same in every mode.
pub proof fn lemma_delete_ignores_soft_delete(q: QueryV, m: SoftDeleteMode, col: Option<Seq<char>>, d: Dialect)
    ensures
        where_clause(d, (QueryV { soft_delete_column: col, soft_delete_mode: m, ..q }).conditions, 0) == where_clause(
            d,
            q.conditions,
            0,
        ),
{
}

/// A `SELECT` binds the parameters of its `FROM` subquery, then one per
/// placeholder of its conditions.
pub proof fn lemma_select_params_count(q: QueryV, d: Dialect)
    ensures
        select_spec(q, d).1.len() == q.cte_params.len() + params_total(soft_conds(q)),
{
    lemma_where_params_len(d, soft_conds(q), q.cte_params.len());
}

} // verus!
