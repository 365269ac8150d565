//! Sub-queries, CTEs, and `FROM` overrides for [`QueryBuilder`].
//!
//! A [`SubQueryBuilder`] is built inside a closure and rendered in the outer
//! query's dialect. For PostgreSQL its `$1`, `$2`, … placeholders are
//! renumbered when the outer query is rendered (it is kept as a raw fragment
//! with parameters); CTEs keep their SQL only, without parameters.

use vstd::prelude::*;
use crate::text::{append, owned, push_char};
use super::builder::{QueryBuilder, QueryV, new_query, strs, with_cond};
use super::condition::{CondV, Condition};
use super::ergonomics::add_select;
use super::sql_gen::{params_fit, select_spec};
use super::value::{Dialect, IntoSqlValue, JoinOp, SqlVal, SqlValue, lemma_vals_add, vals};

verus! {

/// A lightweight query builder for use inside subquery / CTE closures.
pub struct SubQueryBuilder {
    pub(crate) inner: QueryBuilder<()>,
}

impl View for SubQueryBuilder {
    type V = QueryV;

    open(crate) spec fn view(&self) -> QueryV {
        self.inner@
    }
}

/// The builder a subquery closure starts from: no table yet, the outer dialect.
pub open spec fn fresh_sub(d: Dialect) -> QueryV {
    QueryV { dialect: d, ..new_query(seq![]) }
}

/// What a subquery renders to, in its own dialect.
pub open spec fn inner_sql(q: QueryV) -> (Seq<char>, Seq<SqlVal>) {
    select_spec(q, q.dialect)
}

impl SubQueryBuilder {
    pub(crate) fn new(dialect: Dialect) -> (r: Self)
        ensures
            r@ == fresh_sub(dialect),
    {
        let mut inner = QueryBuilder::new("");
        inner.table = String::new();
        inner.dialect = dialect;
        let r = SubQueryBuilder { inner };
        assert(r@ =~= fresh_sub(dialect));
        r
    }

    /// Set the `FROM` table.
    pub fn table(self, t: &str) -> (r: Self)
        ensures
            r@ == (QueryV { table: t@, ..self@ }),
    {
        let mut s = self;
        s.inner.table = owned(t);
        s
    }

    /// Select specific columns.
    pub fn select(self, cols: &[&str]) -> (r: Self)
        ensures
            r@ == (QueryV { select_cols: Some(strs(cols@)), ..self@ }),
    {
        SubQueryBuilder { inner: self.inner.select(cols) }
    }

    /// Replace the select list with a raw expression.
    pub fn select_raw(self, expr: &str) -> (r: Self)
        ensures
            r@ == (QueryV { select_cols: Some(seq![expr@]), ..self@ }),
    {
        SubQueryBuilder { inner: self.inner.select_raw(expr) }
    }

    /// Add an equality `WHERE` condition.
    pub fn filter<V: IntoSqlValue>(self, col: &str, val: V) -> (r: Self)
        ensures
            r@ == with_cond(self@, JoinOp::And, CondV::Eq(col@, val.sql_value_spec())),
    {
        SubQueryBuilder { inner: self.inner.filter(col, val) }
    }

    /// Add a raw `WHERE` fragment (no bound params).
    pub fn where_raw(self, sql: &str) -> (r: Self)
        ensures
            r@ == with_cond(self@, JoinOp::And, CondV::Raw(sql@)),
    {
        SubQueryBuilder { inner: self.inner.where_raw(sql) }
    }

    /// Set the `GROUP BY` columns.
    pub fn group_by(self, cols: &[&str]) -> (r: Self)
        ensures
            r@ == (QueryV { group_by: strs(cols@), ..self@ }),
    {
        SubQueryBuilder { inner: self.inner.group_by(cols) }
    }

    /// Set a raw `HAVING` expression.
    pub fn having_raw(self, expr: &str) -> (r: Self)
        ensures
            r@ == (QueryV { having: Some(expr@), ..self@ }),
    {
        SubQueryBuilder { inner: self.inner.having_raw(expr) }
    }

    /// Render the subquery in its dialect.
    pub fn to_inner_sql(self) -> (r: (String, Vec<SqlValue>))
        requires
            params_fit(self@),
        ensures
            r.0@ == inner_sql(self@).0,
            vals(r.1@) == inner_sql(self@).1,
    {
        let dialect = self.inner.dialect;
        self.inner.to_sql_with_dialect(dialect)
    }
}

/// Whether every builder `f` can return renders within machine limits, and `f`
/// accepts the fresh builder of dialect `d`.
pub open spec fn sub_ok<F: FnOnce(SubQueryBuilder) -> SubQueryBuilder>(f: F, d: Dialect) -> bool {
    &&& forall|s: SubQueryBuilder| s@ == fresh_sub(d) ==> call_requires(f, (s,))
    &&& forall|s: SubQueryBuilder, t: SubQueryBuilder| call_ensures(f, (s,), t) ==> params_fit(t@)
}

/// Runs a subquery closure on a fresh builder and renders the result.
fn run_sub<F: FnOnce(SubQueryBuilder) -> SubQueryBuilder>(d: Dialect, f: F) -> (r: (String, Vec<SqlValue>))
    requires
        sub_ok(f, d),
    ensures
        exists|s: SubQueryBuilder, t: SubQueryBuilder|
            s@ == fresh_sub(d) && call_ensures(f, (s,), t) && r.0@ == inner_sql(t@).0 && vals(r.1@)
                == inner_sql(t@).1,
{
    let s = SubQueryBuilder::new(d);
    let t = f(s);
    t.to_inner_sql()
}

impl<T> QueryBuilder<T> {
    /// Add `col IN (subquery)`.
    pub fn where_in_subquery<F: FnOnce(SubQueryBuilder) -> SubQueryBuilder>(self, col: &str, f: F) -> (r: Self)
        requires
            sub_ok(f, self@.dialect),
        ensures
            exists|s: SubQueryBuilder, t: SubQueryBuilder|
                s@ == fresh_sub(self@.dialect) && call_ensures(f, (s,), t) && r@ == with_cond(
                    self@,
                    JoinOp::And,
                    CondV::RawExpr(col@ + " IN ("@ + inner_sql(t@).0 + seq![')'], inner_sql(t@).1),
                ),
    {
        let (inner, params) = run_sub(self.dialect, f);
        let mut sql = owned(col);
        append(&mut sql, " IN (");
        append(&mut sql, inner.as_str());
        push_char(&mut sql, ')');
        let ghost (ws, wt) = choose|s: SubQueryBuilder, t: SubQueryBuilder|
            s@ == fresh_sub(self@.dialect) && call_ensures(f, (s,), t) && inner@ == inner_sql(t@).0 && vals(params@)
                == inner_sql(t@).1;
        assert(sql@ =~= col@ + " IN ("@ + inner_sql(wt@).0 + seq![')']);
        let r = self.push(JoinOp::And, Condition::RawExpr(sql, params));
        assert(ws@ == fresh_sub(self@.dialect) && call_ensures(f, (ws,), wt));
        r
    }

    /// Add `EXISTS (subquery)`.
    pub fn where_exists<F: FnOnce(SubQueryBuilder) -> SubQueryBuilder>(self, f: F) -> (r: Self)
        requires
            sub_ok(f, self@.dialect),
        ensures
            exists|s: SubQueryBuilder, t: SubQueryBuilder|
                s@ == fresh_sub(self@.dialect) && call_ensures(f, (s,), t) && r@ == with_cond(
                    self@,
                    JoinOp::And,
                    CondV::RawExpr("EXISTS ("@ + inner_sql(t@).0 + seq![')'], inner_sql(t@).1),
                ),
    {
        let (inner, params) = run_sub(self.dialect, f);
        let mut sql = owned("EXISTS (");
        append(&mut sql, inner.as_str());
        push_char(&mut sql, ')');
        let ghost (ws, wt) = choose|s: SubQueryBuilder, t: SubQueryBuilder|
            s@ == fresh_sub(self@.dialect) && call_ensures(f, (s,), t) && inner@ == inner_sql(t@).0 && vals(params@)
                == inner_sql(t@).1;
        assert(sql@ =~= "EXISTS ("@ + inner_sql(wt@).0 + seq![')']);
        let r = self.push(JoinOp::And, Condition::RawExpr(sql, params));
        assert(ws@ == fresh_sub(self@.dialect) && call_ensures(f, (ws,), wt));
        r
    }

    /// Add `NOT EXISTS (subquery)`.
    pub fn where_not_exists<F: FnOnce(SubQueryBuilder) -> SubQueryBuilder>(self, f: F) -> (r: Self)
        requires
            sub_ok(f, self@.dialect),
        ensures
            exists|s: SubQueryBuilder, t: SubQueryBuilder|
                s@ == fresh_sub(self@.dialect) && call_ensures(f, (s,), t) && r@ == with_cond(
                    self@,
                    JoinOp::And,
                    CondV::RawExpr("NOT EXISTS ("@ + inner_sql(t@).0 + seq![')'], inner_sql(t@).1),
                ),
    {
        let (inner, params) = run_sub(self.dialect, f);
        let mut sql = owned("NOT EXISTS (");
        append(&mut sql, inner.as_str());
        push_char(&mut sql, ')');
        let ghost (ws, wt) = choose|s: SubQueryBuilder, t: SubQueryBuilder|
            s@ == fresh_sub(self@.dialect) && call_ensures(f, (s,), t) && inner@ == inner_sql(t@).0 && vals(params@)
                == inner_sql(t@).1;
        assert(sql@ =~= "NOT EXISTS ("@ + inner_sql(wt@).0 + seq![')']);
        let r = self.push(JoinOp::And, Condition::RawExpr(sql, params));
        assert(ws@ == fresh_sub(self@.dialect) && call_ensures(f, (ws,), wt));
        r
    }

    /// Prepend `WITH name AS (subquery)`; the subquery's parameters are dropped.
    pub fn with_cte<F: FnOnce(SubQueryBuilder) -> SubQueryBuilder>(self, name: &str, f: F) -> (r: Self)
        requires
            sub_ok(f, self@.dialect),
        ensures
            exists|s: SubQueryBuilder, t: SubQueryBuilder|
                s@ == fresh_sub(self@.dialect) && call_ensures(f, (s,), t) && r@ == (QueryV {
                    ctes: self@.ctes.push((name@, inner_sql(t@).0)),
                    ..self@
                }),
    {
        let (inner, _params) = run_sub(self.dialect, f);
        let ghost (ws, wt) = choose|s: SubQueryBuilder, t: SubQueryBuilder|
            s@ == fresh_sub(self@.dialect) && call_ensures(f, (s,), t) && inner@ == inner_sql(t@).0;
        let mut s = self;
        let ghost prev = s.ctes@;
        let n = owned(name);
        s.ctes.push((n, inner));
        assert(s.ctes@.map_values(|p: (String, String)| (p.0@, p.1@)) =~= prev.map_values(
            |p: (String, String)| (p.0@, p.1@),
        ).push((name@, inner@)));
        assert(ws@ == fresh_sub(self@.dialect) && call_ensures(f, (ws,), wt));
        s
    }

    /// Read from the named CTE in place of the table.
    pub fn from_cte(self, name: &str) -> (r: Self)
        ensures
            r@ == (QueryV { from_override: Some(name@), ..self@ }),
    {
        let mut s = self;
        s.from_override = Some(owned(name));
        s
    }

    /// Read from `(subquery) AS alias`; the subquery's parameters come before
    /// the outer ones, so outer placeholders are numbered after them.
    pub fn from_subquery<F: FnOnce(SubQueryBuilder) -> SubQueryBuilder>(self, alias: &str, f: F) -> (r: Self)
        requires
            sub_ok(f, self@.dialect),
        ensures
            exists|s: SubQueryBuilder, t: SubQueryBuilder|
                s@ == fresh_sub(self@.dialect) && call_ensures(f, (s,), t) && r@ == (QueryV {
                    from_override: Some(seq!['('] + inner_sql(t@).0 + ") AS "@ + alias@),
                    cte_params: self@.cte_params + inner_sql(t@).1,
                    ..self@
                }),
    {
        let (inner, params) = run_sub(self.dialect, f);
        let ghost (ws, wt) = choose|s: SubQueryBuilder, t: SubQueryBuilder|
            s@ == fresh_sub(self@.dialect) && call_ensures(f, (s,), t) && inner@ == inner_sql(t@).0 && vals(params@)
                == inner_sql(t@).1;
        let mut from = String::new();
        push_char(&mut from, '(');
        append(&mut from, inner.as_str());
        append(&mut from, ") AS ");
        append(&mut from, alias);
        let mut s = self;
        s.from_override = Some(from);
        let ghost before = s.cte_params@;
        let mut ps = params;
        let ghost added = ps@;
        s.cte_params.append(&mut ps);
        proof { lemma_vals_add(before, added); }
        assert(from@ =~= seq!['('] + inner_sql(wt@).0 + ") AS "@ + alias@);
        assert(ws@ == fresh_sub(self@.dialect) && call_ensures(f, (ws,), wt));
        s
    }
}

} // verus!
