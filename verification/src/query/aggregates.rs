//! Aggregate-SQL shortcuts for [`QueryBuilder`]: sum, avg, min, max, exists, pluck.

use vstd::prelude::*;
use crate::text::{append, owned, push_char, usize_dec};
use super::builder::{QueryBuilder, QueryV};
use super::sql_gen::{group_spec, joins_spec, limit_spec, order_spec, params_total, soft_conds, where_clause};
use super::value::{Dialect, SqlVal, SqlValue, vals};

verus! {

/// `SELECT func(column) FROM …` with the query's joins, filters, grouping and
/// ordering, and its parameters.
pub open spec fn aggregate_spec(q: QueryV, d: Dialect, func: Seq<char>, column: Seq<char>) -> (Seq<char>, Seq<SqlVal>) {
    let w = where_clause(d, soft_conds(q), 0);
    (
        "SELECT "@ + func + seq!['('] + column + ") FROM "@ + q.table + joins_spec(q.joins) + w.0
            + group_spec(q) + order_spec(q),
        w.1,
    )
}

/// `SELECT EXISTS(SELECT 1 FROM …)` and its parameters.
pub open spec fn exists_spec(q: QueryV, d: Dialect) -> (Seq<char>, Seq<SqlVal>) {
    let w = where_clause(d, soft_conds(q), 0);
    ("SELECT EXISTS(SELECT 1 FROM "@ + q.table + joins_spec(q.joins) + w.0 + seq![')'], w.1)
}

/// `SELECT column FROM …` with ordering and limit, and its parameters.
pub open spec fn pluck_spec(q: QueryV, d: Dialect, column: Seq<char>) -> (Seq<char>, Seq<SqlVal>) {
    let w = where_clause(d, soft_conds(q), 0);
    (
        "SELECT "@ + column + " FROM "@ + q.table + joins_spec(q.joins) + w.0 + order_spec(q)
            + limit_spec(q.limit_val),
        w.1,
    )
}

impl<T> QueryBuilder<T> {
    /// `SELECT func(column) FROM …` (PostgreSQL placeholders).
    pub fn aggregate_sql(&self, func: &str, column: &str) -> (r: (String, Vec<SqlValue>))
        requires
            1 + params_total(soft_conds(self@)) <= usize::MAX,
        ensures
            r.0@ == aggregate_spec(self@, Dialect::Postgres, func@, column@).0,
            vals(r.1@) == aggregate_spec(self@, Dialect::Postgres, func@, column@).1,
    {
        self.aggregate_sql_with_dialect(Dialect::Postgres, func, column)
    }

    /// `SELECT func(column) FROM …` for the given dialect.
    pub fn aggregate_sql_with_dialect(&self, dialect: Dialect, func: &str, column: &str) -> (r: (
        String,
        Vec<SqlValue>,
    ))
        requires
            1 + params_total(soft_conds(self@)) <= usize::MAX,
        ensures
            r.0@ == aggregate_spec(self@, dialect, func@, column@).0,
            vals(r.1@) == aggregate_spec(self@, dialect, func@, column@).1,
    {
        let mut params: Vec<SqlValue> = Vec::new();
        let joins = self.build_joins();
        let w = self.build_where_with_soft_delete(dialect, true, &mut params);
        let g = self.build_group_by();
        let o = self.build_order();
        let mut sql = owned("SELECT ");
        append(&mut sql, func);
        push_char(&mut sql, '(');
        append(&mut sql, column);
        append(&mut sql, ") FROM ");
        append(&mut sql, self.table.as_str());
        append(&mut sql, joins.as_str());
        append(&mut sql, w.as_str());
        append(&mut sql, g.as_str());
        append(&mut sql, o.as_str());
        assert(vals(params@) =~= aggregate_spec(self@, dialect, func@, column@).1);
        (sql, params)
    }

    /// `SELECT SUM(column) FROM …`.
    pub fn sum_sql(&self, column: &str) -> (r: (String, Vec<SqlValue>))
        requires
            1 + params_total(soft_conds(self@)) <= usize::MAX,
        ensures
            r.0@ == aggregate_spec(self@, Dialect::Postgres, "SUM"@, column@).0,
            vals(r.1@) == aggregate_spec(self@, Dialect::Postgres, "SUM"@, column@).1,
    {
        self.aggregate_sql("SUM", column)
    }

    /// `SELECT AVG(column) FROM …`.
    pub fn avg_sql(&self, column: &str) -> (r: (String, Vec<SqlValue>))
        requires
            1 + params_total(soft_conds(self@)) <= usize::MAX,
        ensures
            r.0@ == aggregate_spec(self@, Dialect::Postgres, "AVG"@, column@).0,
            vals(r.1@) == aggregate_spec(self@, Dialect::Postgres, "AVG"@, column@).1,
    {
        self.aggregate_sql("AVG", column)
    }

    /// `SELECT MIN(column) FROM …`.
    pub fn min_sql(&self, column: &str) -> (r: (String, Vec<SqlValue>))
        requires
            1 + params_total(soft_conds(self@)) <= usize::MAX,
        ensures
            r.0@ == aggregate_spec(self@, Dialect::Postgres, "MIN"@, column@).0,
            vals(r.1@) == aggregate_spec(self@, Dialect::Postgres, "MIN"@, column@).1,
    {
        self.aggregate_sql("MIN", column)
    }

    /// `SELECT MAX(column) FROM …`.
    pub fn max_sql(&self, column: &str) -> (r: (String, Vec<SqlValue>))
        requires
            1 + params_total(soft_conds(self@)) <= usize::MAX,
        ensures
            r.0@ == aggregate_spec(self@, Dialect::Postgres, "MAX"@, column@).0,
            vals(r.1@) == aggregate_spec(self@, Dialect::Postgres, "MAX"@, column@).1,
    {
        self.aggregate_sql("MAX", column)
    }

    /// `SELECT EXISTS(SELECT 1 FROM …)` (PostgreSQL placeholders).
    pub fn exists_sql(&self) -> (r: (String, Vec<SqlValue>))
        requires
            1 + params_total(soft_conds(self@)) <= usize::MAX,
        ensures
            r.0@ == exists_spec(self@, Dialect::Postgres).0,
            vals(r.1@) == exists_spec(self@, Dialect::Postgres).1,
    {
        self.exists_sql_with_dialect(Dialect::Postgres)
    }

    /// `SELECT EXISTS(SELECT 1 FROM …)` for the given dialect.
    pub fn exists_sql_with_dialect(&self, dialect: Dialect) -> (r: (String, Vec<SqlValue>))
        requires
            1 + params_total(soft_conds(self@)) <= usize::MAX,
        ensures
            r.0@ == exists_spec(self@, dialect).0,
            vals(r.1@) == exists_spec(self@, dialect).1,
    {
        let mut params: Vec<SqlValue> = Vec::new();
        let w = self.build_where_with_soft_delete(dialect, true, &mut params);
        let joins = self.build_joins();
        let mut sql = owned("SELECT EXISTS(SELECT 1 FROM ");
        append(&mut sql, self.table.as_str());
        append(&mut sql, joins.as_str());
        append(&mut sql, w.as_str());
        push_char(&mut sql, ')');
        assert(vals(params@) =~= exists_spec(self@, dialect).1);
        (sql, params)
    }

    /// `SELECT column FROM …` (PostgreSQL placeholders).
    pub fn pluck_sql(&self, column: &str) -> (r: (String, Vec<SqlValue>))
        requires
            1 + params_total(soft_conds(self@)) <= usize::MAX,
        ensures
            r.0@ == pluck_spec(self@, Dialect::Postgres, column@).0,
            vals(r.1@) == pluck_spec(self@, Dialect::Postgres, column@).1,
    {
        self.pluck_sql_with_dialect(Dialect::Postgres, column)
    }

    /// `SELECT column FROM …` for the given dialect.
    pub fn pluck_sql_with_dialect(&self, dialect: Dialect, column: &str) -> (r: (String, Vec<SqlValue>))
        requires
            1 + params_total(soft_conds(self@)) <= usize::MAX,
        ensures
            r.0@ == pluck_spec(self@, dialect, column@).0,
            vals(r.1@) == pluck_spec(self@, dialect, column@).1,
    {
        let mut params: Vec<SqlValue> = Vec::new();
        let w = self.build_where_with_soft_delete(dialect, true, &mut params);
        let joins = self.build_joins();
        let o = self.build_order();
        let mut sql = owned("SELECT ");
        append(&mut sql, column);
        append(&mut sql, " FROM ");
        append(&mut sql, self.table.as_str());
        append(&mut sql, joins.as_str());
        append(&mut sql, w.as_str());
        append(&mut sql, o.as_str());
        match self.limit_val {
            Some(n) => {
                append(&mut sql, " LIMIT ");
                let t = usize_dec(n);
                append(&mut sql, t.as_str());
            },
            None => {},
        }
        assert(vals(params@) =~= pluck_spec(self@, dialect, column@).1);
        (sql, params)
    }
}

} // verus!
