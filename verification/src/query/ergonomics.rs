//! Conditional building, raw clauses, cursor pagination, window ranking,
//! aggregate subquery columns and relation-existence filters for [`QueryBuilder`].

use vstd::prelude::*;
use crate::model::Model;
use crate::text::{append, dot, dotted, i64_dec, int_dec, owned, push_char};
use super::builder::{QueryBuilder, QueryV, with_cond};
use super::condition::{CondV, Condition};
use super::value::{CountOp, IntoSqlValue, JoinOp, SqlVal, SqlValue, count_op_spec, word};

verus! {

/// `q` with `expr` appended to its select list (`*` first when it had none).
pub open spec fn add_select(q: QueryV, expr: Seq<char>) -> QueryV {
    QueryV {
        select_cols: Some(
            match q.select_cols {
                Some(c) => c.push(expr),
                None => seq![seq!['*'], expr],
            },
        ),
        ..q
    }
}

/// `(SELECT func(col) FROM child WHERE child.fk = table.pk) AS alias`.
pub open spec fn agg_sub(func: Seq<char>, col: Seq<char>, child: Seq<char>, fk: Seq<char>, table: Seq<char>, pk: Seq<char>, alias: Seq<char>) -> Seq<char> {
    "(SELECT "@ + func + seq!['('] + col + ") FROM "@ + child + " WHERE "@ + dot(child, fk) + " = "@
        + dot(table, pk) + ") AS "@ + alias
}

/// `SELECT 1 FROM child WHERE child.fk = table.pk`.
pub open spec fn has_sub(child: Seq<char>, fk: Seq<char>, table: Seq<char>, pk: Seq<char>) -> Seq<char> {
    "SELECT 1 FROM "@ + child + " WHERE "@ + dot(child, fk) + " = "@ + dot(table, pk)
}

/// A value written into a relation filter: text quoted as it is, numbers and
/// booleans as literals.
pub open spec fn inline_literal(v: SqlVal) -> Seq<char> {
    match v {
        SqlVal::Text(s) => seq!['\''] + s + seq!['\''],
        SqlVal::Integer(n) => int_dec(n as int),
        SqlVal::Float(t) => t,
        SqlVal::Bool(b) => if b { "TRUE"@ } else { "FALSE"@ },
        SqlVal::Null => "NULL"@,
    }
}

/// The `ROW_NUMBER()` select expression of [`QueryBuilder::window_rank_by`].
pub open spec fn rank_expr(partition: Seq<char>, order: Seq<char>, alias: Seq<char>) -> Seq<char> {
    "ROW_NUMBER() OVER (PARTITION BY "@ + partition + " ORDER BY "@ + order + ") AS "@ + alias
}

/// The text of [`inline_literal`].
fn inline_literal_exec(v: &SqlValue) -> (r: String)
    ensures
        r@ == inline_literal(v@),
{
    match v {
        SqlValue::Text(s) => {
            let mut out = String::new();
            push_char(&mut out, '\'');
            append(&mut out, s.as_str());
            push_char(&mut out, '\'');
            out
        },
        SqlValue::Integer(n) => i64_dec(*n),
        SqlValue::Float(t) => t.clone(),
        SqlValue::Bool(b) => {
            if *b {
                owned("TRUE")
            } else {
                owned("FALSE")
            }
        },
        SqlValue::Null => owned("NULL"),
    }
}

impl<T> QueryBuilder<T> {
    /// Apply `f` to `self` only when `condition` is `true`.
    pub fn when<F: FnOnce(Self) -> Self>(self, condition: bool, f: F) -> (r: Self)
        requires
            condition ==> call_requires(f, (self,)),
        ensures
            condition ==> call_ensures(f, (self,), r),
            !condition ==> r == self,
    {
        if condition {
            f(self)
        } else {
            self
        }
    }

    /// Apply `then_fn` when `condition` is `true`, otherwise apply `else_fn`.
    pub fn when_else<F: FnOnce(Self) -> Self, G: FnOnce(Self) -> Self>(self, condition: bool, then_fn: F, else_fn: G) -> (r: Self)
        requires
            condition ==> call_requires(then_fn, (self,)),
            !condition ==> call_requires(else_fn, (self,)),
        ensures
            condition ==> call_ensures(then_fn, (self,), r),
            !condition ==> call_ensures(else_fn, (self,), r),
    {
        if condition {
            then_fn(self)
        } else {
            else_fn(self)
        }
    }

    /// Inspect the builder without modifying it.
    pub fn tap<F: FnOnce(&Self)>(self, f: F) -> (r: Self)
        requires
            call_requires(f, (&self,)),
        ensures
            r == self,
            call_ensures(f, (&self,), ()),
    {
        f(&self);
        self
    }

    /// Replace the select list with one raw expression.
    pub fn select_raw(self, expr: &str) -> (r: Self)
        ensures
            r@ == (QueryV { select_cols: Some(seq![expr@]), ..self@ }),
    {
        let mut s = self;
        let mut cols: Vec<String> = Vec::new();
        cols.push(owned(expr));
        s.select_cols = Some(cols);
        assert(s@.select_cols == Some(seq![expr@])) by {
            assert(crate::text::views(cols@) =~= seq![expr@]);
        }
        s
    }

    /// Set a raw `HAVING` expression (the same as [`having`](Self::having)).
    pub fn having_raw(self, expr: &str) -> (r: Self)
        ensures
            r@ == (QueryV { having: Some(expr@), ..self@ }),
    {
        self.having(expr)
    }

    /// Cursor pagination: rows after `after_id` in `pk_col` when given, and one
    /// row more than `limit` so that callers can tell whether more exist.
    pub fn cursor_sql(self, pk_col: &str, after_id: Option<i64>, limit: usize) -> (r: Self)
        requires
            limit < usize::MAX,
        ensures
            r@ == (QueryV {
                limit_val: Some((limit + 1) as usize),
                ..(match after_id {
                    Some(id) => with_cond(self@, JoinOp::And, CondV::Gt(pk_col@, SqlVal::Integer(id))),
                    None => self@,
                })
            }),
    {
        let q = match after_id {
            Some(id) => self.where_gt(pk_col, id),
            None => self,
        };
        q.limit(limit + 1)
    }

    /// Append `expr` to the select list, after `*` when there was no list.
    pub(crate) fn add_select_expr(self, expr: &str) -> (r: Self)
        ensures
            r@ == add_select(self@, expr@),
    {
        let mut s = self;
        let e = owned(expr);
        match s.select_cols.take() {
            Some(c) => {
                let mut c = c;
                let ghost before = c@;
                c.push(e);
                proof { crate::text::lemma_views_push(before, e); }
                s.select_cols = Some(c);
            },
            None => {
                let mut star = String::new();
                push_char(&mut star, '*');
                let mut c: Vec<String> = Vec::new();
                c.push(star);
                c.push(e);
                assert(crate::text::views(c@) =~= seq![seq!['*'], expr@]);
                s.select_cols = Some(c);
            },
        }
        assert(s@ =~= add_select(self@, expr@));
        s
    }

    /// Add `ROW_NUMBER() OVER (PARTITION BY p ORDER BY o) AS alias` to the
    /// select list and remember the alias for [`having_rank`](Self::having_rank).
    pub fn window_rank_by(self, partition_col: &str, order_col: &str, alias: &str) -> (r: Self)
        ensures
            r@ == (QueryV {
                window_rank_alias: Some(alias@),
                ..add_select(self@, rank_expr(partition_col@, order_col@, alias@))
            }),
    {
        let mut expr = owned("ROW_NUMBER() OVER (PARTITION BY ");
        append(&mut expr, partition_col);
        append(&mut expr, " ORDER BY ");
        append(&mut expr, order_col);
        append(&mut expr, ") AS ");
        append(&mut expr, alias);
        let mut s = self.add_select_expr(expr.as_str());
        s.window_rank_alias = Some(owned(alias));
        s
    }

    /// Keep only the rows of rank `n`: the query is wrapped in an outer select
    /// filtered on the rank alias (`row_num` when none was set).
    pub fn having_rank(self, n: i64) -> (r: Self)
        ensures
            r@ == (QueryV {
                having_rank_n: Some(
                    (
                        match self@.window_rank_alias {
                            Some(a) => a,
                            None => "row_num"@,
                        },
                        n,
                    ),
                ),
                ..self@
            }),
    {
        let alias = match &self.window_rank_alias {
            Some(a) => a.clone(),
            None => owned("row_num"),
        };
        let mut s = self;
        s.having_rank_n = Some((alias, n));
        s
    }

    /// Append `(SELECT func(col) FROM child WHERE child.fk = table.pk) AS alias`.
    fn agg_col(self, func: &str, col: &str, child_table: &str, foreign_key: &str, self_pk: &str, alias: &str) -> (r: Self)
        ensures
            r@ == add_select(self@, agg_sub(func@, col@, child_table@, foreign_key@, self@.table, self_pk@, alias@)),
    {
        let mut sub = owned("(SELECT ");
        append(&mut sub, func);
        push_char(&mut sub, '(');
        append(&mut sub, col);
        append(&mut sub, ") FROM ");
        append(&mut sub, child_table);
        append(&mut sub, " WHERE ");
        let a = dotted(child_table, foreign_key);
        append(&mut sub, a.as_str());
        append(&mut sub, " = ");
        let b = dotted(self.table.as_str(), self_pk);
        append(&mut sub, b.as_str());
        append(&mut sub, ") AS ");
        append(&mut sub, alias);
        assert(sub@ =~= agg_sub(func@, col@, child_table@, foreign_key@, self@.table, self_pk@, alias@));
        self.add_select_expr(sub.as_str())
    }

    /// Add a column counting the related rows.
    pub fn with_count_col(self, child_table: &str, foreign_key: &str, self_pk: &str, alias: &str) -> (r: Self)
        ensures
            r@ == add_select(self@, agg_sub("COUNT"@, seq!['*'], child_table@, foreign_key@, self@.table, self_pk@, alias@)),
    {
        let mut star = String::new();
        push_char(&mut star, '*');
        assert(star@ =~= seq!['*']);
        self.agg_col("COUNT", star.as_str(), child_table, foreign_key, self_pk, alias)
    }

    /// Add a column summing `col` over the related rows.
    pub fn with_sum_col(self, child_table: &str, foreign_key: &str, self_pk: &str, col: &str, alias: &str) -> (r: Self)
        ensures
            r@ == add_select(self@, agg_sub("SUM"@, col@, child_table@, foreign_key@, self@.table, self_pk@, alias@)),
    {
        self.agg_col("SUM", col, child_table, foreign_key, self_pk, alias)
    }

    /// Add a column averaging `col` over the related rows.
    pub fn with_avg_col(self, child_table: &str, foreign_key: &str, self_pk: &str, col: &str, alias: &str) -> (r: Self)
        ensures
            r@ == add_select(self@, agg_sub("AVG"@, col@, child_table@, foreign_key@, self@.table, self_pk@, alias@)),
    {
        self.agg_col("AVG", col, child_table, foreign_key, self_pk, alias)
    }

    /// Add a column with the least `col` among the related rows.
    pub fn with_min_col(self, child_table: &str, foreign_key: &str, self_pk: &str, col: &str, alias: &str) -> (r: Self)
        ensures
            r@ == add_select(self@, agg_sub("MIN"@, col@, child_table@, foreign_key@, self@.table, self_pk@, alias@)),
    {
        self.agg_col("MIN", col, child_table, foreign_key, self_pk, alias)
    }

    /// Add a column with the greatest `col` among the related rows.
    pub fn with_max_col(self, child_table: &str, foreign_key: &str, self_pk: &str, col: &str, alias: &str) -> (r: Self)
        ensures
            r@ == add_select(self@, agg_sub("MAX"@, col@, child_table@, foreign_key@, self@.table, self_pk@, alias@)),
    {
        self.agg_col("MAX", col, child_table, foreign_key, self_pk, alias)
    }

    /// Add `EXISTS (subquery)`.
    pub fn where_has_raw(self, subquery: &str) -> (r: Self)
        ensures
            r@ == with_cond(self@, JoinOp::And, CondV::Raw("EXISTS ("@ + subquery@ + seq![')'])),
    {
        let mut s = owned("EXISTS (");
        append(&mut s, subquery);
        push_char(&mut s, ')');
        assert(s@ =~= "EXISTS ("@ + subquery@ + seq![')']);
        self.push(JoinOp::And, Condition::Raw(s))
    }

    /// Add `NOT EXISTS (subquery)`.
    pub fn where_doesnt_have_raw(self, subquery: &str) -> (r: Self)
        ensures
            r@ == with_cond(self@, JoinOp::And, CondV::Raw("NOT EXISTS ("@ + subquery@ + seq![')'])),
    {
        let mut s = owned("NOT EXISTS (");
        append(&mut s, subquery);
        push_char(&mut s, ')');
        assert(s@ =~= "NOT EXISTS ("@ + subquery@ + seq![')']);
        self.push(JoinOp::And, Condition::Raw(s))
    }

    /// `SELECT 1 FROM child WHERE child.fk = table.pk`.
    fn has_subquery(&self, child_table: &str, foreign_key: &str, self_pk: &str) -> (r: String)
        ensures
            r@ == has_sub(child_table@, foreign_key@, self@.table, self_pk@),
    {
        let mut sub = owned("SELECT 1 FROM ");
        append(&mut sub, child_table);
        append(&mut sub, " WHERE ");
        let a = dotted(child_table, foreign_key);
        append(&mut sub, a.as_str());
        append(&mut sub, " = ");
        let b = dotted(self.table.as_str(), self_pk);
        append(&mut sub, b.as_str());
        assert(sub@ =~= has_sub(child_table@, foreign_key@, self@.table, self_pk@));
        sub
    }

    /// Keep the rows that have at least one related row in `child_table`.
    pub fn where_has<C: Model>(self, child_table: &str, foreign_key: &str, self_pk: &str) -> (r: Self)
        ensures
            r@ == with_cond(
                self@,
                JoinOp::And,
                CondV::Raw("EXISTS ("@ + has_sub(child_table@, foreign_key@, self@.table, self_pk@) + seq![')']),
            ),
    {
        let sub = self.has_subquery(child_table, foreign_key, self_pk);
        self.where_has_raw(sub.as_str())
    }

    /// Keep the rows that have no related row in `child_table`.
    pub fn where_doesnt_have<C: Model>(self, child_table: &str, foreign_key: &str, self_pk: &str) -> (r: Self)
        ensures
            r@ == with_cond(
                self@,
                JoinOp::And,
                CondV::Raw("NOT EXISTS ("@ + has_sub(child_table@, foreign_key@, self@.table, self_pk@) + seq![')']),
            ),
    {
        let sub = self.has_subquery(child_table, foreign_key, self_pk);
        self.where_doesnt_have_raw(sub.as_str())
    }

    /// Keep the rows with a related row whose `filter_col` equals `filter_val`;
    /// the value is written into the subquery as a literal.
    pub fn where_has_with<C: Model, V: IntoSqlValue>(
        self,
        child_table: &str,
        foreign_key: &str,
        self_pk: &str,
        filter_col: &str,
        filter_val: V,
    ) -> (r: Self)
        ensures
            r@ == with_cond(
                self@,
                JoinOp::And,
                CondV::Raw(
                    "EXISTS ("@ + has_sub(child_table@, foreign_key@, self@.table, self_pk@) + " AND "@ + dot(
                        child_table@,
                        filter_col@,
                    ) + " = "@ + inline_literal(filter_val.sql_value_spec()) + seq![')'],
                ),
            ),
    {
        let v = filter_val.into_sql_value();
        let lit = inline_literal_exec(&v);
        let mut sub = self.has_subquery(child_table, foreign_key, self_pk);
        append(&mut sub, " AND ");
        let c = dotted(child_table, filter_col);
        append(&mut sub, c.as_str());
        append(&mut sub, " = ");
        append(&mut sub, lit.as_str());
        assert(sub@ =~= has_sub(child_table@, foreign_key@, self@.table, self_pk@) + " AND "@ + dot(child_table@, filter_col@)
            + " = "@ + inline_literal(filter_val.sql_value_spec()));
        let r = self.where_has_raw(sub.as_str());
        assert(r@.conditions.last().1 == CondV::Raw("EXISTS ("@ + sub@ + seq![')']));
        assert("EXISTS ("@ + sub@ + seq![')'] =~= "EXISTS ("@ + has_sub(child_table@, foreign_key@, self@.table, self_pk@)
            + " AND "@ + dot(child_table@, filter_col@) + " = "@ + inline_literal(filter_val.sql_value_spec()) + seq![')']);
        r
    }

    /// Keep the rows whose number of related rows compares with `count` by `op`.
    pub fn where_has_count(self, child_table: &str, foreign_key: &str, self_pk: &str, count: i64, op: CountOp) -> (r: Self)
        ensures
            r@ == with_cond(
                self@,
                JoinOp::And,
                CondV::Raw(
                    "(SELECT COUNT(*) FROM "@ + child_table@ + " WHERE "@ + dot(child_table@, foreign_key@) + " = "@
                        + dot(self@.table, self_pk@) + ") "@ + count_op_spec(op) + seq![' '] + int_dec(count as int),
                ),
            ),
    {
        let mut raw = owned("(SELECT COUNT(*) FROM ");
        append(&mut raw, child_table);
        append(&mut raw, " WHERE ");
        let a = dotted(child_table, foreign_key);
        append(&mut raw, a.as_str());
        append(&mut raw, " = ");
        let b = dotted(self.table.as_str(), self_pk);
        append(&mut raw, b.as_str());
        append(&mut raw, ") ");
        let o = op.symbol();
        append(&mut raw, o.as_str());
        push_char(&mut raw, ' ');
        let n = i64_dec(count);
        append(&mut raw, n.as_str());
        assert(raw@ =~= "(SELECT COUNT(*) FROM "@ + child_table@ + " WHERE "@ + dot(child_table@, foreign_key@) + " = "@
            + dot(self@.table, self_pk@) + ") "@ + count_op_spec(op) + seq![' '] + int_dec(count as int));
        self.push(JoinOp::And, Condition::Raw(raw))
    }
}

} // verus!
