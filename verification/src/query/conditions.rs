//! `where_*` and `or_where_*` condition methods for [`QueryBuilder`].

use vstd::prelude::*;
use crate::text::owned;
use super::builder::{QueryBuilder, with_cond};
use super::condition::{CondV, Condition};
use super::value::{IntoSqlValue, JoinOp, arg_vals, into_values};

verus! {

impl<T> QueryBuilder<T> {
    /// The same as [`where_eq`](Self::where_eq).
    pub fn filter<V: IntoSqlValue>(self, col: &str, val: V) -> (r: Self)
        ensures
            r@ == with_cond(self@, JoinOp::And, CondV::Eq(col@, val.sql_value_spec())),
    {
        self.where_eq(col, val)
    }

    /// The same as [`where_eq`](Self::where_eq).
    pub fn eq<V: IntoSqlValue>(self, col: &str, val: V) -> (r: Self)
        ensures
            r@ == with_cond(self@, JoinOp::And, CondV::Eq(col@, val.sql_value_spec())),
    {
        self.where_eq(col, val)
    }

    /// Add `col = value`, joined with `AND`.
    pub fn where_eq<V: IntoSqlValue>(self, col: &str, val: V) -> (r: Self)
        ensures
            r@ == with_cond(self@, JoinOp::And, CondV::Eq(col@, val.sql_value_spec())),
    {
        let v = val.into_sql_value();
        self.push(JoinOp::And, Condition::Eq(owned(col), v))
    }

    /// Add `col != value`, joined with `AND`.
    pub fn where_ne<V: IntoSqlValue>(self, col: &str, val: V) -> (r: Self)
        ensures
            r@ == with_cond(self@, JoinOp::And, CondV::Ne(col@, val.sql_value_spec())),
    {
        let v = val.into_sql_value();
        self.push(JoinOp::And, Condition::Ne(owned(col), v))
    }

    /// Add `col > value`, joined with `AND`.
    pub fn where_gt<V: IntoSqlValue>(self, col: &str, val: V) -> (r: Self)
        ensures
            r@ == with_cond(self@, JoinOp::And, CondV::Gt(col@, val.sql_value_spec())),
    {
        let v = val.into_sql_value();
        self.push(JoinOp::And, Condition::Gt(owned(col), v))
    }

    /// Add `col >= value`, joined with `AND`.
    pub fn where_gte<V: IntoSqlValue>(self, col: &str, val: V) -> (r: Self)
        ensures
            r@ == with_cond(self@, JoinOp::And, CondV::Gte(col@, val.sql_value_spec())),
    {
        let v = val.into_sql_value();
        self.push(JoinOp::And, Condition::Gte(owned(col), v))
    }

    /// Add `col < value`, joined with `AND`.
    pub fn where_lt<V: IntoSqlValue>(self, col: &str, val: V) -> (r: Self)
        ensures
            r@ == with_cond(self@, JoinOp::And, CondV::Lt(col@, val.sql_value_spec())),
    {
        let v = val.into_sql_value();
        self.push(JoinOp::And, Condition::Lt(owned(col), v))
    }

    /// Add `col <= value`, joined with `AND`.
    pub fn where_lte<V: IntoSqlValue>(self, col: &str, val: V) -> (r: Self)
        ensures
            r@ == with_cond(self@, JoinOp::And, CondV::Lte(col@, val.sql_value_spec())),
    {
        let v = val.into_sql_value();
        self.push(JoinOp::And, Condition::Lte(owned(col), v))
    }

    /// Add `col LIKE pattern`, joined with `AND`.
    pub fn where_like(self, col: &str, pattern: &str) -> (r: Self)
        ensures
            r@ == with_cond(self@, JoinOp::And, CondV::Like(col@, pattern@)),
    {
        self.push(JoinOp::And, Condition::Like(owned(col), owned(pattern)))
    }

    /// Add `col NOT LIKE pattern`, joined with `AND`.
    pub fn where_not_like(self, col: &str, pattern: &str) -> (r: Self)
        ensures
            r@ == with_cond(self@, JoinOp::And, CondV::NotLike(col@, pattern@)),
    {
        self.push(JoinOp::And, Condition::NotLike(owned(col), owned(pattern)))
    }

    /// Add `col IS NULL`, joined with `AND`.
    pub fn where_null(self, col: &str) -> (r: Self)
        ensures
            r@ == with_cond(self@, JoinOp::And, CondV::IsNull(col@)),
    {
        self.push(JoinOp::And, Condition::IsNull(owned(col)))
    }

    /// Add `col IS NOT NULL`, joined with `AND`.
    pub fn where_not_null(self, col: &str) -> (r: Self)
        ensures
            r@ == with_cond(self@, JoinOp::And, CondV::IsNotNull(col@)),
    {
        self.push(JoinOp::And, Condition::IsNotNull(owned(col)))
    }

    /// Add `col IN (values…)`, joined with `AND`.
    pub fn where_in<V: IntoSqlValue>(self, col: &str, vals: Vec<V>) -> (r: Self)
        ensures
            r@ == with_cond(self@, JoinOp::And, CondV::In(col@, arg_vals(vals@))),
    {
        let vs = into_values(vals);
        self.push(JoinOp::And, Condition::In(owned(col), vs))
    }

    /// Add `col NOT IN (values…)`, joined with `AND`.
    pub fn where_not_in<V: IntoSqlValue>(self, col: &str, vals: Vec<V>) -> (r: Self)
        ensures
            r@ == with_cond(self@, JoinOp::And, CondV::NotIn(col@, arg_vals(vals@))),
    {
        let vs = into_values(vals);
        self.push(JoinOp::And, Condition::NotIn(owned(col), vs))
    }

    /// Add `col BETWEEN lo AND hi`, joined with `AND`.
    pub fn where_between<V: IntoSqlValue, W: IntoSqlValue>(self, col: &str, lo: V, hi: W) -> (r: Self)
        ensures
            r@ == with_cond(self@, JoinOp::And, CondV::Between(col@, lo.sql_value_spec(), hi.sql_value_spec())),
    {
        let l = lo.into_sql_value();
        let h = hi.into_sql_value();
        self.push(JoinOp::And, Condition::Between(owned(col), l, h))
    }

    /// Add `col NOT BETWEEN lo AND hi`, joined with `AND`.
    pub fn where_not_between<V: IntoSqlValue, W: IntoSqlValue>(self, col: &str, lo: V, hi: W) -> (r: Self)
        ensures
            r@ == with_cond(self@, JoinOp::And, CondV::NotBetween(col@, lo.sql_value_spec(), hi.sql_value_spec())),
    {
        let l = lo.into_sql_value();
        let h = hi.into_sql_value();
        self.push(JoinOp::And, Condition::NotBetween(owned(col), l, h))
    }

    /// Add a raw SQL fragment, joined with `AND`.
    pub fn where_raw(self, sql: &str) -> (r: Self)
        ensures
            r@ == with_cond(self@, JoinOp::And, CondV::Raw(sql@)),
    {
        self.push(JoinOp::And, Condition::Raw(owned(sql)))
    }

    /// Add a raw SQL fragment with bound `$1`, `$2`, … parameters, renumbered when rendered, joined with `AND`.
    pub fn where_raw_params<V: IntoSqlValue>(self, sql: &str, params: Vec<V>) -> (r: Self)
        ensures
            r@ == with_cond(self@, JoinOp::And, CondV::RawExpr(sql@, arg_vals(params@))),
    {
        let ps = into_values(params);
        self.push(JoinOp::And, Condition::RawExpr(owned(sql), ps))
    }

    /// Add `col = value`, joined with `OR`.
    pub fn or_where_eq<V: IntoSqlValue>(self, col: &str, val: V) -> (r: Self)
        ensures
            r@ == with_cond(self@, JoinOp::Or, CondV::Eq(col@, val.sql_value_spec())),
    {
        let v = val.into_sql_value();
        self.push(JoinOp::Or, Condition::Eq(owned(col), v))
    }

    /// Add `col != value`, joined with `OR`.
    pub fn or_where_ne<V: IntoSqlValue>(self, col: &str, val: V) -> (r: Self)
        ensures
            r@ == with_cond(self@, JoinOp::Or, CondV::Ne(col@, val.sql_value_spec())),
    {
        let v = val.into_sql_value();
        self.push(JoinOp::Or, Condition::Ne(owned(col), v))
    }

    /// Add `col > value`, joined with `OR`.
    pub fn or_where_gt<V: IntoSqlValue>(self, col: &str, val: V) -> (r: Self)
        ensures
            r@ == with_cond(self@, JoinOp::Or, CondV::Gt(col@, val.sql_value_spec())),
    {
        let v = val.into_sql_value();
        self.push(JoinOp::Or, Condition::Gt(owned(col), v))
    }

    /// Add `col >= value`, joined with `OR`.
    pub fn or_where_gte<V: IntoSqlValue>(self, col: &str, val: V) -> (r: Self)
        ensures
            r@ == with_cond(self@, JoinOp::Or, CondV::Gte(col@, val.sql_value_spec())),
    {
        let v = val.into_sql_value();
        self.push(JoinOp::Or, Condition::Gte(owned(col), v))
    }

    /// Add `col < value`, joined with `OR`.
    pub fn or_where_lt<V: IntoSqlValue>(self, col: &str, val: V) -> (r: Self)
        ensures
            r@ == with_cond(self@, JoinOp::Or, CondV::Lt(col@, val.sql_value_spec())),
    {
        let v = val.into_sql_value();
        self.push(JoinOp::Or, Condition::Lt(owned(col), v))
    }

    /// Add `col <= value`, joined with `OR`.
    pub fn or_where_lte<V: IntoSqlValue>(self, col: &str, val: V) -> (r: Self)
        ensures
            r@ == with_cond(self@, JoinOp::Or, CondV::Lte(col@, val.sql_value_spec())),
    {
        let v = val.into_sql_value();
        self.push(JoinOp::Or, Condition::Lte(owned(col), v))
    }

    /// Add `col LIKE pattern`, joined with `OR`.
    pub fn or_where_like(self, col: &str, pattern: &str) -> (r: Self)
        ensures
            r@ == with_cond(self@, JoinOp::Or, CondV::Like(col@, pattern@)),
    {
        self.push(JoinOp::Or, Condition::Like(owned(col), owned(pattern)))
    }

    /// Add `col IS NULL`, joined with `OR`.
    pub fn or_where_null(self, col: &str) -> (r: Self)
        ensures
            r@ == with_cond(self@, JoinOp::Or, CondV::IsNull(col@)),
    {
        self.push(JoinOp::Or, Condition::IsNull(owned(col)))
    }

    /// Add `col IS NOT NULL`, joined with `OR`.
    pub fn or_where_not_null(self, col: &str) -> (r: Self)
        ensures
            r@ == with_cond(self@, JoinOp::Or, CondV::IsNotNull(col@)),
    {
        self.push(JoinOp::Or, Condition::IsNotNull(owned(col)))
    }

    /// Add `col IN (values…)`, joined with `OR`.
    pub fn or_where_in<V: IntoSqlValue>(self, col: &str, vals: Vec<V>) -> (r: Self)
        ensures
            r@ == with_cond(self@, JoinOp::Or, CondV::In(col@, arg_vals(vals@))),
    {
        let vs = into_values(vals);
        self.push(JoinOp::Or, Condition::In(owned(col), vs))
    }

    /// Add `col BETWEEN lo AND hi`, joined with `OR`.
    pub fn or_where_between<V: IntoSqlValue, W: IntoSqlValue>(self, col: &str, lo: V, hi: W) -> (r: Self)
        ensures
            r@ == with_cond(self@, JoinOp::Or, CondV::Between(col@, lo.sql_value_spec(), hi.sql_value_spec())),
    {
        let l = lo.into_sql_value();
        let h = hi.into_sql_value();
        self.push(JoinOp::Or, Condition::Between(owned(col), l, h))
    }

    /// Add a raw SQL fragment, joined with `OR`.
    pub fn or_where_raw(self, sql: &str) -> (r: Self)
        ensures
            r@ == with_cond(self@, JoinOp::Or, CondV::Raw(sql@)),
    {
        self.push(JoinOp::Or, Condition::Raw(owned(sql)))
    }
}

} // verus!
