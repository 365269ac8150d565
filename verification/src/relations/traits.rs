//! Core relation traits: [`Relations`], [`Relation`], [`RelationQuery`].

use vstd::prelude::*;
use crate::model::Model;
use crate::query::builder::{QueryBuilder, QueryV, with_cond};
use crate::query::condition::CondV;
use crate::query::value::{IntoSqlValue, JoinOp, OrderV, SqlValue, arg_vals};

verus! {

/// Marker trait for models that declare relationships.
pub trait Relations: Model {}

/// Type-erased interface to build a child query from a parent ID.
pub trait Relation<P: Model, C: Model> {
    fn query(&self, parent_id: SqlValue) -> QueryBuilder<C>;

    fn foreign_key_value(&self, parent: &P) -> SqlValue;
}

/// Fluent query API available on relation builders.
pub trait RelationQuery<C: Model>: Sized {
    fn filter<V: IntoSqlValue>(self, col: &str, val: V) -> Self;

    fn order_by(self, col: &str) -> Self;

    fn order_by_desc(self, col: &str) -> Self;

    fn limit(self, n: usize) -> Self;

    fn offset(self, n: usize) -> Self;

    fn where_eq<V: IntoSqlValue>(self, col: &str, val: V) -> Self;

    fn where_in<V: IntoSqlValue>(self, col: &str, vals: Vec<V>) -> Self;

    fn where_between<V: IntoSqlValue, W: IntoSqlValue>(self, col: &str, lo: V, hi: W) -> Self;

    fn where_null(self, col: &str) -> Self;

    fn where_not_null(self, col: &str) -> Self;

    fn where_like(self, col: &str, pattern: &str) -> Self;

    fn builder(&self) -> &QueryBuilder<C>;
}

impl<C: Model> RelationQuery<C> for QueryBuilder<C> {
    fn filter<V: IntoSqlValue>(self, col: &str, val: V) -> (r: Self)
        ensures
            r@ == with_cond(self@, JoinOp::And, CondV::Eq(col@, val.sql_value_spec())),
    {
        QueryBuilder::where_eq(self, col, val)
    }

    fn order_by(self, col: &str) -> (r: Self)
        ensures
            r@ == (QueryV { order: self@.order.push((col@, OrderV::Asc)), ..self@ }),
    {
        QueryBuilder::order_by(self, col)
    }

    fn order_by_desc(self, col: &str) -> (r: Self)
        ensures
            r@ == (QueryV { order: self@.order.push((col@, OrderV::Desc)), ..self@ }),
    {
        QueryBuilder::order_by_desc(self, col)
    }

    fn limit(self, n: usize) -> (r: Self)
        ensures
            r@ == (QueryV { limit_val: Some(n), ..self@ }),
    {
        QueryBuilder::limit(self, n)
    }

    fn offset(self, n: usize) -> (r: Self)
        ensures
            r@ == (QueryV { offset_val: Some(n), ..self@ }),
    {
        QueryBuilder::offset(self, n)
    }

    fn where_eq<V: IntoSqlValue>(self, col: &str, val: V) -> (r: Self)
        ensures
            r@ == with_cond(self@, JoinOp::And, CondV::Eq(col@, val.sql_value_spec())),
    {
        QueryBuilder::where_eq(self, col, val)
    }

    fn where_in<V: IntoSqlValue>(self, col: &str, vals: Vec<V>) -> (r: Self)
        ensures
            r@ == with_cond(self@, JoinOp::And, CondV::In(col@, arg_vals(vals@))),
    {
        QueryBuilder::where_in(self, col, vals)
    }

    fn where_between<V: IntoSqlValue, W: IntoSqlValue>(self, col: &str, lo: V, hi: W) -> (r: Self)
        ensures
            r@ == with_cond(
                self@,
                JoinOp::And,
                CondV::Between(col@, lo.sql_value_spec(), hi.sql_value_spec()),
            ),
    {
        QueryBuilder::where_between(self, col, lo, hi)
    }

    fn where_null(self, col: &str) -> (r: Self)
        ensures
            r@ == with_cond(self@, JoinOp::And, CondV::IsNull(col@)),
    {
        QueryBuilder::where_null(self, col)
    }

    fn where_not_null(self, col: &str) -> (r: Self)
        ensures
            r@ == with_cond(self@, JoinOp::And, CondV::IsNotNull(col@)),
    {
        QueryBuilder::where_not_null(self, col)
    }

    fn where_like(self, col: &str, pattern: &str) -> (r: Self)
        ensures
            r@ == with_cond(self@, JoinOp::And, CondV::Like(col@, pattern@)),
    {
        QueryBuilder::where_like(self, col, pattern)
    }

    fn builder(&self) -> (r: &QueryBuilder<C>)
        ensures
            r@ == self@,
    {
        self
    }
}

} // verus!
