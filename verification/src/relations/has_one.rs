//! One-to-one relation: a parent's single child carries its id in a foreign key.

use std::marker::PhantomData;
use vstd::prelude::*;
use crate::model::Model;
use crate::query::builder::{QueryBuilder, new_query, with_cond};
use crate::query::condition::CondV;
use crate::query::value::{JoinOp, SqlVal, SqlValue};
use super::traits::Relation;

verus! {

/// One-to-one: the child of a parent is the row of `child_table` whose
/// `foreign_key` holds the parent's id.
#[derive(Debug)]
pub struct HasOne<P: Model, C: Model> {
    pub parent_table: &'static str,
    pub parent_pk: &'static str,
    pub child_table: &'static str,
    pub foreign_key: String,
    pub _phantom: PhantomData<(P, C)>,
}

impl<P: Model, C: Model> HasOne<P, C> {
    pub fn new(parent_table: &'static str, parent_pk: &'static str, child_table: &'static str, foreign_key: String) -> (r: Self)
        ensures
            r.parent_table == parent_table,
            r.parent_pk == parent_pk,
            r.child_table == child_table,
            r.foreign_key == foreign_key,
    {
        HasOne { parent_table, parent_pk, child_table, foreign_key, _phantom: PhantomData }
    }

    /// The child of `parent_id`.
    pub fn query_for(&self, parent_id: SqlValue) -> (r: QueryBuilder<C>)
        ensures
            r@ == with_cond(new_query(self.child_table@), JoinOp::And, CondV::Eq(self.foreign_key@, parent_id@)),
    {
        QueryBuilder::new(self.child_table).where_eq(self.foreign_key.as_str(), parent_id)
    }

    pub fn foreign_key(&self) -> (r: &str)
        ensures
            r@ == self.foreign_key@,
    {
        self.foreign_key.as_str()
    }

    pub fn child_table(&self) -> (r: &str)
        ensures
            r@ == self.child_table@,
    {
        self.child_table
    }
}

impl<P: Model, C: Model> Relation<P, C> for HasOne<P, C> {
    fn query(&self, parent_id: SqlValue) -> (r: QueryBuilder<C>)
        ensures
            r@ == with_cond(new_query(self.child_table@), JoinOp::And, CondV::Eq(self.foreign_key@, parent_id@)),
    {
        self.query_for(parent_id)
    }

    fn foreign_key_value(&self, parent: &P) -> (r: SqlValue)
        ensures
            r@ == SqlVal::Null,
    {
        SqlValue::Null
    }
}

} // verus!
