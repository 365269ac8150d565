//! Inverse relation: a row points at its owner through a foreign key.

use std::marker::PhantomData;
use vstd::prelude::*;
use crate::model::Model;
use crate::query::builder::{QueryBuilder, new_query, with_cond};
use crate::query::condition::CondV;
use crate::query::value::{JoinOp, SqlVal, SqlValue};
use super::traits::Relation;

verus! {

/// Belongs-to: the owner of a row is the row of `related_table` whose
/// `related_pk` equals the row's foreign key.
#[derive(Debug)]
pub struct BelongsTo<P: Model, C: Model> {
    pub parent_table: &'static str,
    pub foreign_key: String,
    pub related_table: &'static str,
    pub related_pk: &'static str,
    pub _phantom: PhantomData<(P, C)>,
}

impl<P: Model, C: Model> BelongsTo<P, C> {
    pub fn new(parent_table: &'static str, foreign_key: String, related_table: &'static str, related_pk: &'static str) -> (r: Self)
        ensures
            r.parent_table == parent_table,
            r.foreign_key == foreign_key,
            r.related_table == related_table,
            r.related_pk == related_pk,
    {
        BelongsTo { parent_table, foreign_key, related_table, related_pk, _phantom: PhantomData }
    }

    /// The owner whose key is `fk_value`.
    pub fn query_for(&self, fk_value: SqlValue) -> (r: QueryBuilder<C>)
        ensures
            r@ == with_cond(new_query(self.related_table@), JoinOp::And, CondV::Eq(self.related_pk@, fk_value@)),
    {
        QueryBuilder::<C>::new(self.related_table).where_eq(self.related_pk, fk_value)
    }

    pub fn foreign_key(&self) -> (r: &str)
        ensures
            r@ == self.foreign_key@,
    {
        self.foreign_key.as_str()
    }

    pub fn related_table(&self) -> (r: &str)
        ensures
            r@ == self.related_table@,
    {
        self.related_table
    }

    pub fn related_pk(&self) -> (r: &str)
        ensures
            r@ == self.related_pk@,
    {
        self.related_pk
    }
}

impl<P: Model, C: Model> Relation<P, C> for BelongsTo<P, C> {
    fn query(&self, parent_id: SqlValue) -> (r: QueryBuilder<C>)
        ensures
            r@ == with_cond(new_query(self.related_table@), JoinOp::And, CondV::Eq(self.related_pk@, parent_id@)),
    {
        self.query_for(parent_id)
    }

    fn foreign_key_value(&self, parent: &P) -> (r: SqlValue)
        ensures
            r@ == SqlVal::Null,
    {
        SqlValue::Null
    }
}

} // verus!
