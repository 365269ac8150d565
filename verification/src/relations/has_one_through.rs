//! Has-one-through: the single child reached through an intermediate table.

use std::marker::PhantomData;
use vstd::prelude::*;
use crate::model::Model;
use crate::text::{append, dotted};
use crate::query::builder::{QueryBuilder, QueryV};
use crate::query::value::{JoinV, SqlValue};
use super::has_many_through::through_query;

verus! {

/// Has-one-through: like has-many-through, at most one child.
#[derive(Debug)]
pub struct HasOneThrough<P: Model, M: Model, C: Model> {
    pub through_table: &'static str,
    pub through_pk: &'static str,
    pub first_key: String,
    pub second_key: String,
    pub child_table: &'static str,
    pub _phantom: PhantomData<(P, M, C)>,
}

impl<P: Model, M: Model, C: Model> HasOneThrough<P, M, C> {
    pub fn new(
        through_table: &'static str,
        through_pk: &'static str,
        first_key: &str,
        second_key: &str,
        child_table: &'static str,
    ) -> (r: Self)
        ensures
            r.through_table == through_table,
            r.through_pk == through_pk,
            r.first_key@ == first_key@,
            r.second_key@ == second_key@,
            r.child_table == child_table,
    {
        HasOneThrough {
            through_table,
            through_pk,
            first_key: crate::text::owned(first_key),
            second_key: crate::text::owned(second_key),
            child_table,
            _phantom: PhantomData,
        }
    }

    /// The child of `parent_id`, joined through the intermediate table, at most one row.
    pub fn query_for(&self, parent_id: SqlValue) -> (r: QueryBuilder<C>)
        ensures
            r@ == (QueryV { limit_val: Some(1), ..through_query(self.through_table@, self.through_pk@, self.first_key@, self.second_key@, self.child_table@, parent_id@) }),
    {
        let mut on = dotted(self.through_table, self.through_pk);
        append(&mut on, " = ");
        let rhs = dotted(self.child_table, self.second_key.as_str());
        append(&mut on, rhs.as_str());
        let fk = dotted(self.through_table, self.first_key.as_str());
        let q = QueryBuilder::<C>::new(self.child_table).inner_join(self.through_table, on.as_str());
        assert(q@.joins =~= seq![JoinV::Inner(self.through_table@, on@)]);
        q.where_eq(fk.as_str(), parent_id).limit(1)
    }

    pub fn through_table(&self) -> (r: &'static str)
        ensures
            r == self.through_table,
    {
        self.through_table
    }

    pub fn first_key(&self) -> (r: &str)
        ensures
            r@ == self.first_key@,
    {
        self.first_key.as_str()
    }

    pub fn second_key(&self) -> (r: &str)
        ensures
            r@ == self.second_key@,
    {
        self.second_key.as_str()
    }

    pub fn child_table(&self) -> (r: &'static str)
        ensures
            r == self.child_table,
    {
        self.child_table
    }
}

} // verus!
