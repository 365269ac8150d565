//! Has-many-through: children reached through an intermediate table.

use std::marker::PhantomData;
use vstd::prelude::*;
use crate::model::Model;
use crate::text::{append, dot, dotted};
use crate::query::builder::{QueryBuilder, QueryV, new_query, with_cond};
use crate::query::condition::CondV;
use crate::query::value::{JoinOp, JoinV, SqlValue};
use super::eager::through_on;

verus! {

/// The rows of `child` reached through `through`, whose `first_key` is `id`.
pub open spec fn through_query(through: Seq<char>, through_pk: Seq<char>, first_key: Seq<char>, second_key: Seq<char>, child: Seq<char>, id: crate::query::value::SqlVal) -> QueryV {
    with_cond(
        QueryV {
            joins: seq![JoinV::Inner(through, through_on(through, through_pk, child, second_key))],
            ..new_query(child)
        },
        JoinOp::And,
        CondV::Eq(dot(through, first_key), id),
    )
}

/// Has-many-through: the children of a parent are the `child_table` rows joined
/// to the `through_table` rows whose `first_key` holds the parent's id.
#[derive(Debug)]
pub struct HasManyThrough<P: Model, M: Model, C: Model> {
    pub through_table: &'static str,
    pub through_pk: &'static str,
    pub first_key: String,
    pub second_key: String,
    pub child_table: &'static str,
    pub _phantom: PhantomData<(P, M, C)>,
}

impl<P: Model, M: Model, C: Model> HasManyThrough<P, M, C> {
    pub fn new(
        through_table: &'static str,
        through_pk: &'static str,
        first_key: &str,
        second_key: &str,
        child_table: &'static str,
    ) -> (r: Self)
        ensures
            r.through_table == through_table,
            r.through_pk == through_pk,
            r.first_key@ == first_key@,
            r.second_key@ == second_key@,
            r.child_table == child_table,
    {
        HasManyThrough {
            through_table,
            through_pk,
            first_key: crate::text::owned(first_key),
            second_key: crate::text::owned(second_key),
            child_table,
            _phantom: PhantomData,
        }
    }

    /// The children of `parent_id`, joined through the intermediate table.
    pub fn query_for(&self, parent_id: SqlValue) -> (r: QueryBuilder<C>)
        ensures
            r@ == through_query(self.through_table@, self.through_pk@, self.first_key@, self.second_key@, self.child_table@, parent_id@),
    {
        let mut on = dotted(self.through_table, self.through_pk);
        append(&mut on, " = ");
        let rhs = dotted(self.child_table, self.second_key.as_str());
        append(&mut on, rhs.as_str());
        let fk = dotted(self.through_table, self.first_key.as_str());
        let q = QueryBuilder::<C>::new(self.child_table).inner_join(self.through_table, on.as_str());
        assert(q@.joins =~= seq![JoinV::Inner(self.through_table@, on@)]);
        q.where_eq(fk.as_str(), parent_id)
    }

    pub fn through_table(&self) -> (r: &'static str)
        ensures
            r == self.through_table,
    {
        self.through_table
    }

    pub fn first_key(&self) -> (r: &str)
        ensures
            r@ == self.first_key@,
    {
        self.first_key.as_str()
    }

    pub fn second_key(&self) -> (r: &str)
        ensures
            r@ == self.second_key@,
    {
        self.second_key.as_str()
    }

    pub fn child_table(&self) -> (r: &'static str)
        ensures
            r == self.child_table,
    {
        self.child_table
    }
}

} // verus!
