//! Eager loading: one batched query for the related rows of many parents.

use std::marker::PhantomData;
use vstd::prelude::*;
use crate::model::Model;
use crate::text::{dot, dotted, owned, append};
use crate::query::builder::{QueryBuilder, QueryV, new_query, with_cond};
use crate::query::condition::CondV;
use crate::query::value::{JoinOp, JoinV, SqlVal, SqlValue, arg_vals, duplicate_all, vals};

verus! {

/// The batch query over `table` for the rows whose `col` is one of `ids`; with
/// no ids, a query that returns nothing (`LIMIT 0`).
pub open spec fn batch_query(base: QueryV, col: Seq<char>, ids: Seq<SqlVal>) -> QueryV {
    if ids.len() == 0 {
        QueryV { limit_val: Some(0), ..base }
    } else {
        with_cond(base, JoinOp::And, CondV::In(col, ids))
    }
}

/// The values of copied ids, as arguments.
proof fn lemma_arg_vals_values(v: Seq<SqlValue>)
    ensures
        arg_vals(v) == vals(v),
{
    assert(arg_vals(v) =~= vals(v));
}

/// `base` limited to nothing when `ids` is empty, else filtered on `col IN ids`.
fn batch<C>(base: QueryBuilder<C>, col: &str, ids: &[SqlValue]) -> (r: QueryBuilder<C>)
    ensures
        r@ == batch_query(base@, col@, vals(ids@)),
{
    if ids.len() == 0 {
        return base.limit(0);
    }
    let copy = duplicate_all(ids);
    proof { lemma_arg_vals_values(copy@); }
    base.where_in(col, copy)
}

/// Eager loader for has-many: children whose foreign key is one of the parent ids.
#[derive(Debug)]
pub struct HasManyEager<P> {
    pub child_table: &'static str,
    pub foreign_key: String,
    pub child_pk: &'static str,
    pub _phantom: PhantomData<P>,
}

/// Eager loader for has-one: the child whose foreign key is one of the parent ids.
#[derive(Debug)]
pub struct HasOneEager<P> {
    pub child_table: &'static str,
    pub foreign_key: String,
    pub _phantom: PhantomData<P>,
}

/// Eager loader for belongs-to: the related rows whose key is one of the ids.
#[derive(Debug)]
pub struct BelongsToEager<P> {
    pub parent_table: &'static str,
    pub foreign_key: String,
    pub related_table: &'static str,
    pub related_pk: &'static str,
    pub _phantom: PhantomData<P>,
}

impl<P> HasManyEager<P> {
    pub fn new(child_table: &'static str, foreign_key: String, child_pk: &'static str) -> (r: Self)
        ensures
            r.child_table == child_table,
            r.foreign_key == foreign_key,
            r.child_pk == child_pk,
    {
        HasManyEager { child_table, foreign_key, child_pk, _phantom: PhantomData }
    }

    /// The batch query for the children of `parent_ids`.
    pub fn build_query<C: Model>(&self, parent_ids: &[SqlValue]) -> (r: QueryBuilder<C>)
        ensures
            r@ == batch_query(new_query(self.child_table@), self.foreign_key@, vals(parent_ids@)),
    {
        batch(QueryBuilder::<C>::new(self.child_table), self.foreign_key.as_str(), parent_ids)
    }
}

impl<P> HasOneEager<P> {
    pub fn new(child_table: &'static str, foreign_key: String) -> (r: Self)
        ensures
            r.child_table == child_table,
            r.foreign_key == foreign_key,
    {
        HasOneEager { child_table, foreign_key, _phantom: PhantomData }
    }

    /// The batch query for the children of `parent_ids`.
    pub fn build_query<C: Model>(&self, parent_ids: &[SqlValue]) -> (r: QueryBuilder<C>)
        ensures
            r@ == batch_query(new_query(self.child_table@), self.foreign_key@, vals(parent_ids@)),
    {
        batch(QueryBuilder::<C>::new(self.child_table), self.foreign_key.as_str(), parent_ids)
    }
}

impl<P> BelongsToEager<P> {
    pub fn new(
        parent_table: &'static str,
        foreign_key: String,
        related_table: &'static str,
        related_pk: &'static str,
    ) -> (r: Self)
        ensures
            r.parent_table == parent_table,
            r.foreign_key == foreign_key,
            r.related_table == related_table,
            r.related_pk == related_pk,
    {
        BelongsToEager { parent_table, foreign_key, related_table, related_pk, _phantom: PhantomData }
    }

    pub fn foreign_key(&self) -> (r: &str)
        ensures
            r@ == self.foreign_key@,
    {
        self.foreign_key.as_str()
    }

    /// The batch query for the related rows whose key is one of `parent_ids`.
    pub fn build_query<C: Model>(&self, parent_ids: &[SqlValue]) -> (r: QueryBuilder<C>)
        ensures
            r@ == batch_query(new_query(self.related_table@), self.related_pk@, vals(parent_ids@)),
    {
        batch(QueryBuilder::<C>::new(self.related_table), self.related_pk, parent_ids)
    }
}

/// Eager loader for has-many-through: children joined through an intermediate
/// table, filtered by `through_table.first_key IN (parent_ids)`.
#[derive(Debug)]
pub struct HasManyThroughEager<P> {
    pub through_table: &'static str,
    pub through_pk: &'static str,
    pub first_key: String,
    pub second_key: String,
    pub child_table: &'static str,
    pub _phantom: PhantomData<P>,
}

/// The join condition `through.through_pk = child.second_key`.
pub open spec fn through_on(through: Seq<char>, through_pk: Seq<char>, child: Seq<char>, second_key: Seq<char>) -> Seq<char> {
    dot(through, through_pk) + " = "@ + dot(child, second_key)
}

/// The batch query of a has-many-through loader: with ids, the children
/// joined through `through` whose `through.first_key` is one of them; with
/// none, a query that returns nothing.
pub open spec fn through_batch(
    through: Seq<char>,
    through_pk: Seq<char>,
    first_key: Seq<char>,
    second_key: Seq<char>,
    child: Seq<char>,
    ids: Seq<SqlVal>,
) -> QueryV {
    batch_query(
        if ids.len() == 0 {
            new_query(child)
        } else {
            QueryV {
                joins: seq![JoinV::Inner(through, through_on(through, through_pk, child, second_key))],
                ..new_query(child)
            }
        },
        dot(through, first_key),
        ids,
    )
}

impl<P> HasManyThroughEager<P> {
    pub fn new(
        through_table: &'static str,
        through_pk: &'static str,
        first_key: &str,
        second_key: &str,
        child_table: &'static str,
    ) -> (r: Self)
        ensures
            r.through_table == through_table,
            r.through_pk == through_pk,
            r.first_key@ == first_key@,
            r.second_key@ == second_key@,
            r.child_table == child_table,
    {
        HasManyThroughEager {
            through_table,
            through_pk,
            first_key: owned(first_key),
            second_key: owned(second_key),
            child_table,
            _phantom: PhantomData,
        }
    }

    /// The batch query: join the through table, filter its first key on `parent_ids`.
    pub fn build_query<C: Model>(&self, parent_ids: &[SqlValue]) -> (r: QueryBuilder<C>)
        ensures
            r@ == through_batch(
                self.through_table@,
                self.through_pk@,
                self.first_key@,
                self.second_key@,
                self.child_table@,
                vals(parent_ids@),
            ),
    {
        if parent_ids.len() == 0 {
            return QueryBuilder::new(self.child_table).limit(0);
        }
        let mut on = dotted(self.through_table, self.through_pk);
        append(&mut on, " = ");
        let rhs = dotted(self.child_table, self.second_key.as_str());
        append(&mut on, rhs.as_str());
        let fk = dotted(self.through_table, self.first_key.as_str());
        let q = QueryBuilder::<C>::new(self.child_table).inner_join(self.through_table, on.as_str());
        assert(q@.joins =~= seq![JoinV::Inner(self.through_table@, on@)]);
        batch(q, fk.as_str(), parent_ids)
    }

    pub fn first_key(&self) -> (r: &str)
        ensures
            r@ == self.first_key@,
    {
        self.first_key.as_str()
    }

    pub fn through_table(&self) -> (r: &'static str)
        ensures
            r == self.through_table,
    {
        self.through_table
    }
}

impl<P> Clone for HasManyEager<P> {
    fn clone(&self) -> (r: Self)
        ensures
            r.child_table == self.child_table,
            r.foreign_key@ == self.foreign_key@,
            r.child_pk == self.child_pk,
    {
        HasManyEager {
            child_table: self.child_table,
            foreign_key: self.foreign_key.clone(),
            child_pk: self.child_pk,
            _phantom: PhantomData,
        }
    }
}

impl<P> Clone for HasOneEager<P> {
    fn clone(&self) -> (r: Self)
        ensures
            r.child_table == self.child_table,
            r.foreign_key@ == self.foreign_key@,
    {
        HasOneEager { child_table: self.child_table, foreign_key: self.foreign_key.clone(), _phantom: PhantomData }
    }
}

impl<P> Clone for BelongsToEager<P> {
    fn clone(&self) -> (r: Self)
        ensures
            r.parent_table == self.parent_table,
            r.foreign_key@ == self.foreign_key@,
            r.related_table == self.related_table,
            r.related_pk == self.related_pk,
    {
        BelongsToEager {
            parent_table: self.parent_table,
            foreign_key: self.foreign_key.clone(),
            related_table: self.related_table,
            related_pk: self.related_pk,
            _phantom: PhantomData,
        }
    }
}

impl<P> Clone for HasManyThroughEager<P> {
    fn clone(&self) -> (r: Self)
        ensures
            r.through_table == self.through_table,
            r.through_pk == self.through_pk,
            r.first_key@ == self.first_key@,
            r.second_key@ == self.second_key@,
            r.child_table == self.child_table,
    {
        HasManyThroughEager {
            through_table: self.through_table,
            through_pk: self.through_pk,
            first_key: self.first_key.clone(),
            second_key: self.second_key.clone(),
            child_table: self.child_table,
            _phantom: PhantomData,
        }
    }
}

/// One eager loader of any kind.
#[derive(Debug, Clone)]
pub enum EagerRelation<P> {
    HasMany(HasManyEager<P>),
    HasOne(HasOneEager<P>),
    BelongsTo(BelongsToEager<P>),
    HasManyThrough(HasManyThroughEager<P>),
}

/// The name of a loader's kind.
pub open spec fn relation_name_spec<P>(e: EagerRelation<P>) -> Seq<char> {
    match e {
        EagerRelation::HasMany(_) => "has_many"@,
        EagerRelation::HasOne(_) => "has_one"@,
        EagerRelation::BelongsTo(_) => "belongs_to"@,
        EagerRelation::HasManyThrough(_) => "has_many_through"@,
    }
}

impl<P> EagerRelation<P> {
    pub fn relation_name(&self) -> (r: &'static str)
        ensures
            r@ == relation_name_spec(*self),
    {
        match self {
            EagerRelation::HasMany(_) => "has_many",
            EagerRelation::HasOne(_) => "has_one",
            EagerRelation::BelongsTo(_) => "belongs_to",
            EagerRelation::HasManyThrough(_) => "has_many_through",
        }
    }

    /// The batch query of the loader.
    pub fn build_query<C: Model>(&self, parent_ids: &[SqlValue]) -> (r: QueryBuilder<C>)
        ensures
            match *self {
                EagerRelation::HasMany(e) => r@ == batch_query(
                    new_query(e.child_table@),
                    e.foreign_key@,
                    vals(parent_ids@),
                ),
                EagerRelation::HasOne(e) => r@ == batch_query(
                    new_query(e.child_table@),
                    e.foreign_key@,
                    vals(parent_ids@),
                ),
                EagerRelation::BelongsTo(e) => r@ == batch_query(
                    new_query(e.related_table@),
                    e.related_pk@,
                    vals(parent_ids@),
                ),
                EagerRelation::HasManyThrough(e) => r@ == through_batch(
                    e.through_table@,
                    e.through_pk@,
                    e.first_key@,
                    e.second_key@,
                    e.child_table@,
                    vals(parent_ids@),
                ),
            },
    {
        match self {
            EagerRelation::HasMany(e) => e.build_query::<C>(parent_ids),
            EagerRelation::HasOne(e) => e.build_query::<C>(parent_ids),
            EagerRelation::BelongsTo(e) => e.build_query::<C>(parent_ids),
            EagerRelation::HasManyThrough(e) => e.build_query::<C>(parent_ids),
        }
    }
}

} // verus!
