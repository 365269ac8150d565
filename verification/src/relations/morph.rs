//! Polymorphic relationships: MorphOne, MorphMany, MorphToRef, MorphToMany, MorphedByMany.
//!
//! A single child table belongs to several parent types through its
//! `{morph_key}_type` and `{morph_key}_id` columns.

use std::marker::PhantomData;
use vstd::prelude::*;
use crate::model::Model;
use crate::text::{append, cat_str, dot, dotted, owned, push_char};
use crate::query::builder::{QueryBuilder, QueryV, data_view, new_query, with_cond};
use crate::query::condition::CondV;
use crate::query::sql_gen::pair_vals;
use crate::query::sql_write::insert_head;
use crate::query::value::{Dialect, JoinOp, JoinV, SqlVal, SqlValue, vals};

verus! {

/// `{key}_type`.
pub open spec fn type_col_spec(key: Seq<char>) -> Seq<char> {
    key + "_type"@
}

/// `{key}_id`.
pub open spec fn id_col_spec(key: Seq<char>) -> Seq<char> {
    key + "_id"@
}

/// The children of one parent: `{key}_type = parent_type AND {key}_id = id`.
pub open spec fn morph_query(child: Seq<char>, key: Seq<char>, parent_type: Seq<char>, id: SqlVal) -> QueryV {
    with_cond(
        with_cond(new_query(child), JoinOp::And, CondV::Eq(type_col_spec(key), SqlVal::Text(parent_type))),
        JoinOp::And,
        CondV::Eq(id_col_spec(key), id),
    )
}

/// The builder of [`morph_query`].
fn morph_builder<C>(child: &str, key: &str, parent_type: &str, id: SqlValue) -> (r: QueryBuilder<C>)
    ensures
        r@ == morph_query(child@, key@, parent_type@, id@),
{
    let tc = cat_str(key, "_type");
    let ic = cat_str(key, "_id");
    QueryBuilder::<C>::new(child).where_eq(tc.as_str(), parent_type).where_eq(ic.as_str(), id)
}

// ── MorphOne ─────────────────────────────────────────────────────────────────

/// One-to-one polymorphic: a parent has one child row via `{morph_key}_type/id`.
#[derive(Debug)]
pub struct MorphOne<P, C> {
    pub child_table: &'static str,
    pub morph_key: &'static str,
    pub parent_type: &'static str,
    pub _phantom: PhantomData<(P, C)>,
}

impl<P: Model, C: Model> MorphOne<P, C> {
    pub fn new(child_table: &'static str, morph_key: &'static str, parent_type: &'static str) -> (r: Self)
        ensures
            r.child_table == child_table,
            r.morph_key == morph_key,
            r.parent_type == parent_type,
    {
        MorphOne { child_table, morph_key, parent_type, _phantom: PhantomData }
    }

    /// The child of `parent_id`: filtered on type and id, at most one row.
    pub fn query_for(&self, parent_id: SqlValue) -> (r: QueryBuilder<C>)
        ensures
            r@ == (QueryV {
                limit_val: Some(1),
                ..morph_query(self.child_table@, self.morph_key@, self.parent_type@, parent_id@)
            }),
    {
        morph_builder(self.child_table, self.morph_key, self.parent_type, parent_id).limit(1)
    }

    pub fn morph_key(&self) -> (r: &'static str)
        ensures
            r == self.morph_key,
    {
        self.morph_key
    }

    pub fn parent_type(&self) -> (r: &'static str)
        ensures
            r == self.parent_type,
    {
        self.parent_type
    }

    pub fn child_table(&self) -> (r: &'static str)
        ensures
            r == self.child_table,
    {
        self.child_table
    }
}

// ── MorphMany ────────────────────────────────────────────────────────────────

/// One-to-many polymorphic: a parent has many child rows via `{morph_key}_type/id`.
#[derive(Debug)]
pub struct MorphMany<P, C> {
    pub child_table: &'static str,
    pub morph_key: &'static str,
    pub parent_type: &'static str,
    pub _phantom: PhantomData<(P, C)>,
}

impl<P: Model, C: Model> MorphMany<P, C> {
    pub fn new(child_table: &'static str, morph_key: &'static str, parent_type: &'static str) -> (r: Self)
        ensures
            r.child_table == child_table,
            r.morph_key == morph_key,
            r.parent_type == parent_type,
    {
        MorphMany { child_table, morph_key, parent_type, _phantom: PhantomData }
    }

    /// The children of `parent_id`: filtered on type and id.
    pub fn query_for(&self, parent_id: SqlValue) -> (r: QueryBuilder<C>)
        ensures
            r@ == morph_query(self.child_table@, self.morph_key@, self.parent_type@, parent_id@),
    {
        morph_builder(self.child_table, self.morph_key, self.parent_type, parent_id)
    }

    /// An `INSERT` of a child with the morph type and id put first.
    pub fn create_sql(&self, parent_id: SqlValue, data: &[(&str, SqlValue)]) -> (r: (String, Vec<SqlValue>))
        requires
            data@.len() + 3 < usize::MAX,
        ensures
            r.0@ == insert_head(
                Dialect::Postgres,
                self.child_table@,
                seq![
                    (type_col_spec(self.morph_key@), SqlVal::Text(self.parent_type@)),
                    (id_col_spec(self.morph_key@), parent_id@),
                ] + data_view(data@),
                false,
            ),
            vals(r.1@) == pair_vals(
                seq![
                    (type_col_spec(self.morph_key@), SqlVal::Text(self.parent_type@)),
                    (id_col_spec(self.morph_key@), parent_id@),
                ] + data_view(data@),
            ),
    {
        let tc = cat_str(self.morph_key, "_type");
        let ic = cat_str(self.morph_key, "_id");
        let mut full: Vec<(&str, SqlValue)> = Vec::new();
        full.push((tc.as_str(), SqlValue::Text(owned(self.parent_type))));
        full.push((ic.as_str(), parent_id));
        let mut j: usize = 0;
        while j < data.len()
            invariant
                j <= data@.len(),
                full@.len() == 2 + j,
                data_view(full@) == seq![
                    (type_col_spec(self.morph_key@), SqlVal::Text(self.parent_type@)),
                    (id_col_spec(self.morph_key@), parent_id@),
                ] + data_view(data@.take(j as int)),
            decreases data.len() - j,
        {
            let v = data[j].1.duplicate();
            let ghost prev = full@;
            full.push((data[j].0, v));
            assert(data_view(full@) =~= data_view(prev).push((data@[j as int].0@, v@)));
            assert(data_view(data@.take(j + 1)) =~= data_view(data@.take(j as int)).push(
                (data@[j as int].0@, data@[j as int].1@),
            ));
            j = j + 1;
        }
        assert(data@.take(data@.len() as int) =~= data@);
        QueryBuilder::<C>::insert_sql(self.child_table, full.as_slice())
    }

    pub fn morph_key(&self) -> (r: &'static str)
        ensures
            r == self.morph_key,
    {
        self.morph_key
    }

    pub fn parent_type(&self) -> (r: &'static str)
        ensures
            r == self.parent_type,
    {
        self.parent_type
    }

    pub fn child_table(&self) -> (r: &'static str)
        ensures
            r == self.child_table,
    {
        self.child_table
    }
}

// ── MorphToRef ───────────────────────────────────────────────────────────────

/// Inverse of MorphOne/MorphMany: names the columns that point at the parent.
#[derive(Debug, Clone, Copy)]
pub struct MorphToRef {
    pub morph_key: &'static str,
}

impl MorphToRef {
    pub fn new(morph_key: &'static str) -> (r: Self)
        ensures
            r.morph_key == morph_key,
    {
        MorphToRef { morph_key }
    }

    /// The parent row of type `C` with primary key `morph_id`; the type string
    /// only decided which `C` the caller picked.
    pub fn query_for_type<C: Model>(&self, morph_type_val: &str, morph_id: SqlValue) -> (r: QueryBuilder<C>)
        ensures
            exists|table: &str, pk: &str|
                call_ensures(C::table_name, (), table) && call_ensures(C::primary_key, (), pk) && r@ == with_cond(
                    new_query(table@),
                    JoinOp::And,
                    CondV::Eq(pk@, morph_id@),
                ),
    {
        let table = C::table_name();
        let pk = C::primary_key();
        let r = QueryBuilder::<C>::new(table).where_eq(pk, morph_id);
        assert(call_ensures(C::table_name, (), table) && call_ensures(C::primary_key, (), pk) && r@ == with_cond(
            new_query(table@),
            JoinOp::And,
            CondV::Eq(pk@, morph_id@),
        ));
        r
    }

    pub fn morph_key(&self) -> (r: &'static str)
        ensures
            r == self.morph_key,
    {
        self.morph_key
    }

    /// `{morph_key}_type`.
    pub fn type_col(&self) -> (r: String)
        ensures
            r@ == type_col_spec(self.morph_key@),
    {
        cat_str(self.morph_key, "_type")
    }

    /// `{morph_key}_id`.
    pub fn id_col(&self) -> (r: String)
        ensures
            r@ == id_col_spec(self.morph_key@),
    {
        cat_str(self.morph_key, "_id")
    }
}

// ── MorphToMany ──────────────────────────────────────────────────────────────

/// Polymorphic many-to-many: parent → pivot(`{key}_type`, `{key}_id`, related_fk) → related.
#[derive(Debug)]
pub struct MorphToMany<P, C> {
    pub pivot_table: &'static str,
    pub morph_key: &'static str,
    pub parent_type: &'static str,
    pub related_fk: &'static str,
    pub related_table: &'static str,
    pub related_pk: &'static str,
    pub _phantom: PhantomData<(P, C)>,
}

impl<P: Model, C: Model> MorphToMany<P, C> {
    pub fn new(
        pivot_table: &'static str,
        morph_key: &'static str,
        parent_type: &'static str,
        related_fk: &'static str,
        related_table: &'static str,
        related_pk: &'static str,
    ) -> (r: Self)
        ensures
            r.pivot_table == pivot_table,
            r.morph_key == morph_key,
            r.parent_type == parent_type,
            r.related_fk == related_fk,
            r.related_table == related_table,
            r.related_pk == related_pk,
    {
        MorphToMany { pivot_table, morph_key, parent_type, related_fk, related_table, related_pk, _phantom: PhantomData }
    }

    /// The related rows of `parent_id`, joined through the pivot.
    pub fn query_for(&self, parent_id: SqlValue) -> (r: QueryBuilder<C>)
        ensures
            r@ == with_cond(
                with_cond(
                    QueryV {
                        joins: seq![
                            JoinV::Inner(
                                self.pivot_table@,
                                dot(self.related_table@, self.related_pk@) + " = "@ + dot(
                                    self.pivot_table@,
                                    self.related_fk@,
                                ),
                            ),
                        ],
                        ..new_query(self.related_table@)
                    },
                    JoinOp::And,
                    CondV::Eq(
                        dot(self.pivot_table@, type_col_spec(self.morph_key@)),
                        SqlVal::Text(self.parent_type@),
                    ),
                ),
                JoinOp::And,
                CondV::Eq(dot(self.pivot_table@, id_col_spec(self.morph_key@)), parent_id@),
            ),
    {
        let mut on = dotted(self.related_table, self.related_pk);
        append(&mut on, " = ");
        let rhs = dotted(self.pivot_table, self.related_fk);
        append(&mut on, rhs.as_str());
        let tc = cat_str(self.morph_key, "_type");
        let ic = cat_str(self.morph_key, "_id");
        let ptc = dotted(self.pivot_table, tc.as_str());
        let pic = dotted(self.pivot_table, ic.as_str());
        let q = QueryBuilder::<C>::new(self.related_table).inner_join(self.pivot_table, on.as_str());
        assert(q@.joins =~= seq![JoinV::Inner(self.pivot_table@, on@)]);
        q.where_eq(ptc.as_str(), self.parent_type).where_eq(pic.as_str(), parent_id)
    }

    /// `INSERT INTO pivot ({key}_type, {key}_id, related_fk) VALUES ($1, $2, $3)`.
    pub fn attach_sql(&self, parent_id: SqlValue, related_id: SqlValue) -> (r: (String, Vec<SqlValue>))
        ensures
            r.0@ == "INSERT INTO "@ + self.pivot_table@ + " ("@ + type_col_spec(self.morph_key@) + ", "@
                + id_col_spec(self.morph_key@) + ", "@ + self.related_fk@ + ") VALUES ($1, $2, $3)"@,
            vals(r.1@) == seq![SqlVal::Text(self.parent_type@), parent_id@, related_id@],
    {
        let mut sql = owned("INSERT INTO ");
        append(&mut sql, self.pivot_table);
        append(&mut sql, " (");
        append(&mut sql, self.morph_key);
        append(&mut sql, "_type");
        append(&mut sql, ", ");
        append(&mut sql, self.morph_key);
        append(&mut sql, "_id");
        append(&mut sql, ", ");
        append(&mut sql, self.related_fk);
        append(&mut sql, ") VALUES ($1, $2, $3)");
        assert(sql@ =~= "INSERT INTO "@ + self.pivot_table@ + " ("@ + type_col_spec(self.morph_key@) + ", "@
            + id_col_spec(self.morph_key@) + ", "@ + self.related_fk@ + ") VALUES ($1, $2, $3)"@);
        let params = vec![SqlValue::Text(owned(self.parent_type)), parent_id, related_id];
        assert(vals(params@) =~= seq![SqlVal::Text(self.parent_type@), parent_id@, related_id@]);
        (sql, params)
    }

    /// `DELETE FROM pivot WHERE {key}_type = $1 AND {key}_id = $2 AND related_fk = $3`.
    pub fn detach_sql(&self, parent_id: SqlValue, related_id: SqlValue) -> (r: (String, Vec<SqlValue>))
        ensures
            r.0@ == "DELETE FROM "@ + self.pivot_table@ + " WHERE "@ + type_col_spec(self.morph_key@)
                + " = $1 AND "@ + id_col_spec(self.morph_key@) + " = $2 AND "@ + self.related_fk@
                + " = $3"@,
            vals(r.1@) == seq![SqlVal::Text(self.parent_type@), parent_id@, related_id@],
    {
        let mut sql = owned("DELETE FROM ");
        append(&mut sql, self.pivot_table);
        append(&mut sql, " WHERE ");
        append(&mut sql, self.morph_key);
        append(&mut sql, "_type");
        append(&mut sql, " = $1 AND ");
        append(&mut sql, self.morph_key);
        append(&mut sql, "_id");
        append(&mut sql, " = $2 AND ");
        append(&mut sql, self.related_fk);
        append(&mut sql, " = $3");
        assert(sql@ =~= "DELETE FROM "@ + self.pivot_table@ + " WHERE "@ + type_col_spec(self.morph_key@)
            + " = $1 AND "@ + id_col_spec(self.morph_key@) + " = $2 AND "@ + self.related_fk@ + " = $3"@);
        let params = vec![SqlValue::Text(owned(self.parent_type)), parent_id, related_id];
        assert(vals(params@) =~= seq![SqlVal::Text(self.parent_type@), parent_id@, related_id@]);
        (sql, params)
    }

    /// `SELECT related_fk FROM pivot WHERE {key}_type = $1 AND {key}_id = $2`.
    pub fn sync_current_ids_sql(&self, parent_id: SqlValue) -> (r: (String, Vec<SqlValue>))
        ensures
            r.0@ == "SELECT "@ + self.related_fk@ + " FROM "@ + self.pivot_table@ + " WHERE "@
                + type_col_spec(self.morph_key@) + " = $1 AND "@ + id_col_spec(self.morph_key@)
                + " = $2"@,
            vals(r.1@) == seq![SqlVal::Text(self.parent_type@), parent_id@],
    {
        let mut sql = owned("SELECT ");
        append(&mut sql, self.related_fk);
        append(&mut sql, " FROM ");
        append(&mut sql, self.pivot_table);
        append(&mut sql, " WHERE ");
        append(&mut sql, self.morph_key);
        append(&mut sql, "_type");
        append(&mut sql, " = $1 AND ");
        append(&mut sql, self.morph_key);
        append(&mut sql, "_id");
        append(&mut sql, " = $2");
        assert(sql@ =~= "SELECT "@ + self.related_fk@ + " FROM "@ + self.pivot_table@ + " WHERE "@
            + type_col_spec(self.morph_key@) + " = $1 AND "@ + id_col_spec(self.morph_key@) + " = $2"@);
        let params = vec![SqlValue::Text(owned(self.parent_type)), parent_id];
        assert(vals(params@) =~= seq![SqlVal::Text(self.parent_type@), parent_id@]);
        (sql, params)
    }
}

// ── MorphedByMany ─────────────────────────────────────────────────────────────

/// Inverse of MorphToMany: a related model → pivot → parents of one type.
#[derive(Debug)]
pub struct MorphedByMany<P, C> {
    pub pivot_table: &'static str,
    pub morph_key: &'static str,
    /// The type string stored for the parents (e.g. `"posts"`).
    pub related_type: &'static str,
    /// The pivot column pointing at this model.
    pub left_fk: &'static str,
    pub parent_table: &'static str,
    pub parent_pk: &'static str,
    pub _phantom: PhantomData<(P, C)>,
}

impl<P: Model, C: Model> MorphedByMany<P, C> {
    pub fn new(
        pivot_table: &'static str,
        morph_key: &'static str,
        related_type: &'static str,
        left_fk: &'static str,
        parent_table: &'static str,
        parent_pk: &'static str,
    ) -> (r: Self)
        ensures
            r.pivot_table == pivot_table,
            r.morph_key == morph_key,
            r.related_type == related_type,
            r.left_fk == left_fk,
            r.parent_table == parent_table,
            r.parent_pk == parent_pk,
    {
        MorphedByMany { pivot_table, morph_key, related_type, left_fk, parent_table, parent_pk, _phantom: PhantomData }
    }

    /// The parents related to `self_id`, joined through the pivot on id and type.
    pub fn query_for(&self, self_id: SqlValue) -> (r: QueryBuilder<C>)
        ensures
            r@ == with_cond(
                QueryV {
                    joins: seq![
                        JoinV::Inner(
                            self.pivot_table@,
                            dot(self.parent_table@, self.parent_pk@) + " = "@ + dot(
                                self.pivot_table@,
                                id_col_spec(self.morph_key@),
                            ) + " AND "@ + dot(self.pivot_table@, type_col_spec(self.morph_key@))
                                + " = '"@ + self.related_type@ + seq!['\''],
                        ),
                    ],
                    ..new_query(self.parent_table@)
                },
                JoinOp::And,
                CondV::Eq(dot(self.pivot_table@, self.left_fk@), self_id@),
            ),
    {
        let mut on = dotted(self.parent_table, self.parent_pk);
        append(&mut on, " = ");
        let ic = cat_str(self.morph_key, "_id");
        let a = dotted(self.pivot_table, ic.as_str());
        append(&mut on, a.as_str());
        append(&mut on, " AND ");
        let tc = cat_str(self.morph_key, "_type");
        let b = dotted(self.pivot_table, tc.as_str());
        append(&mut on, b.as_str());
        append(&mut on, " = '");
        append(&mut on, self.related_type);
        push_char(&mut on, '\'');
        let fk = dotted(self.pivot_table, self.left_fk);
        assert(on@ =~= dot(self.parent_table@, self.parent_pk@) + " = "@ + dot(self.pivot_table@, id_col_spec(self.morph_key@))
            + " AND "@ + dot(self.pivot_table@, type_col_spec(self.morph_key@)) + " = '"@ + self.related_type@ + seq!['\'']);
        let q = QueryBuilder::<C>::new(self.parent_table).inner_join(self.pivot_table, on.as_str());
        assert(q@.joins =~= seq![JoinV::Inner(self.pivot_table@, on@)]);
        q.where_eq(fk.as_str(), self_id)
    }
}

} // verus!
