//! One-to-many relation: a parent's children carry its id in a foreign key.

use std::marker::PhantomData;
use vstd::prelude::*;
use crate::model::Model;
use crate::text::{append, join, owned, seq_join, usize_dec, nat_dec};
use crate::query::builder::{QueryBuilder, QueryV, data_view, new_query, with_cond};
use crate::query::condition::CondV;
use crate::query::sql_gen::{pair_vals, set_list, set_clauses, owned_pairs};
use crate::query::sql_write::{bulk_groups, bulk_params, data_cols, insert_head, rows_total, rows_view};
use crate::query::value::{Dialect, JoinOp, SqlVal, SqlValue, lemma_vals_push, vals};
use super::traits::Relation;

verus! {

/// `data` with the pair `(col, val)` put first.
pub(crate) fn prepend_pair<'a>(col: &'a str, val: SqlValue, data: &[(&'a str, SqlValue)]) -> (r: Vec<(&'a str, SqlValue)>)
    ensures
        data_view(r@) == seq![(col@, val@)] + data_view(data@),
{
    let mut full: Vec<(&'a str, SqlValue)> = Vec::new();
    full.push((col, val));
    let mut j: usize = 0;
    while j < data.len()
        invariant
            j <= data@.len(),
            data_view(full@) == seq![(col@, val@)] + data_view(data@.take(j as int)),
        decreases data.len() - j,
    {
        let v = data[j].1.duplicate();
        let ghost prev = full@;
        full.push((data[j].0, v));
        assert(data_view(full@) =~= data_view(prev).push((data@[j as int].0@, v@)));
        assert(data_view(data@.take(j + 1)) =~= data_view(data@.take(j as int)).push(
            (data@[j as int].0@, data@[j as int].1@),
        ));
        j = j + 1;
    }
    assert(data@.take(data@.len() as int) =~= data@);
    full
}

/// `UPDATE child SET fk = $1 WHERE pk = $2`.
pub open spec fn associate_spec(child: Seq<char>, fk: Seq<char>, pk: Seq<char>) -> Seq<char> {
    "UPDATE "@ + child + " SET "@ + fk + " = $1 WHERE "@ + pk + " = $2"@
}

/// `UPDATE child SET fk = NULL WHERE pk = $1`.
pub open spec fn dissociate_spec(child: Seq<char>, fk: Seq<char>, pk: Seq<char>) -> Seq<char> {
    "UPDATE "@ + child + " SET "@ + fk + " = NULL WHERE "@ + pk + " = $1"@
}

/// `UPDATE child SET fk = $1, c1 = $2, … WHERE pk = $n` over `data` with the
/// foreign key put first.
pub open spec fn save_update_spec(child: Seq<char>, all: Seq<(Seq<char>, SqlVal)>, pk: Seq<char>) -> Seq<char> {
    "UPDATE "@ + child + " SET "@ + seq_join(set_list(Dialect::Postgres, all), ", "@) + " WHERE "@ + pk + " = $"@
        + nat_dec(all.len() + 1)
}

/// One-to-many: the children of a parent are the rows of `child_table` whose
/// `foreign_key` holds the parent's id.
#[derive(Debug)]
pub struct HasMany<P: Model, C: Model> {
    pub parent_table: &'static str,
    pub parent_pk: &'static str,
    pub child_pk: &'static str,
    pub child_table: &'static str,
    pub foreign_key: String,
    pub _phantom: PhantomData<(P, C)>,
}

impl<P: Model, C: Model> HasMany<P, C> {
    pub fn new(
        parent_table: &'static str,
        parent_pk: &'static str,
        child_table: &'static str,
        child_pk: &'static str,
        foreign_key: String,
    ) -> (r: Self)
        ensures
            r.parent_table == parent_table,
            r.parent_pk == parent_pk,
            r.child_table == child_table,
            r.child_pk == child_pk,
            r.foreign_key == foreign_key,
    {
        HasMany { parent_table, parent_pk, child_pk, child_table, foreign_key, _phantom: PhantomData }
    }

    /// The children of `parent_id`.
    pub fn query_for(&self, parent_id: SqlValue) -> (r: QueryBuilder<C>)
        ensures
            r@ == with_cond(new_query(self.child_table@), JoinOp::And, CondV::Eq(self.foreign_key@, parent_id@)),
    {
        QueryBuilder::new(self.child_table).where_eq(self.foreign_key.as_str(), parent_id)
    }

    pub fn foreign_key(&self) -> (r: &str)
        ensures
            r@ == self.foreign_key@,
    {
        self.foreign_key.as_str()
    }

    pub fn child_table(&self) -> (r: &str)
        ensures
            r@ == self.child_table@,
    {
        self.child_table
    }

    /// An `INSERT` of a child with the foreign key put first.
    pub fn create_sql(&self, parent_id: SqlValue, data: &[(&str, SqlValue)]) -> (r: (String, Vec<SqlValue>))
        requires
            data@.len() + 2 < usize::MAX,
        ensures
            r.0@ == insert_head(
                Dialect::Postgres,
                self.child_table@,
                seq![(self.foreign_key@, parent_id@)] + data_view(data@),
                false,
            ),
            vals(r.1@) == pair_vals(seq![(self.foreign_key@, parent_id@)] + data_view(data@)),
    {
        let full = prepend_pair(self.foreign_key.as_str(), parent_id, data);
        QueryBuilder::<C>::insert_sql(self.child_table, full.as_slice())
    }

    /// `UPDATE child SET fk = $1 WHERE pk = $2` with the parent id, then the
    /// child's key.
    pub fn associate_sql(&self, child_pk_val: SqlValue, parent_id: SqlValue) -> (r: (String, Vec<SqlValue>))
        ensures
            exists|pk: &str|
                call_ensures(C::primary_key, (), pk) && r.0@ == associate_spec(self.child_table@, self.foreign_key@, pk@),
            vals(r.1@) == seq![parent_id@, child_pk_val@],
    {
        let pk = C::primary_key();
        let mut sql = owned("UPDATE ");
        append(&mut sql, self.child_table);
        append(&mut sql, " SET ");
        append(&mut sql, self.foreign_key.as_str());
        append(&mut sql, " = $1 WHERE ");
        append(&mut sql, pk);
        append(&mut sql, " = $2");
        assert(sql@ =~= associate_spec(self.child_table@, self.foreign_key@, pk@));
        assert(call_ensures(C::primary_key, (), pk));
        let params = vec![parent_id, child_pk_val];
        assert(vals(params@) =~= seq![parent_id@, child_pk_val@]);
        (sql, params)
    }

    /// `UPDATE child SET fk = NULL WHERE pk = $1`.
    pub fn dissociate_sql(&self, child_pk_val: SqlValue) -> (r: (String, Vec<SqlValue>))
        ensures
            exists|pk: &str|
                call_ensures(C::primary_key, (), pk) && r.0@ == dissociate_spec(self.child_table@, self.foreign_key@, pk@),
            vals(r.1@) == seq![child_pk_val@],
    {
        let pk = C::primary_key();
        let mut sql = owned("UPDATE ");
        append(&mut sql, self.child_table);
        append(&mut sql, " SET ");
        append(&mut sql, self.foreign_key.as_str());
        append(&mut sql, " = NULL WHERE ");
        append(&mut sql, pk);
        append(&mut sql, " = $1");
        assert(sql@ =~= dissociate_spec(self.child_table@, self.foreign_key@, pk@));
        assert(call_ensures(C::primary_key, (), pk));
        let params = vec![child_pk_val];
        assert(vals(params@) =~= seq![child_pk_val@]);
        (sql, params)
    }

    /// Save a child: an `UPDATE` of the row with key `child_pk_val` when one is
    /// given (the foreign key set first), else the `INSERT` of [`create_sql`](Self::create_sql).
    pub fn save_sql(&self, parent_id: SqlValue, child_pk_val: Option<SqlValue>, data: &[(&str, SqlValue)]) -> (r: (
        String,
        Vec<SqlValue>,
    ))
        requires
            data@.len() + 2 < usize::MAX,
        ensures
            match child_pk_val {
                Some(pk_val) => (exists|pk: &str|
                    call_ensures(C::primary_key, (), pk) && r.0@ == save_update_spec(
                        self.child_table@,
                        seq![(self.foreign_key@, parent_id@)] + data_view(data@),
                        pk@,
                    )) && vals(r.1@) == pair_vals(seq![(self.foreign_key@, parent_id@)] + data_view(data@)).push(
                    pk_val@,
                ),
                None => r.0@ == insert_head(
                    Dialect::Postgres,
                    self.child_table@,
                    seq![(self.foreign_key@, parent_id@)] + data_view(data@),
                    false,
                ) && vals(r.1@) == pair_vals(seq![(self.foreign_key@, parent_id@)] + data_view(data@)),
            },
    {
        match child_pk_val {
            Some(pk_val) => {
                let all = prepend_pair(self.foreign_key.as_str(), parent_id, data);
                let pairs = owned_pairs(all.as_slice());
                let mut params: Vec<SqlValue> = Vec::new();
                let sets = set_clauses(Dialect::Postgres, &pairs, &mut params);
                let ghost before = params@;
                params.push(pk_val);
                proof {
                    lemma_vals_push(before, pk_val);
                    assert(vals(before) =~= pair_vals(data_view(all@)));
                }
                let pk = C::primary_key();
                let mut sql = owned("UPDATE ");
                append(&mut sql, self.child_table);
                append(&mut sql, " SET ");
                let s = join(&sets, ", ");
                append(&mut sql, s.as_str());
                append(&mut sql, " WHERE ");
                append(&mut sql, pk);
                append(&mut sql, " = $");
                let n = usize_dec(params.len());
                append(&mut sql, n.as_str());
                assert(sql@ =~= save_update_spec(self.child_table@, data_view(all@), pk@));
                assert(call_ensures(C::primary_key, (), pk));
                (sql, params)
            },
            None => self.create_sql(parent_id, data),
        }
    }

    /// One `INSERT` of several children, each with the foreign key put first.
    pub fn create_many_sql(&self, parent_id: SqlValue, rows: &[&[(&str, SqlValue)]]) -> (r: (String, Vec<SqlValue>))
        requires
            rows@.len() > 0,
            rows@[0]@.len() + 2 < usize::MAX,
            1 + rows@.len() + rows_total(rows@.map_values(|row: &[(&str, SqlValue)]| data_view(row@))) <= usize::MAX,
        ensures
            r.0@ == "INSERT INTO "@ + self.child_table@ + " ("@ + seq_join(
                data_cols(seq![(self.foreign_key@, parent_id@)] + data_view(rows@[0]@)),
                ", "@,
            ) + ") VALUES "@ + seq_join(
                bulk_groups(
                    rows@.map_values(
                        |row: &[(&str, SqlValue)]| seq![(self.foreign_key@, parent_id@)] + data_view(row@),
                    ),
                ),
                ", "@,
            ),
            vals(r.1@) == bulk_params(
                rows@.map_values(|row: &[(&str, SqlValue)]| seq![(self.foreign_key@, parent_id@)] + data_view(row@)),
            ),
    {
        let ghost target = rows@.map_values(
            |row: &[(&str, SqlValue)]| seq![(self.foreign_key@, parent_id@)] + data_view(row@),
        );
        let ghost plain = rows@.map_values(|row: &[(&str, SqlValue)]| data_view(row@));
        let mut full_rows: Vec<Vec<(&str, SqlValue)>> = Vec::new();
        let mut i: usize = 0;
        while i < rows.len()
            invariant
                i <= rows@.len(),
                target == rows@.map_values(
                    |row: &[(&str, SqlValue)]| seq![(self.foreign_key@, parent_id@)] + data_view(row@),
                ),
                plain == rows@.map_values(|row: &[(&str, SqlValue)]| data_view(row@)),
                rows_view(full_rows@) == target.take(i as int),
                rows_total(target.take(i as int)) == i + rows_total(plain.take(i as int)),
            decreases rows.len() - i,
        {
            let row = prepend_pair(self.foreign_key.as_str(), parent_id.duplicate(), rows[i]);
            let ghost prev = full_rows@;
            full_rows.push(row);
            assert(rows_view(full_rows@) =~= rows_view(prev).push(data_view(row@)));
            assert(target.take(i + 1) =~= target.take(i as int).push(target[i as int]));
            assert(target.take(i + 1).drop_last() =~= target.take(i as int));
            assert(plain.take(i + 1).drop_last() =~= plain.take(i as int));
            i = i + 1;
        }
        assert(target.take(rows@.len() as int) =~= target);
        assert(plain.take(rows@.len() as int) =~= plain);
        proof {
            lemma_rows_total_le(plain, rows@.len() as int);
        }
        assert(rows_view(full_rows@)[0] == data_view(full_rows@[0]@));
        QueryBuilder::<C>::bulk_insert_sql(self.child_table, full_rows.as_slice())
    }
}

/// The values of a prefix of the rows number at most those of all rows.
proof fn lemma_rows_total_le(rows: Seq<Seq<(Seq<char>, SqlVal)>>, n: int)
    requires
        0 <= n <= rows.len(),
    ensures
        rows_total(rows.take(n)) <= rows_total(rows),
    decreases rows.len() - n,
{
    if n < rows.len() {
        lemma_rows_total_le(rows, n + 1);
        assert(rows.take(n + 1).drop_last() =~= rows.take(n));
    } else {
        assert(rows.take(n) =~= rows);
    }
}

impl<P: Model, C: Model> Relation<P, C> for HasMany<P, C> {
    fn query(&self, parent_id: SqlValue) -> (r: QueryBuilder<C>)
        ensures
            r@ == with_cond(new_query(self.child_table@), JoinOp::And, CondV::Eq(self.foreign_key@, parent_id@)),
    {
        self.query_for(parent_id)
    }

    fn foreign_key_value(&self, parent: &P) -> (r: SqlValue)
        ensures
            r@ == SqlVal::Null,
    {
        SqlValue::Null
    }
}

} // verus!
