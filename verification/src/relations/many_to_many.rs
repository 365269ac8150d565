//! Many-to-many relation through a pivot table, its SQL, and the plans that
//! `sync` and `toggle` carry out.

use std::marker::PhantomData;
use vstd::prelude::*;
use crate::model::Model;
use crate::text::{append, dot, dotted, join, lemma_views_push, nat_dec, owned, seq_join, usize_dec, views};
use crate::query::builder::{QueryBuilder, QueryV, data_view, new_query, with_cond};
use crate::query::condition::{CondV, ph_list, ph_vec};
use crate::query::sql_gen::{pair_vals, set_clauses, set_list, owned_pairs};
use crate::query::sql_write::data_cols;
use crate::query::value::{Dialect, JoinOp, JoinV, SqlVal, SqlValue, lemma_vals_push, vals};
use super::has_many::prepend_pair;

verus! {

/// Many-to-many: the related rows of a parent are the `related_table` rows
/// joined to the pivot rows whose `left_key` holds the parent's id.
#[derive(Debug)]
pub struct ManyToMany<P: Model, C: Model> {
    pub pivot_table: String,
    pub left_key: String,
    pub right_key: String,
    pub related_table: &'static str,
    pub related_pk: &'static str,
    pub pivot_columns: Vec<String>,
    pub _phantom: PhantomData<(P, C)>,
}

/// The select list of a query with pivot columns: `*` and each `pivot.col`.
pub open spec fn pivot_select(pivot: Seq<char>, cols: Seq<Seq<char>>) -> Seq<Seq<char>> {
    seq![seq!['*']] + cols.map_values(|c: Seq<char>| dot(pivot, c))
}

impl<P: Model, C: Model> ManyToMany<P, C> {
    pub fn new(pivot_table: &str, left_key: &str, right_key: &str, related_table: &'static str, related_pk: &'static str) -> (r: Self)
        ensures
            r.pivot_table@ == pivot_table@,
            r.left_key@ == left_key@,
            r.right_key@ == right_key@,
            r.related_table == related_table,
            r.related_pk == related_pk,
            r.pivot_columns@.len() == 0,
    {
        ManyToMany {
            pivot_table: owned(pivot_table),
            left_key: owned(left_key),
            right_key: owned(right_key),
            related_table,
            related_pk,
            pivot_columns: Vec::new(),
            _phantom: PhantomData,
        }
    }

    pub fn pivot_table_name(&self) -> (r: &str)
        ensures
            r@ == self.pivot_table@,
    {
        self.pivot_table.as_str()
    }

    pub fn left_key_name(&self) -> (r: &str)
        ensures
            r@ == self.left_key@,
    {
        self.left_key.as_str()
    }

    pub fn right_key_name(&self) -> (r: &str)
        ensures
            r@ == self.right_key@,
    {
        self.right_key.as_str()
    }

    /// Also select these pivot columns.
    pub fn with_pivot(self, cols: &[&str]) -> (r: Self)
        ensures
            views(r.pivot_columns@) == crate::query::builder::strs(cols@),
            r.pivot_table == self.pivot_table,
            r.left_key == self.left_key,
            r.right_key == self.right_key,
            r.related_table == self.related_table,
            r.related_pk == self.related_pk,
    {
        let mut s = self;
        s.pivot_columns = crate::query::builder::owned_all(cols);
        s
    }

    /// The related rows of `parent_id`, with the pivot columns when asked for.
    pub fn query_for(&self, parent_id: SqlValue) -> (r: QueryBuilder<C>)
        ensures
            ({
                let base = with_cond(
                    QueryV {
                        joins: seq![
                            JoinV::Inner(
                                self.pivot_table@,
                                dot(self.related_table@, self.related_pk@) + " = "@ + dot(
                                    self.pivot_table@,
                                    self.right_key@,
                                ),
                            ),
                        ],
                        ..new_query(self.related_table@)
                    },
                    JoinOp::And,
                    CondV::Eq(dot(self.pivot_table@, self.left_key@), parent_id@),
                );
                r@ == if self.pivot_columns@.len() == 0 {
                    base
                } else {
                    QueryV {
                        select_cols: Some(pivot_select(self.pivot_table@, views(self.pivot_columns@))),
                        ..base
                    }
                }
            }),
    {
        let mut on = dotted(self.related_table, self.related_pk);
        append(&mut on, " = ");
        let rhs = dotted(self.pivot_table.as_str(), self.right_key.as_str());
        append(&mut on, rhs.as_str());
        let fk = dotted(self.pivot_table.as_str(), self.left_key.as_str());
        let q = QueryBuilder::<C>::new(self.related_table).inner_join(self.pivot_table.as_str(), on.as_str());
        assert(q@.joins =~= seq![JoinV::Inner(self.pivot_table@, on@)]);
        let mut qb = q.where_eq(fk.as_str(), parent_id);
        if self.pivot_columns.len() > 0 {
            let ghost target = pivot_select(self.pivot_table@, views(self.pivot_columns@));
            let mut all: Vec<String> = Vec::new();
            let mut star = String::new();
            crate::text::push_char(&mut star, '*');
            all.push(star);
            let mut i: usize = 0;
            while i < self.pivot_columns.len()
                invariant
                    i <= self.pivot_columns@.len(),
                    target == pivot_select(self.pivot_table@, views(self.pivot_columns@)),
                    views(all@) == target.take(i + 1),
                decreases self.pivot_columns.len() - i,
            {
                let c = dotted(self.pivot_table.as_str(), self.pivot_columns[i].as_str());
                let ghost prev = all@;
                all.push(c);
                proof { lemma_views_push(prev, c); }
                assert(views(all@) =~= target.take(i + 2));
                i = i + 1;
            }
            assert(target.take(self.pivot_columns@.len() + 1 as int) =~= target);
            qb.select_cols = Some(all);
        }
        qb
    }

    /// `INSERT INTO pivot (left_key, right_key) VALUES ($1, $2)`.
    pub fn attach_sql(&self, parent_id: SqlValue, related_id: SqlValue) -> (r: (String, Vec<SqlValue>))
        ensures
            r.0@ == "INSERT INTO "@ + self.pivot_table@ + " ("@ + self.left_key@ + ", "@ + self.right_key@
                + ") VALUES ($1, $2)"@,
            vals(r.1@) == seq![parent_id@, related_id@],
    {
        let mut sql = owned("INSERT INTO ");
        append(&mut sql, self.pivot_table.as_str());
        append(&mut sql, " (");
        append(&mut sql, self.left_key.as_str());
        append(&mut sql, ", ");
        append(&mut sql, self.right_key.as_str());
        append(&mut sql, ") VALUES ($1, $2)");
        let params = vec![parent_id, related_id];
        assert(vals(params@) =~= seq![parent_id@, related_id@]);
        (sql, params)
    }

    /// `INSERT INTO pivot (left_key, right_key, extra cols…) VALUES ($1, …)`.
    pub fn attach_with_pivot_sql(&self, parent_id: SqlValue, related_id: SqlValue, extra: &[(&str, SqlValue)]) -> (r: (
        String,
        Vec<SqlValue>,
    ))
        requires
            extra@.len() + 3 < usize::MAX,
        ensures
            r.0@ == "INSERT INTO "@ + self.pivot_table@ + " ("@ + seq_join(
                data_cols(seq![(self.left_key@, parent_id@), (self.right_key@, related_id@)] + data_view(extra@)),
                ", "@,
            ) + ") VALUES ("@ + seq_join(ph_list(1, extra@.len() + 2), ", "@) + seq![')'],
            vals(r.1@) == seq![parent_id@, related_id@] + pair_vals(data_view(extra@)),
    {
        let tail = prepend_pair(self.right_key.as_str(), related_id, extra);
        let all = prepend_pair(self.left_key.as_str(), parent_id, tail.as_slice());
        assert(data_view(all@) =~= seq![(self.left_key@, parent_id@), (self.right_key@, related_id@)] + data_view(extra@));
        let (sql, params) = QueryBuilder::<C>::insert_sql(self.pivot_table.as_str(), all.as_slice());
        assert(pair_vals(data_view(all@)) =~= seq![parent_id@, related_id@] + pair_vals(data_view(extra@)));
        (sql, params)
    }

    /// `DELETE FROM pivot WHERE left_key = $1 AND right_key = $2`.
    pub fn detach_sql(&self, parent_id: SqlValue, related_id: SqlValue) -> (r: (String, Vec<SqlValue>))
        ensures
            r.0@ == "DELETE FROM "@ + self.pivot_table@ + " WHERE "@ + self.left_key@ + " = $1 AND "@
                + self.right_key@ + " = $2"@,
            vals(r.1@) == seq![parent_id@, related_id@],
    {
        let mut sql = owned("DELETE FROM ");
        append(&mut sql, self.pivot_table.as_str());
        append(&mut sql, " WHERE ");
        append(&mut sql, self.left_key.as_str());
        append(&mut sql, " = $1 AND ");
        append(&mut sql, self.right_key.as_str());
        append(&mut sql, " = $2");
        let params = vec![parent_id, related_id];
        assert(vals(params@) =~= seq![parent_id@, related_id@]);
        (sql, params)
    }

    /// `DELETE FROM pivot WHERE left_key = $1`.
    pub fn detach_all_sql(&self, parent_id: SqlValue) -> (r: (String, Vec<SqlValue>))
        ensures
            r.0@ == "DELETE FROM "@ + self.pivot_table@ + " WHERE "@ + self.left_key@ + " = $1"@,
            vals(r.1@) == seq![parent_id@],
    {
        let mut sql = owned("DELETE FROM ");
        append(&mut sql, self.pivot_table.as_str());
        append(&mut sql, " WHERE ");
        append(&mut sql, self.left_key.as_str());
        append(&mut sql, " = $1");
        let params = vec![parent_id];
        assert(vals(params@) =~= seq![parent_id@]);
        (sql, params)
    }

    /// `SELECT right_key FROM pivot WHERE left_key = $1`.
    pub fn current_ids_sql(&self, parent_id: SqlValue) -> (r: (String, Vec<SqlValue>))
        ensures
            r.0@ == "SELECT "@ + self.right_key@ + " FROM "@ + self.pivot_table@ + " WHERE "@ + self.left_key@
                + " = $1"@,
            vals(r.1@) == seq![parent_id@],
    {
        let mut sql = owned("SELECT ");
        append(&mut sql, self.right_key.as_str());
        append(&mut sql, " FROM ");
        append(&mut sql, self.pivot_table.as_str());
        append(&mut sql, " WHERE ");
        append(&mut sql, self.left_key.as_str());
        append(&mut sql, " = $1");
        let params = vec![parent_id];
        assert(vals(params@) =~= seq![parent_id@]);
        (sql, params)
    }

    /// `UPDATE pivot SET c1 = $1, … WHERE left_key = $n+1 AND right_key = $n+2`.
    pub fn update_pivot_sql(&self, parent_id: SqlValue, related_id: SqlValue, data: &[(&str, SqlValue)]) -> (r: (
        String,
        Vec<SqlValue>,
    ))
        requires
            data@.len() + 3 < usize::MAX,
        ensures
            r.0@ == "UPDATE "@ + self.pivot_table@ + " SET "@ + seq_join(set_list(Dialect::Postgres, data_view(data@)), ", "@)
                + " WHERE "@ + self.left_key@ + " = $"@ + nat_dec(data@.len() + 1) + " AND "@ + self.right_key@
                + " = $"@ + nat_dec(data@.len() + 2),
            vals(r.1@) == pair_vals(data_view(data@)) + seq![parent_id@, related_id@],
    {
        let pairs = owned_pairs(data);
        let mut params: Vec<SqlValue> = Vec::new();
        let sets = set_clauses(Dialect::Postgres, &pairs, &mut params);
        let ghost p0 = params@;
        params.push(parent_id);
        params.push(related_id);
        proof {
            lemma_vals_push(p0, parent_id);
            lemma_vals_push(p0.push(parent_id), related_id);
        }
        assert(vals(params@) =~= pair_vals(data_view(data@)) + seq![parent_id@, related_id@]);
        let n = data.len();
        let mut sql = owned("UPDATE ");
        append(&mut sql, self.pivot_table.as_str());
        append(&mut sql, " SET ");
        let s = join(&sets, ", ");
        append(&mut sql, s.as_str());
        append(&mut sql, " WHERE ");
        append(&mut sql, self.left_key.as_str());
        append(&mut sql, " = $");
        let a = usize_dec(n + 1);
        append(&mut sql, a.as_str());
        append(&mut sql, " AND ");
        append(&mut sql, self.right_key.as_str());
        append(&mut sql, " = $");
        let b = usize_dec(n + 2);
        append(&mut sql, b.as_str());
        (sql, params)
    }
}

// ── sync / toggle plans ─────────────────────────────────────────────────────

/// The ids of `wanted` that are not in `have`, in order.
pub open spec fn missing_from(wanted: Seq<i64>, have: Seq<i64>) -> Seq<i64>
    decreases wanted.len(),
{
    if wanted.len() == 0 {
        seq![]
    } else {
        let prev = missing_from(wanted.drop_last(), have);
        if have.contains(wanted.last()) {
            prev
        } else {
            prev.push(wanted.last())
        }
    }
}

/// One step of a toggle: attach the id (`true`) or detach it (`false`).
pub open spec fn toggle_steps(ids: Seq<i64>, current: Seq<i64>) -> Seq<(i64, bool)> {
    ids.map_values(|id: i64| (id, !current.contains(id)))
}

/// Whether `id` occurs in `v`.
fn contains_id(v: &[i64], id: i64) -> (r: bool)
    ensures
        r == v@.contains(id),
{
    let mut i: usize = 0;
    while i < v.len()
        invariant
            i <= v@.len(),
            forall|j: int| 0 <= j < i ==> v@[j] != id,
        decreases v.len() - i,
    {
        if v[i] == id {
            assert(v@[i as int] == id);
            return true;
        }
        i = i + 1;
    }
    false
}

/// The ids of `wanted` missing from `have`, in order.
fn missing_ids(wanted: &[i64], have: &[i64]) -> (r: Vec<i64>)
    ensures
        r@ == missing_from(wanted@, have@),
{
    let mut out: Vec<i64> = Vec::new();
    let mut i: usize = 0;
    while i < wanted.len()
        invariant
            i <= wanted@.len(),
            out@ == missing_from(wanted@.take(i as int), have@),
        decreases wanted.len() - i,
    {
        assert(wanted@.take(i + 1).drop_last() =~= wanted@.take(i as int));
        if !contains_id(have, wanted[i]) {
            out.push(wanted[i]);
        }
        i = i + 1;
    }
    assert(wanted@.take(wanted@.len() as int) =~= wanted@);
    out
}

/// What `sync` does: attach the desired ids not yet attached, in the order
/// desired, then detach the current ids not desired, in current order.
pub fn sync_plan(current: &[i64], desired: &[i64]) -> (r: (Vec<i64>, Vec<i64>))
    ensures
        r.0@ == missing_from(desired@, current@),
        r.1@ == missing_from(current@, desired@),
{
    (missing_ids(desired, current), missing_ids(current, desired))
}

/// What `toggle` does: for each id in order, detach it when it is currently
/// attached, else attach it.
pub fn toggle_plan(current: &[i64], ids: &[i64]) -> (r: Vec<(i64, bool)>)
    ensures
        r@ == toggle_steps(ids@, current@),
{
    let mut out: Vec<(i64, bool)> = Vec::new();
    let mut i: usize = 0;
    while i < ids.len()
        invariant
            i <= ids@.len(),
            out@ == toggle_steps(ids@.take(i as int), current@),
        decreases ids.len() - i,
    {
        let attach = !contains_id(current, ids[i]);
        out.push((ids[i], attach));
        assert(out@ =~= toggle_steps(ids@.take(i + 1), current@));
        i = i + 1;
    }
    assert(ids@.take(ids@.len() as int) =~= ids@);
    out
}

/// An id is missing from `have` among `wanted` exactly when `wanted` has it
/// and `have` does not.
pub proof fn lemma_missing_from(wanted: Seq<i64>, have: Seq<i64>, id: i64)
    ensures
        missing_from(wanted, have).contains(id) <==> (wanted.contains(id) && !have.contains(id)),
    decreases wanted.len(),
{
    if wanted.len() > 0 {
        let t = wanted.drop_last();
        lemma_missing_from(t, have, id);
        let prev = missing_from(t, have);
        let cur = missing_from(wanted, have);
        if cur.contains(id) {
            let k = choose|k: int| 0 <= k < cur.len() && cur[k] == id;
            if k < prev.len() {
                assert(prev[k] == id);
            } else {
                assert(wanted[wanted.len() - 1] == id);
            }
        }
        if wanted.contains(id) && !have.contains(id) {
            let k = choose|k: int| 0 <= k < wanted.len() && wanted[k] == id;
            if k < wanted.len() - 1 {
                assert(t[k] == id);
                let w = choose|w: int| 0 <= w < prev.len() && prev[w] == id;
                assert(cur[w] == id);
            } else {
                assert(cur[cur.len() - 1] == id);
            }
        }
        if t.contains(id) {
            let k = choose|k: int| 0 <= k < t.len() && t[k] == id;
            assert(wanted[k] == id);
        }
    }
}

/// After `sync`, the attached ids are exactly the desired ones: an id stays
/// or is attached exactly when it is desired.
pub proof fn lemma_sync_reaches_desired(current: Seq<i64>, desired: Seq<i64>, id: i64)
    ensures
        ((current.contains(id) && !missing_from(current, desired).contains(id)) || missing_from(desired, current).contains(
            id,
        )) <==> desired.contains(id),
{
    lemma_missing_from(current, desired, id);
    lemma_missing_from(desired, current, id);
}

/// `toggle` attaches each id that is not attached and detaches each one that is.
pub proof fn lemma_toggle_flips(current: Seq<i64>, ids: Seq<i64>, i: int)
    requires
        0 <= i < ids.len(),
    ensures
        toggle_steps(ids, current)[i] == (ids[i], !current.contains(ids[i])),
{
}

} // verus!
