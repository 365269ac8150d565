//! What a model's writes and batched reads do, apart from talking to the
//! database: the fields an insert or update carries, the statements of
//! increments and restores, and the steps of chunked iteration.

use vstd::prelude::*;
use crate::text::{append, owned};
use crate::query::builder::{QueryBuilder, QueryV, data_view, with_cond};
use crate::query::condition::CondV;
use crate::query::value::{JoinOp, OrderV, SqlVal, SqlValue, vals};

verus! {

// ── fields of writes ────────────────────────────────────────────────────────

/// `data` with `(pk, id)` put first when a new key is given.
pub open spec fn with_id_spec(data: Seq<(Seq<char>, SqlVal)>, pk: Seq<char>, id: Option<SqlVal>) -> Seq<(Seq<char>, SqlVal)> {
    match id {
        Some(v) => seq![(pk, v)] + data,
        None => data,
    }
}

/// `data` followed by `(col, now)` for each timestamp column, when stamping.
pub open spec fn stamped_spec(
    data: Seq<(Seq<char>, SqlVal)>,
    stamping: bool,
    created: Option<&str>,
    updated: Option<&str>,
    now: Seq<char>,
) -> Seq<(Seq<char>, SqlVal)> {
    if !stamping {
        data
    } else {
        let with_created = match created {
            Some(c) => data.push((c@, SqlVal::Text(now))),
            None => data,
        };
        match updated {
            Some(u) => with_created.push((u@, SqlVal::Text(now))),
            None => with_created,
        }
    }
}

/// The fields of an insert: a generated key, when the model makes one, first.
pub fn with_new_id<'a>(data: Vec<(&'a str, SqlValue)>, pk: &'a str, new_id: Option<SqlValue>) -> (r: Vec<(&'a str, SqlValue)>)
    ensures
        data_view(r@) == with_id_spec(
            data_view(data@),
            pk@,
            match new_id {
                Some(v) => Some(v@),
                None => None,
            },
        ),
{
    match new_id {
        Some(v) => {
            let mut d = data;
            let ghost before = d@;
            d.insert(0, (pk, v));
            assert(data_view(d@) =~= seq![(pk@, v@)] + data_view(before));
            d
        },
        None => data,
    }
}

/// The fields with timestamps added: when `stamping` (timestamps enabled and
/// not muted), the creation column and then the update column get `now`.
pub fn stamped<'a>(
    data: Vec<(&'a str, SqlValue)>,
    stamping: bool,
    created: Option<&'a str>,
    updated: Option<&'a str>,
    now: &str,
) -> (r: Vec<(&'a str, SqlValue)>)
    ensures
        data_view(r@) == stamped_spec(data_view(data@), stamping, created, updated, now@),
{
    let mut d = data;
    if stamping {
        let ghost d0 = d@;
        match created {
            Some(c) => {
                d.push((c, SqlValue::Text(owned(now))));
                assert(data_view(d@) =~= data_view(d0).push((c@, SqlVal::Text(now@))));
            },
            None => {},
        }
        let ghost d1 = d@;
        match updated {
            Some(u) => {
                d.push((u, SqlValue::Text(owned(now))));
                assert(data_view(d@) =~= data_view(d1).push((u@, SqlVal::Text(now@))));
            },
            None => {},
        }
    }
    d
}

// ── statements ──────────────────────────────────────────────────────────────

/// `UPDATE table SET column = column + $1 WHERE pk = $2` (or `-` when not `up`).
pub open spec fn increment_spec(table: Seq<char>, pk: Seq<char>, column: Seq<char>, up: bool) -> Seq<char> {
    "UPDATE "@ + table + " SET "@ + column + " = "@ + column + (if up { " + $1 WHERE "@ } else { " - $1 WHERE "@ }) + pk
        + " = $2"@
}

/// The statement that adds `delta` to `column` of the row `id` (subtracts it
/// when not `up`), and its parameters.
pub fn increment_sql(table: &str, pk: &str, column: &str, delta: i64, id: SqlValue, up: bool) -> (r: (String, Vec<SqlValue>))
    ensures
        r.0@ == increment_spec(table@, pk@, column@, up),
        vals(r.1@) == seq![SqlVal::Integer(delta), id@],
{
    let mut sql = owned("UPDATE ");
    append(&mut sql, table);
    append(&mut sql, " SET ");
    append(&mut sql, column);
    append(&mut sql, " = ");
    append(&mut sql, column);
    if up {
        append(&mut sql, " + $1 WHERE ");
    } else {
        append(&mut sql, " - $1 WHERE ");
    }
    append(&mut sql, pk);
    append(&mut sql, " = $2");
    assert(sql@ =~= increment_spec(table@, pk@, column@, up));
    let params = vec![SqlValue::Integer(delta), id];
    assert(vals(params@) =~= seq![SqlVal::Integer(delta), id@]);
    (sql, params)
}

/// A statement that returns the rows it writes: `sql RETURNING *`.
pub fn returning_all(sql: &str) -> (r: String)
    ensures
        r@ == sql@ + " RETURNING *"@,
{
    let mut out = owned(sql);
    append(&mut out, " RETURNING *");
    out
}

impl<T> QueryBuilder<T> {
    /// The builder that restores soft-deleted rows: trashed rows included and
    /// the soft-delete column set back to `NULL`; `None` when the model does
    /// not soft-delete.
    pub fn restoring(self, soft_delete_column: Option<&str>) -> (r: Option<Self>)
        ensures
            match soft_delete_column {
                None => r is None,
                Some(c) => r matches Some(q) && q@ == (QueryV {
                    soft_delete_mode: crate::query::value::SoftDeleteMode::Include,
                    update_columns: self@.update_columns.push((c@, SqlVal::Null)),
                    ..self@
                }),
            },
    {
        match soft_delete_column {
            Some(c) => Some(self.with_trashed().push_update_column(c, SqlValue::Null)),
            None => None,
        }
    }

    /// The builder filtered on `col = value` for each pair, in order.
    pub fn where_all(self, conditions: &[(&str, SqlValue)]) -> (r: Self)
        ensures
            r@ == (QueryV {
                conditions: self@.conditions + data_view(conditions@).map_values(
                    |p: (Seq<char>, SqlVal)| (JoinOp::And, CondV::Eq(p.0, p.1)),
                ),
                ..self@
            }),
    {
        let ghost base = self@;
        let ghost eqs = data_view(conditions@).map_values(|p: (Seq<char>, SqlVal)| (JoinOp::And, CondV::Eq(p.0, p.1)));
        let mut q = self;
        let mut i: usize = 0;
        while i < conditions.len()
            invariant
                i <= conditions@.len(),
                eqs == data_view(conditions@).map_values(|p: (Seq<char>, SqlVal)| (JoinOp::And, CondV::Eq(p.0, p.1))),
                q@ == (QueryV { conditions: base.conditions + eqs.take(i as int), ..base }),
            decreases conditions.len() - i,
        {
            let v = conditions[i].1.duplicate();
            q = q.where_eq(conditions[i].0, v);
            assert(eqs[i as int] == (JoinOp::And, CondV::Eq(conditions@[i as int].0@, conditions@[i as int].1@)));
            assert(base.conditions + eqs.take(i + 1) =~= (base.conditions + eqs.take(i as int)).push(eqs[i as int]));
            i = i + 1;
        }
        assert(eqs.take(conditions@.len() as int) =~= eqs);
        q
    }
}

// ── chunked iteration ───────────────────────────────────────────────────────

/// What to do with a batch of chunked iteration.
#[derive(Debug, Clone, Copy, PartialEq, Eq)]
pub enum ChunkStep {
    /// The batch is empty: stop without calling back.
    Done,
    /// Hand the batch over and fetch the next one.
    Deliver,
    /// Hand the batch over and stop.
    DeliverLast,
}

/// The batch at `offset` of chunked iteration.
pub fn chunk_page<T>(builder: &QueryBuilder<T>, chunk_size: usize, offset: usize) -> (r: QueryBuilder<T>)
    ensures
        r@ == (QueryV { limit_val: Some(chunk_size), offset_val: Some(offset), ..builder@ }),
{
    builder.clone().limit(chunk_size).offset(offset)
}

/// Chunking by offset: an empty batch ends it; otherwise the batch is handed
/// over and the next offset is past it.
pub fn chunk_next(offset: usize, batch_len: usize) -> (r: (ChunkStep, usize))
    requires
        offset + batch_len <= usize::MAX,
    ensures
        batch_len == 0 ==> r == (ChunkStep::Done, offset),
        batch_len > 0 ==> r == (ChunkStep::Deliver, (offset + batch_len) as usize),
{
    if batch_len == 0 {
        (ChunkStep::Done, offset)
    } else {
        (ChunkStep::Deliver, offset + batch_len)
    }
}

/// The batch after `last_id` of chunking by key: ordered by the key, at most
/// `chunk_size` rows, past the last key seen.
pub fn chunk_by_id_page<T>(builder: &QueryBuilder<T>, pk_col: &str, chunk_size: usize, last_id: Option<i64>) -> (r:
    QueryBuilder<T>)
    ensures
        ({
            let base = QueryV { order: builder@.order.push((pk_col@, OrderV::Asc)), limit_val: Some(chunk_size), ..builder@ };
            r@ == match last_id {
                Some(id) => with_cond(base, JoinOp::And, CondV::Gt(pk_col@, SqlVal::Integer(id))),
                None => base,
            }
        }),
{
    let q = builder.clone().order_by(pk_col).limit(chunk_size);
    match last_id {
        Some(id) => q.where_gt(pk_col, SqlValue::Integer(id)),
        None => q,
    }
}

/// Chunking by key: an empty batch ends it; a short batch is the last one.
pub fn chunk_by_id_next(batch_len: usize, chunk_size: usize) -> (r: ChunkStep)
    ensures
        r == (if batch_len == 0 {
            ChunkStep::Done
        } else if batch_len < chunk_size {
            ChunkStep::DeliverLast
        } else {
            ChunkStep::Deliver
        }),
{
    if batch_len == 0 {
        ChunkStep::Done
    } else if batch_len < chunk_size {
        ChunkStep::DeliverLast
    } else {
        ChunkStep::Deliver
    }
}

} // verus!
