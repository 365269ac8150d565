//! Static INSERT / UPSERT / batch-UPDATE SQL helpers for [`QueryBuilder`].

use vstd::prelude::*;
use crate::text::{append, join, lemma_views_push, owned, push_char, seq_join, views};
use super::builder::{QueryBuilder, conds_view, data_view};
use super::condition::{Condition, ph, ph_list, ph_str, ph_vec, q_list, q_vec};
use super::sql_gen::{build_where_from_dialect, pair_vals, params_total, set_list, set_clauses, owned_pairs, where_clause, all_conds};
use super::value::{Dialect, JoinOp, SqlVal, SqlValue, lemma_vals_push, vals};

verus! {

// ── specifications ─────────────────────────────────────────────────────────

/// The columns of column/value pairs, in order.
pub open spec fn data_cols(data: Seq<(Seq<char>, SqlVal)>) -> Seq<Seq<char>> {
    data.map_values(|p: (Seq<char>, SqlVal)| p.0)
}

/// `n` placeholders of a dialect: `$start`, `$start+1`, … for PostgreSQL,
/// `?` otherwise.
pub open spec fn placeholders(d: Dialect, start: nat, n: nat) -> Seq<Seq<char>> {
    if d == Dialect::Postgres {
        ph_list(start, n)
    } else {
        q_list(n)
    }
}

/// `INSERT [IGNORE] INTO table (c1, c2, …) VALUES (p1, p2, …)`.
pub open spec fn insert_head(d: Dialect, table: Seq<char>, data: Seq<(Seq<char>, SqlVal)>, ignore: bool) -> Seq<char> {
    (if ignore {
        "INSERT IGNORE INTO "@
    } else {
        "INSERT INTO "@
    }) + table + " ("@ + seq_join(data_cols(data), ", "@) + ") VALUES ("@ + seq_join(
        placeholders(d, 1, data.len()),
        ", "@,
    ) + seq![')']
}

/// `col = EXCLUDED.col` for each column.
pub open spec fn excluded_list(cols: Seq<&str>) -> Seq<Seq<char>> {
    Seq::new(cols.len(), |i: int| cols[i]@ + " = EXCLUDED."@ + cols[i]@)
}

/// `col = VALUES(col)` for each column.
pub open spec fn values_list(cols: Seq<&str>) -> Seq<Seq<char>> {
    Seq::new(cols.len(), |i: int| cols[i]@ + " = VALUES("@ + cols[i]@ + seq![')'])
}

/// The statement of `upsert_sql_with_dialect`.
pub open spec fn upsert_spec(d: Dialect, table: Seq<char>, data: Seq<(Seq<char>, SqlVal)>, conflict: Seq<char>, update: Seq<&str>) -> Seq<char> {
    if d == Dialect::Mysql {
        insert_head(d, table, data, false) + " ON DUPLICATE KEY UPDATE "@ + seq_join(values_list(update), ", "@)
    } else {
        insert_head(d, table, data, false) + " ON CONFLICT ("@ + conflict + ") DO UPDATE SET "@
            + seq_join(values_list(update), ", "@)
    }
}

// ── pieces ──────────────────────────────────────────────────────────────────

/// The columns of `data` joined with `, `.
fn col_list(data: &[(&str, SqlValue)]) -> (r: String)
    ensures
        r@ == seq_join(data_cols(data_view(data@)), ", "@),
{
    let ghost target = data_cols(data_view(data@));
    let mut names: Vec<String> = Vec::new();
    let mut i: usize = 0;
    while i < data.len()
        invariant
            i <= data@.len(),
            target == data_cols(data_view(data@)),
            views(names@) == target.take(i as int),
        decreases data.len() - i,
    {
        let n = owned(data[i].0);
        let ghost prev = names@;
        names.push(n);
        proof { lemma_views_push(prev, n); }
        assert(views(names@) =~= target.take(i + 1));
        i = i + 1;
    }
    assert(target.take(data@.len() as int) =~= target);
    join(&names, ", ")
}

/// Copies of the values of `data`, in order.
fn data_params(data: &[(&str, SqlValue)]) -> (r: Vec<SqlValue>)
    ensures
        vals(r@) == pair_vals(data_view(data@)),
{
    let ghost target = pair_vals(data_view(data@));
    let mut out: Vec<SqlValue> = Vec::new();
    let mut i: usize = 0;
    while i < data.len()
        invariant
            i <= data@.len(),
            target == pair_vals(data_view(data@)),
            vals(out@) == target.take(i as int),
        decreases data.len() - i,
    {
        let v = data[i].1.duplicate();
        let ghost prev = out@;
        out.push(v);
        proof { lemma_vals_push(prev, v); }
        assert(vals(out@) =~= target.take(i + 1));
        i = i + 1;
    }
    assert(target.take(data@.len() as int) =~= target);
    out
}

/// `n` placeholders of a dialect joined with `, `.
fn placeholder_list(d: Dialect, start: usize, n: usize) -> (r: String)
    requires
        start + n <= usize::MAX,
    ensures
        r@ == seq_join(placeholders(d, start as nat, n as nat), ", "@),
{
    let ps = match d {
        Dialect::Postgres => ph_vec(start, n),
        Dialect::Sqlite | Dialect::Mysql => q_vec(n),
    };
    join(&ps, ", ")
}

/// The `INSERT … VALUES (…)` head of a statement.
fn insert_head_exec(d: Dialect, table: &str, data: &[(&str, SqlValue)], ignore: bool) -> (r: String)
    requires
        data@.len() < usize::MAX,
    ensures
        r@ == insert_head(d, table@, data_view(data@), ignore),
{
    let mut sql = if ignore {
        owned("INSERT IGNORE INTO ")
    } else {
        owned("INSERT INTO ")
    };
    append(&mut sql, table);
    append(&mut sql, " (");
    let cols = col_list(data);
    append(&mut sql, cols.as_str());
    append(&mut sql, ") VALUES (");
    let ps = placeholder_list(d, 1, data.len());
    append(&mut sql, ps.as_str());
    push_char(&mut sql, ')');
    assert(data_view(data@).len() == data@.len());
    sql
}

/// `sep`-joined `col = EXCLUDED.col` or `col = VALUES(col)` clauses.
fn update_list(cols: &[&str], excluded: bool) -> (r: String)
    ensures
        r@ == seq_join(if excluded { excluded_list(cols@) } else { values_list(cols@) }, ", "@),
{
    let ghost target = if excluded { excluded_list(cols@) } else { values_list(cols@) };
    let mut parts: Vec<String> = Vec::new();
    let mut i: usize = 0;
    while i < cols.len()
        invariant
            i <= cols@.len(),
            target == (if excluded { excluded_list(cols@) } else { values_list(cols@) }),
            views(parts@) == target.take(i as int),
        decreases cols.len() - i,
    {
        let mut p = owned(cols[i]);
        if excluded {
            append(&mut p, " = EXCLUDED.");
            append(&mut p, cols[i]);
        } else {
            append(&mut p, " = VALUES(");
            append(&mut p, cols[i]);
            push_char(&mut p, ')');
        }
        assert(p@ == target[i as int]);
        let ghost prev = parts@;
        parts.push(p);
        proof { lemma_views_push(prev, p); }
        assert(views(parts@) =~= target.take(i + 1));
        i = i + 1;
    }
    assert(target.take(cols@.len() as int) =~= target);
    join(&parts, ", ")
}

// ── bulk insert ─────────────────────────────────────────────────────────────

/// The pairs of each row.
pub open spec fn rows_view(rows: Seq<Vec<(&str, SqlValue)>>) -> Seq<Seq<(Seq<char>, SqlVal)>> {
    rows.map_values(|r: Vec<(&str, SqlValue)>| data_view(r@))
}

/// The number of values of all rows.
pub open spec fn rows_total(rows: Seq<Seq<(Seq<char>, SqlVal)>>) -> nat
    decreases rows.len(),
{
    if rows.len() == 0 {
        0
    } else {
        rows_total(rows.drop_last()) + rows.last().len()
    }
}

/// `($a, $a+1, …)` for each row, numbered on from one row to the next.
pub open spec fn bulk_groups(rows: Seq<Seq<(Seq<char>, SqlVal)>>) -> Seq<Seq<char>>
    decreases rows.len(),
{
    if rows.len() == 0 {
        seq![]
    } else {
        bulk_groups(rows.drop_last()).push(
            seq!['('] + seq_join(ph_list(1 + rows_total(rows.drop_last()), rows.last().len()), ", "@)
                + seq![')'],
        )
    }
}

/// The values of all rows, row after row.
pub open spec fn bulk_params(rows: Seq<Seq<(Seq<char>, SqlVal)>>) -> Seq<SqlVal>
    decreases rows.len(),
{
    if rows.len() == 0 {
        seq![]
    } else {
        bulk_params(rows.drop_last()) + pair_vals(rows.last())
    }
}

/// The values of a prefix of the rows number at most those of all rows.
proof fn lemma_rows_total_prefix(rows: Seq<Seq<(Seq<char>, SqlVal)>>, n: int)
    requires
        0 <= n <= rows.len(),
    ensures
        rows_total(rows.take(n)) <= rows_total(rows),
    decreases rows.len() - n,
{
    if n < rows.len() {
        lemma_rows_total_prefix(rows, n + 1);
        assert(rows.take(n + 1).drop_last() =~= rows.take(n));
    } else {
        assert(rows.take(n) =~= rows);
    }
}

impl<T> QueryBuilder<T> {
    /// Build an `INSERT INTO` statement (PostgreSQL `$N` placeholders).
    pub fn insert_sql(table: &str, data: &[(&str, SqlValue)]) -> (r: (String, Vec<SqlValue>))
        requires
            data@.len() < usize::MAX,
        ensures
            r.0@ == insert_head(Dialect::Postgres, table@, data_view(data@), false),
            vals(r.1@) == pair_vals(data_view(data@)),
    {
        Self::insert_sql_with_dialect(Dialect::Postgres, table, data)
    }

    /// Build an `INSERT INTO` statement for the given dialect.
    pub fn insert_sql_with_dialect(dialect: Dialect, table: &str, data: &[(&str, SqlValue)]) -> (r: (
        String,
        Vec<SqlValue>,
    ))
        requires
            data@.len() < usize::MAX,
        ensures
            r.0@ == insert_head(dialect, table@, data_view(data@), false),
            vals(r.1@) == pair_vals(data_view(data@)),
    {
        (insert_head_exec(dialect, table, data, false), data_params(data))
    }

    /// Build an `INSERT INTO … VALUES …, …` statement for multiple rows.
    ///
    /// The columns are those of the first row; each row's placeholders are
    /// numbered on from the previous row's.
    pub fn bulk_insert_sql(table: &str, rows: &[Vec<(&str, SqlValue)>]) -> (r: (String, Vec<SqlValue>))
        requires
            rows@.len() > 0,
            1 + rows_total(rows_view(rows@)) <= usize::MAX,
            rows@[0]@.len() < usize::MAX,
        ensures
            r.0@ == "INSERT INTO "@ + table@ + " ("@ + seq_join(data_cols(data_view(rows@[0]@)), ", "@)
                + ") VALUES "@ + seq_join(bulk_groups(rows_view(rows@)), ", "@),
            vals(r.1@) == bulk_params(rows_view(rows@)),
    {
        let ghost rv = rows_view(rows@);
        let cols = col_list(rows[0].as_slice());
        let mut params: Vec<SqlValue> = Vec::new();
        let mut groups: Vec<String> = Vec::new();
        let mut offset: usize = 1;
        let mut i: usize = 0;
        while i < rows.len()
            invariant
                i <= rows@.len(),
                rv == rows_view(rows@),
                1 + rows_total(rv) <= usize::MAX,
                offset == 1 + rows_total(rv.take(i as int)),
                views(groups@) == bulk_groups(rv.take(i as int)),
                vals(params@) == bulk_params(rv.take(i as int)),
            decreases rows.len() - i,
        {
            let row = rows[i].as_slice();
            proof {
                lemma_rows_total_prefix(rv, i + 1);
                assert(rv.take(i + 1).drop_last() =~= rv.take(i as int));
                assert(rv.take(i + 1).last() == rv[i as int]);
                assert(rv[i as int] == data_view(rows@[i as int]@));
            }
            let ps = ph_vec(offset, row.len());
            let mut g = String::new();
            push_char(&mut g, '(');
            let inner = join(&ps, ", ");
            append(&mut g, inner.as_str());
            push_char(&mut g, ')');
            assert(rv[i as int].len() == row@.len());
            assert(g@ == seq!['('] + seq_join(ph_list(offset as nat, row@.len() as nat), ", "@) + seq![')']);
            let ghost prev = groups@;
            groups.push(g);
            proof { lemma_views_push(prev, g); }
            assert(views(groups@) =~= bulk_groups(rv.take(i + 1)));
            let vs = data_params(row);
            let ghost before = params@;
            let mut vs = vs;
            let ghost added = vs@;
            params.append(&mut vs);
            assert(vals(params@) =~= vals(before) + vals(added));
            assert(vals(params@) =~= bulk_params(rv.take(i + 1)));
            offset = offset + row.len();
            i = i + 1;
        }
        assert(rv.take(rows@.len() as int) =~= rv);
        let mut sql = owned("INSERT INTO ");
        append(&mut sql, table);
        append(&mut sql, " (");
        append(&mut sql, cols.as_str());
        append(&mut sql, ") VALUES ");
        let gs = join(&groups, ", ");
        append(&mut sql, gs.as_str());
        (sql, params)
    }

    /// Build an `UPDATE … SET … WHERE …` from explicit conditions
    /// (PostgreSQL placeholders).
    pub fn update_sql(table: &str, data: &[(&str, SqlValue)], conditions: &[(JoinOp, Condition)]) -> (r: (
        String,
        Vec<SqlValue>,
    ))
        requires
            data@.len() + 1 + params_total(conds_view(conditions@)) <= usize::MAX,
        ensures
            r.0@ == "UPDATE "@ + table@ + " SET "@ + seq_join(
                set_list(Dialect::Postgres, data_view(data@)),
                ", "@,
            ) + where_clause(Dialect::Postgres, conds_view(conditions@), data@.len() as nat).0,
            vals(r.1@) == pair_vals(data_view(data@)) + where_clause(
                Dialect::Postgres,
                conds_view(conditions@),
                data@.len() as nat,
            ).1,
    {
        let cols = owned_pairs(data);
        let mut params: Vec<SqlValue> = Vec::new();
        let sets = set_clauses(Dialect::Postgres, &cols, &mut params);
        assert(vals(params@) =~= pair_vals(data_view(data@)));
        let mut sql = owned("UPDATE ");
        append(&mut sql, table);
        append(&mut sql, " SET ");
        let s = join(&sets, ", ");
        append(&mut sql, s.as_str());
        assert(all_conds(conds_view(conditions@), None) == conds_view(conditions@));
        let w = build_where_from_dialect(Dialect::Postgres, conditions, None, &mut params);
        append(&mut sql, w.as_str());
        (sql, params)
    }

    /// `INSERT … ON CONFLICT (col) DO UPDATE SET col = EXCLUDED.col, …`
    /// (PostgreSQL placeholders).
    pub fn upsert_sql(table: &str, data: &[(&str, SqlValue)], conflict_column: &str, update_columns: &[&str]) -> (r: (
        String,
        Vec<SqlValue>,
    ))
        requires
            data@.len() < usize::MAX,
        ensures
            r.0@ == insert_head(Dialect::Postgres, table@, data_view(data@), false) + " ON CONFLICT ("@
                + conflict_column@ + ") DO UPDATE SET "@ + seq_join(excluded_list(update_columns@), ", "@),
            vals(r.1@) == pair_vals(data_view(data@)),
    {
        let mut sql = insert_head_exec(Dialect::Postgres, table, data, false);
        append(&mut sql, " ON CONFLICT (");
        append(&mut sql, conflict_column);
        append(&mut sql, ") DO UPDATE SET ");
        let u = update_list(update_columns, true);
        append(&mut sql, u.as_str());
        (sql, data_params(data))
    }

    /// An upsert for the given dialect: `ON CONFLICT (col) DO UPDATE SET
    /// col = VALUES(col), …`, or for MySQL `ON DUPLICATE KEY UPDATE …`.
    pub fn upsert_sql_with_dialect(
        dialect: Dialect,
        table: &str,
        data: &[(&str, SqlValue)],
        conflict_column: &str,
        update_columns: &[&str],
    ) -> (r: (String, Vec<SqlValue>))
        requires
            data@.len() < usize::MAX,
        ensures
            r.0@ == upsert_spec(dialect, table@, data_view(data@), conflict_column@, update_columns@),
            vals(r.1@) == pair_vals(data_view(data@)),
    {
        let mut sql = insert_head_exec(dialect, table, data, false);
        match dialect {
            Dialect::Mysql => {
                append(&mut sql, " ON DUPLICATE KEY UPDATE ");
            },
            Dialect::Postgres | Dialect::Sqlite => {
                append(&mut sql, " ON CONFLICT (");
                append(&mut sql, conflict_column);
                append(&mut sql, ") DO UPDATE SET ");
            },
        }
        let u = update_list(update_columns, false);
        append(&mut sql, u.as_str());
        (sql, data_params(data))
    }

    /// An insert that skips conflicting rows: `INSERT IGNORE` for MySQL,
    /// `ON CONFLICT (col) DO NOTHING` otherwise.
    pub fn upsert_do_nothing_sql(dialect: Dialect, table: &str, data: &[(&str, SqlValue)], conflict_column: &str) -> (r: (
        String,
        Vec<SqlValue>,
    ))
        requires
            data@.len() < usize::MAX,
        ensures
            r.0@ == (if dialect == Dialect::Mysql {
                insert_head(dialect, table@, data_view(data@), true)
            } else {
                insert_head(dialect, table@, data_view(data@), false) + " ON CONFLICT ("@ + conflict_column@
                    + ") DO NOTHING"@
            }),
            vals(r.1@) == pair_vals(data_view(data@)),
    {
        let sql = match dialect {
            Dialect::Mysql => insert_head_exec(dialect, table, data, true),
            Dialect::Postgres | Dialect::Sqlite => {
                let mut s = insert_head_exec(dialect, table, data, false);
                append(&mut s, " ON CONFLICT (");
                append(&mut s, conflict_column);
                append(&mut s, ") DO NOTHING");
                s
            },
        };
        (sql, data_params(data))
    }

    /// `INSERT IGNORE` for MySQL, a plain insert otherwise.
    pub fn insert_ignore_sql(dialect: Dialect, table: &str, data: &[(&str, SqlValue)]) -> (r: (String, Vec<SqlValue>))
        requires
            data@.len() < usize::MAX,
        ensures
            r.0@ == insert_head(dialect, table@, data_view(data@), dialect == Dialect::Mysql),
            vals(r.1@) == pair_vals(data_view(data@)),
    {
        let ignore = match dialect {
            Dialect::Mysql => true,
            Dialect::Postgres | Dialect::Sqlite => false,
        };
        (insert_head_exec(dialect, table, data, ignore), data_params(data))
    }

    /// `DELETE FROM table WHERE column IN (…)` (PostgreSQL placeholders).
    pub fn delete_in_sql(&self, column: &str, values: &[SqlValue]) -> (r: (String, Vec<SqlValue>))
        requires
            values@.len() < usize::MAX,
        ensures
            r.0@ == "DELETE FROM "@ + self@.table + " WHERE "@ + column@ + " IN ("@ + seq_join(
                placeholders(Dialect::Postgres, 1, values@.len()),
                ", "@,
            ) + seq![')'],
            vals(r.1@) == vals(values@),
    {
        self.to_delete_in_sql_with_dialect(Dialect::Postgres, column, values)
    }

    /// `DELETE FROM table WHERE column IN (…)` for the given dialect.
    pub fn to_delete_in_sql_with_dialect(&self, dialect: Dialect, column: &str, values: &[SqlValue]) -> (r: (
        String,
        Vec<SqlValue>,
    ))
        requires
            values@.len() < usize::MAX,
        ensures
            r.0@ == "DELETE FROM "@ + self@.table + " WHERE "@ + column@ + " IN ("@ + seq_join(
                placeholders(dialect, 1, values@.len()),
                ", "@,
            ) + seq![')'],
            vals(r.1@) == vals(values@),
    {
        let params = super::value::duplicate_all(values);
        let mut sql = owned("DELETE FROM ");
        append(&mut sql, self.table.as_str());
        append(&mut sql, " WHERE ");
        append(&mut sql, column);
        append(&mut sql, " IN (");
        let ps = placeholder_list(dialect, 1, values.len());
        append(&mut sql, ps.as_str());
        push_char(&mut sql, ')');
        (sql, params)
    }
}

// ── batch update ────────────────────────────────────────────────────────────

/// `WHEN $(j+1) THEN $(n+2j+1+i)`: the `j`-th case of the `i`-th column.
pub open spec fn case_item(i: nat, j: nat, n: nat) -> Seq<char> {
    "WHEN "@ + ph(j + 1) + " THEN "@ + ph(n + 2 * j + 1 + i)
}

/// `col = CASE WHEN … THEN … … END` for the `i`-th column of `n` updates.
pub open spec fn case_clause(col: Seq<char>, i: nat, n: nat) -> Seq<char> {
    col + " = CASE "@ + seq_join(Seq::new(n, |j: int| case_item(i, j as nat, n)), " "@) + " END"@
}

/// The `SET` clauses of a batch update, one per update.
pub open spec fn batch_sets(u: Seq<(i64, &str, SqlValue)>) -> Seq<Seq<char>> {
    Seq::new(u.len(), |i: int| case_clause(u[i].1@, i as nat, u.len()))
}

/// The parameters of a batch update: each value, then its id.
pub open spec fn batch_params(u: Seq<(i64, &str, SqlValue)>) -> Seq<SqlVal>
    decreases u.len(),
{
    if u.len() == 0 {
        seq![]
    } else {
        batch_params(u.drop_last()) + seq![u.last().2@, SqlVal::Integer(u.last().0)]
    }
}

/// The statement of a batch update; with no updates, a delete that matches nothing.
pub open spec fn batch_update_spec(table: Seq<char>, id_column: Seq<char>, u: Seq<(i64, &str, SqlValue)>) -> Seq<char> {
    if u.len() > 0 {
        "UPDATE "@ + table + " SET "@ + seq_join(batch_sets(u), ", "@) + " WHERE "@ + id_column + " IN ("@
            + seq_join(ph_list(u.len() + 1, u.len()), ", "@) + seq![')']
    } else {
        "DELETE FROM "@ + table + " WHERE 1=0"@
    }
}

/// The `CASE` clause of the `i`-th column of `n` updates.
fn case_clause_exec(col: &str, i: usize, n: usize) -> (r: String)
    requires
        i < n,
        n <= usize::MAX / 4,
    ensures
        r@ == case_clause(col@, i as nat, n as nat),
{
    let ghost target = Seq::new(n as nat, |j: int| case_item(i as nat, j as nat, n as nat));
    let mut items: Vec<String> = Vec::new();
    let mut j: usize = 0;
    while j < n
        invariant
            j <= n,
            i < n,
            n <= usize::MAX / 4,
            target == Seq::new(n as nat, |j: int| case_item(i as nat, j as nat, n as nat)),
            views(items@) == target.take(j as int),
        decreases n - j,
    {
        let mut it = owned("WHEN ");
        let a = ph_str(j + 1);
        append(&mut it, a.as_str());
        append(&mut it, " THEN ");
        let b = ph_str(n + 2 * j + 1 + i);
        append(&mut it, b.as_str());
        assert(it@ == target[j as int]);
        let ghost prev = items@;
        items.push(it);
        proof { lemma_views_push(prev, it); }
        assert(views(items@) =~= target.take(j + 1));
        j = j + 1;
    }
    assert(target.take(n as int) =~= target);
    let mut out = owned(col);
    append(&mut out, " = CASE ");
    let body = join(&items, " ");
    append(&mut out, body.as_str());
    append(&mut out, " END");
    out
}

impl<T> QueryBuilder<T> {
    /// One `UPDATE` for many rows: each column becomes a `CASE` over the
    /// updates, and the rows are those whose `id_column` is among the ids.
    pub fn update_batch_sql(table: &str, id_column: &str, updates: &[(i64, &str, SqlValue)]) -> (r: (
        String,
        Vec<SqlValue>,
    ))
        requires
            updates@.len() <= usize::MAX / 4,
        ensures
            r.0@ == batch_update_spec(table@, id_column@, updates@),
            vals(r.1@) == batch_params(updates@),
    {
        let n = updates.len();
        let mut params: Vec<SqlValue> = Vec::new();
        let mut k: usize = 0;
        while k < n
            invariant
                k <= n,
                n == updates@.len(),
                vals(params@) == batch_params(updates@.take(k as int)),
            decreases n - k,
        {
            assert(updates@.take(k + 1).drop_last() =~= updates@.take(k as int));
            let ghost prev = params@;
            let v = updates[k].2.duplicate();
            params.push(v);
            let id = SqlValue::Integer(updates[k].0);
            params.push(id);
            proof {
                lemma_vals_push(prev, v);
                lemma_vals_push(prev.push(v), id);
            }
            assert(vals(params@) =~= batch_params(updates@.take(k + 1)));
            k = k + 1;
        }
        assert(updates@.take(n as int) =~= updates@);
        if n == 0 {
            let mut sql = owned("DELETE FROM ");
            append(&mut sql, table);
            append(&mut sql, " WHERE 1=0");
            return (sql, params);
        }
        let ghost target = batch_sets(updates@);
        let mut sets: Vec<String> = Vec::new();
        let mut i: usize = 0;
        while i < n
            invariant
                i <= n,
                n == updates@.len(),
                n <= usize::MAX / 4,
                target == batch_sets(updates@),
                views(sets@) == target.take(i as int),
            decreases n - i,
        {
            let c = case_clause_exec(updates[i].1, i, n);
            let ghost prev = sets@;
            sets.push(c);
            proof { lemma_views_push(prev, c); }
            assert(views(sets@) =~= target.take(i + 1));
            i = i + 1;
        }
        assert(target.take(n as int) =~= target);
        let mut sql = owned("UPDATE ");
        append(&mut sql, table);
        append(&mut sql, " SET ");
        let s = join(&sets, ", ");
        append(&mut sql, s.as_str());
        append(&mut sql, " WHERE ");
        append(&mut sql, id_column);
        append(&mut sql, " IN (");
        let ids = ph_vec(n + 1, n);
        let w = join(&ids, ", ");
        append(&mut sql, w.as_str());
        push_char(&mut sql, ')');
        (sql, params)
    }
}

} // verus!
