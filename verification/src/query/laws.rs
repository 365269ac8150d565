//! What the builder's statements are for, stated over all inputs: pages
//! follow one another, an `EXISTS` filters as the query's `SELECT` does, an
//! upsert is an insert with an update on conflict, a decrement subtracts, and
//! each comparison renders its own operator.

use vstd::prelude::*;
use crate::text::seq_join;
use crate::persistence::increment_spec;
use super::aggregates::{aggregate_spec, exists_spec, pluck_spec};
use super::builder::{QueryV, page_offset, page_size};
use super::condition::{CondV, cond_literal, cond_pg, cond_q, ph};
use super::placeholders::{select_head, select_tail};
use super::sql_gen::{frag_spec, group_spec, limit_spec, order_spec, select_spec, soft_conds, where_clause};
use super::sql_write::{insert_head, upsert_spec};
use super::value::{Dialect, JoinOp, SqlVal, join_op_spec, literal_spec};

verus! {

/// Whether `t` occurs in `s` at position `i`.
pub open spec fn infix_at(s: Seq<char>, t: Seq<char>, i: int) -> bool {
    0 <= i <= s.len() - t.len() && s.subrange(i, i + t.len()) == t
}

/// Whether `t` occurs in `s`.
pub open spec fn has_infix(s: Seq<char>, t: Seq<char>) -> bool {
    exists|i: int| #[trigger] infix_at(s, t, i)
}

// ── pages ───────────────────────────────────────────────────────────────────

/// Pages follow one another: the page size is the asked size kept within 1
/// to 100, the first page (any page number up to 1) starts at row 0, and
/// each next page starts exactly one page size further on.
pub proof fn lemma_pages_follow(page: i64, per_page: i64)
    ensures
        1 <= page_size(per_page) <= 100,
        1 <= per_page <= 100 ==> page_size(per_page) == per_page,
        per_page < 1 ==> page_size(per_page) == 1,
        per_page > 100 ==> page_size(per_page) == 100,
        page <= 1 ==> page_offset(page, per_page) == 0,
        1 <= page < i64::MAX ==> page_offset((page + 1) as i64, per_page) == page_offset(page, per_page) + page_size(
            per_page,
        ),
        page_offset(page, per_page) >= 0,
{
    let s = page_size(per_page);
    if page <= 1 {
        assert((1int - 1) * s == 0) by (nonlinear_arith);
    }
    if page >= 1 {
        assert(((page + 1) as int - 1) * s == (page as int - 1) * s + s) by (nonlinear_arith);
        assert((page as int - 1) * s >= 0) by (nonlinear_arith)
            requires
                page >= 1,
                s >= 1,
        ;
    }
}

// ── EXISTS ──────────────────────────────────────────────────────────────────

/// A non-empty list of conditions makes a clause that starts with ` WHERE `.
pub proof fn lemma_where_starts(d: Dialect, conds: Seq<(JoinOp, CondV)>, start: nat)
    requires
        conds.len() > 0,
    ensures
        where_clause(d, conds, start).0.len() >= 7,
        where_clause(d, conds, start).0.subrange(0, 7) == " WHERE "@,
    decreases conds.len(),
{
    reveal_strlit(" WHERE ");
    let prev = where_clause(d, conds.drop_last(), start);
    let frag = frag_spec(d, conds.last().1, start + prev.1.len() + 1);
    if conds.len() == 1 {
        assert(prev.0 =~= Seq::<char>::empty());
        assert(where_clause(d, conds, start).0 =~= " WHERE "@ + frag);
        assert(where_clause(d, conds, start).0.subrange(0, 7) =~= " WHERE "@);
    } else {
        lemma_where_starts(d, conds.drop_last(), start);
        let sep = seq![' '] + join_op_spec(conds.last().0) + seq![' '];
        let w = where_clause(d, conds, start).0;
        assert(w =~= prev.0 + (sep + frag));
        assert(w.subrange(0, 7) =~= prev.0.subrange(0, 7));
    }
}

/// An `EXISTS` statement filters exactly as the query's `SELECT` does: it
/// holds the same `WHERE` clause (the query's conditions and its soft-delete
/// filter, numbered from the first parameter) and binds the same
/// parameters; a query with any condition or soft-delete filter gives a
/// statement with ` WHERE ` in it.
pub proof fn lemma_exists_filters_as_select(q: QueryV, d: Dialect)
    requires
        q.ctes.len() == 0,
        q.cte_params.len() == 0,
        q.having_rank_n is None,
        q.from_override is None,
    ensures
        exists|w: Seq<char>|
            select_spec(q, d).0 == select_head(q) + w + select_tail(q) && exists_spec(q, d).0
                == "SELECT EXISTS(SELECT 1 FROM "@ + q.table + joins_spec_of(q) + w + seq![')'],
        exists_spec(q, d).1 == select_spec(q, d).1,
        soft_conds(q).len() > 0 ==> has_infix(exists_spec(q, d).0, " WHERE "@),
{
    let w = where_clause(d, soft_conds(q), 0);
    assert(select_spec(q, d).0 =~= select_head(q) + w.0 + select_tail(q));
    assert(select_spec(q, d).1 =~= w.1);
    assert(exists_spec(q, d).0 == "SELECT EXISTS(SELECT 1 FROM "@ + q.table + joins_spec_of(q) + w.0 + seq![')']);
    if soft_conds(q).len() > 0 {
        lemma_where_starts(d, soft_conds(q), 0);
        let e = exists_spec(q, d).0;
        let pre = "SELECT EXISTS(SELECT 1 FROM "@ + q.table + joins_spec_of(q);
        assert(e =~= pre + w.0 + seq![')']);
        let m = pre.len() as int;
        assert(e.subrange(m, m + 7) =~= w.0.subrange(0, 7));
        assert(infix_at(e, " WHERE "@, m));
    }
}

/// Aggregates and plucks filter exactly as the query's `SELECT` does: the
/// same `WHERE` clause in the same place after the table and joins, and the
/// same parameters.
pub proof fn lemma_aggregates_filter_as_select(q: QueryV, d: Dialect, func: Seq<char>, column: Seq<char>)
    requires
        q.ctes.len() == 0,
        q.cte_params.len() == 0,
        q.having_rank_n is None,
        q.from_override is None,
    ensures
        exists|w: Seq<char>|
            select_spec(q, d).0 == select_head(q) + w + select_tail(q) && aggregate_spec(q, d, func, column).0
                == "SELECT "@ + func + seq!['('] + column + ") FROM "@ + q.table + joins_spec_of(q) + w + group_spec(q)
                + order_spec(q) && pluck_spec(q, d, column).0 == "SELECT "@ + column + " FROM "@ + q.table
                + joins_spec_of(q) + w + order_spec(q) + limit_spec(q.limit_val),
        aggregate_spec(q, d, func, column).1 == select_spec(q, d).1,
        pluck_spec(q, d, column).1 == select_spec(q, d).1,
{
    let w = where_clause(d, soft_conds(q), 0);
    assert(select_spec(q, d).0 =~= select_head(q) + w.0 + select_tail(q));
    assert(select_spec(q, d).1 =~= w.1);
}

/// The joins of a query, as its statements write them.
pub open spec fn joins_spec_of(q: QueryV) -> Seq<char> {
    super::sql_gen::joins_spec(q.joins)
}

// ── upserts ─────────────────────────────────────────────────────────────────

/// `c = VALUES(c)` for each column, joined with `, `.
pub open spec fn assign_from_values(update: Seq<&str>) -> Seq<char> {
    seq_join(Seq::new(update.len(), |i: int| update[i]@ + " = VALUES("@ + update[i]@ + seq![')']), ", "@)
}

/// An upsert is the plain `INSERT` of the same row (never `INSERT IGNORE`),
/// followed by a conflict clause that assigns each update column from the
/// inserted values: ` ON DUPLICATE KEY UPDATE c = VALUES(c), …` for MySQL,
/// ` ON CONFLICT (key) DO UPDATE SET c = VALUES(c), …` otherwise.
pub proof fn lemma_upsert_updates(
    d: Dialect,
    table: Seq<char>,
    data: Seq<(Seq<char>, SqlVal)>,
    conflict: Seq<char>,
    update: Seq<&str>,
)
    ensures
        insert_head(d, table, data, false).subrange(0, 12) == "INSERT INTO "@,
        d == Dialect::Mysql ==> upsert_spec(d, table, data, conflict, update) == insert_head(d, table, data, false)
            + " ON DUPLICATE KEY UPDATE "@ + assign_from_values(update),
        d != Dialect::Mysql ==> upsert_spec(d, table, data, conflict, update) == insert_head(d, table, data, false)
            + " ON CONFLICT ("@ + conflict + ") DO UPDATE SET "@ + assign_from_values(update),
{
    reveal_strlit("INSERT INTO ");
    reveal_strlit(")");
    let h = insert_head(d, table, data, false);
    assert(h.subrange(0, 12) =~= "INSERT INTO "@);
    assert(Seq::new(update.len(), |i: int| update[i]@ + " = VALUES("@ + update[i]@ + seq![')']) =~= super::sql_write::values_list(
        update,
    ));
}

/// `INSERT IGNORE` is the plain `INSERT` with `IGNORE ` after `INSERT `, and
/// the plain one starts `INSERT INTO `.
pub proof fn lemma_insert_ignore_marks(d: Dialect, table: Seq<char>, data: Seq<(Seq<char>, SqlVal)>)
    ensures
        insert_head(d, table, data, false).subrange(0, 12) == "INSERT INTO "@,
        insert_head(d, table, data, true) == "INSERT IGNORE "@ + insert_head(d, table, data, false).skip(7),
{
    reveal_strlit("INSERT INTO ");
    reveal_strlit("INSERT IGNORE INTO ");
    reveal_strlit("INSERT IGNORE ");
    let plain = insert_head(d, table, data, false);
    assert(plain.subrange(0, 12) =~= "INSERT INTO "@);
    assert(insert_head(d, table, data, true) =~= "INSERT IGNORE "@ + plain.skip(7));
}

// ── increments ──────────────────────────────────────────────────────────────

/// A decrement subtracts: its statement sets the column to itself minus the
/// first parameter, and it is the increment's statement with that one `+`
/// turned into `-`.
pub proof fn lemma_decrement_subtracts(table: Seq<char>, pk: Seq<char>, column: Seq<char>)
    ensures
        has_infix(increment_spec(table, pk, column, false), " = "@ + column + " - $1 "@),
        has_infix(increment_spec(table, pk, column, true), " = "@ + column + " + $1 "@),
        increment_spec(table, pk, column, true).len() == increment_spec(table, pk, column, false).len(),
        exists|i: int|
            0 <= i < increment_spec(table, pk, column, true).len() && increment_spec(table, pk, column, true)[i]
                == '+' && increment_spec(table, pk, column, false)[i] == '-' && forall|j: int|
                0 <= j < increment_spec(table, pk, column, true).len() && j != i ==> #[trigger] increment_spec(
                    table,
                    pk,
                    column,
                    true,
                )[j] == increment_spec(table, pk, column, false)[j],
{
    reveal_strlit("UPDATE ");
    reveal_strlit(" SET ");
    reveal_strlit(" = ");
    reveal_strlit(" + $1 WHERE ");
    reveal_strlit(" - $1 WHERE ");
    reveal_strlit(" = $2");
    reveal_strlit(" $1 WHERE ");
    reveal_strlit(" - $1 ");
    reveal_strlit(" + $1 ");
    let pre = "UPDATE "@ + table + " SET "@ + column;
    let up = increment_spec(table, pk, column, true);
    let down = increment_spec(table, pk, column, false);
    let tail = " $1 WHERE "@ + pk + " = $2"@;
    assert(up =~= pre + " = "@ + column + seq![' ', '+'] + tail);
    assert(down =~= pre + " = "@ + column + seq![' ', '-'] + tail);
    assert(up[(pre.len() + 3 + column.len() + 1) as int] == '+');
    assert(down[(pre.len() + 3 + column.len() + 1) as int] == '-');
    let i = (pre.len() + 3 + column.len() + 1) as int;
    assert forall|j: int| 0 <= j < up.len() && j != i implies #[trigger] up[j] == down[j] by {
        if j < i {
            assert(up[j] == (pre + " = "@ + column + seq![' '])[j]);
            assert(down[j] == (pre + " = "@ + column + seq![' '])[j]);
        } else {
            assert(up[j] == tail[j - i - 1]);
            assert(down[j] == tail[j - i - 1]);
        }
    }
    let m = pre.len() as int;
    assert(down.subrange(m, m + (" = "@ + column + " - $1 "@).len()) =~= " = "@ + column + " - $1 "@);
    assert(up.subrange(m, m + (" = "@ + column + " + $1 "@).len()) =~= " = "@ + column + " + $1 "@);
    assert(infix_at(down, " = "@ + column + " - $1 "@, m));
    assert(infix_at(up, " = "@ + column + " + $1 "@, m));
}

// ── comparisons ─────────────────────────────────────────────────────────────

/// The SQL operator of a comparison condition.
pub open spec fn comparison_operator(c: CondV) -> Seq<char> {
    match c {
        CondV::Eq(..) => seq!['='],
        CondV::Ne(..) => seq!['!', '='],
        CondV::Gt(..) => seq!['>'],
        CondV::Gte(..) => seq!['>', '='],
        CondV::Lt(..) => seq!['<'],
        CondV::Lte(..) => seq!['<', '='],
        _ => seq![],
    }
}

/// Whether a condition compares a column with one value.
pub open spec fn is_comparison(c: CondV) -> bool {
    c is Eq || c is Ne || c is Gt || c is Gte || c is Lt || c is Lte
}

/// The column and the value of a comparison.
pub open spec fn comparison_parts(c: CondV) -> (Seq<char>, SqlVal) {
    match c {
        CondV::Eq(col, v) | CondV::Ne(col, v) | CondV::Gt(col, v) | CondV::Gte(col, v) | CondV::Lt(col, v)
        | CondV::Lte(col, v) => (col, v),
        _ => (seq![], SqlVal::Null),
    }
}

/// Each comparison renders as its column, its own operator and its value's
/// place: a numbered placeholder, `?`, or the value's literal, the text
/// around it the same in all three renderings. The six operators differ from
/// each other, so two comparisons of different kinds never render alike.
pub proof fn lemma_comparison_renders_operator(c: CondV, offset: nat)
    requires
        is_comparison(c),
    ensures
        ({
            let (col, v) = comparison_parts(c);
            let x = col + seq![' '] + comparison_operator(c) + seq![' '];
            &&& cond_pg(c, offset) == x + ph(offset)
            &&& cond_q(c) == x + seq!['?']
            &&& cond_literal(c) == x + literal_spec(v)
        }),
        forall|a: CondV, b: CondV|
            is_comparison(a) && is_comparison(b) && comparison_operator(a) == comparison_operator(b) ==> (a is Eq
                <==> b is Eq) && (a is Ne <==> b is Ne) && (a is Gt <==> b is Gt) && (a is Gte <==> b is Gte) && (
            a is Lt <==> b is Lt) && (a is Lte <==> b is Lte),
{
    reveal_strlit(" = ");
    reveal_strlit(" != ");
    reveal_strlit(" > ");
    reveal_strlit(" >= ");
    reveal_strlit(" < ");
    reveal_strlit(" <= ");
    reveal_strlit(" = ?");
    reveal_strlit(" != ?");
    reveal_strlit(" > ?");
    reveal_strlit(" >= ?");
    reveal_strlit(" < ?");
    reveal_strlit(" <= ?");
    let (col, v) = comparison_parts(c);
    let x = col + seq![' '] + comparison_operator(c) + seq![' '];
    match c {
        CondV::Eq(..) => {
            assert(cond_pg(c, offset) =~= x + ph(offset));
            assert(cond_q(c) =~= x + seq!['?']);
            assert(cond_literal(c) =~= x + literal_spec(v));
        },
        CondV::Ne(..) => {
            assert(cond_pg(c, offset) =~= x + ph(offset));
            assert(cond_q(c) =~= x + seq!['?']);
            assert(cond_literal(c) =~= x + literal_spec(v));
        },
        CondV::Gt(..) => {
            assert(cond_pg(c, offset) =~= x + ph(offset));
            assert(cond_q(c) =~= x + seq!['?']);
            assert(cond_literal(c) =~= x + literal_spec(v));
        },
        CondV::Gte(..) => {
            assert(cond_pg(c, offset) =~= x + ph(offset));
            assert(cond_q(c) =~= x + seq!['?']);
            assert(cond_literal(c) =~= x + literal_spec(v));
        },
        CondV::Lt(..) => {
            assert(cond_pg(c, offset) =~= x + ph(offset));
            assert(cond_q(c) =~= x + seq!['?']);
            assert(cond_literal(c) =~= x + literal_spec(v));
        },
        CondV::Lte(..) => {
            assert(cond_pg(c, offset) =~= x + ph(offset));
            assert(cond_q(c) =~= x + seq!['?']);
            assert(cond_literal(c) =~= x + literal_spec(v));
        },
        _ => {},
    }
    assert forall|a: CondV, b: CondV|
        is_comparison(a) && is_comparison(b) && comparison_operator(a) == comparison_operator(b) implies (a is Eq
        <==> b is Eq) && (a is Ne <==> b is Ne) && (a is Gt <==> b is Gt) && (a is Gte <==> b is Gte) && (a is Lt
        <==> b is Lt) && (a is Lte <==> b is Lte) by {
        let oa = comparison_operator(a);
        let ob = comparison_operator(b);
        assert(oa.len() == ob.len());
        assert(oa[0] == ob[0]);
        if oa.len() > 1 {
            assert(oa[1] == ob[1]);
        }
    }
}

/// The SQL keyword of a pattern, null, list or range condition.
pub open spec fn condition_keyword(c: CondV) -> Seq<char> {
    match c {
        CondV::Like(..) => "LIKE"@,
        CondV::NotLike(..) => "NOT LIKE"@,
        CondV::IsNull(..) => "IS NULL"@,
        CondV::IsNotNull(..) => "IS NOT NULL"@,
        CondV::In(..) => "IN"@,
        CondV::NotIn(..) => "NOT IN"@,
        CondV::Between(..) => "BETWEEN"@,
        CondV::NotBetween(..) => "NOT BETWEEN"@,
        _ => seq![],
    }
}

/// Whether a condition is a pattern, null, list or range test.
pub open spec fn is_keyword_condition(c: CondV) -> bool {
    c is Like || c is NotLike || c is IsNull || c is IsNotNull || c is In || c is NotIn || c is Between
        || c is NotBetween
}

/// The column a pattern, null, list or range test is on.
pub open spec fn keyword_column(c: CondV) -> Seq<char> {
    match c {
        CondV::Like(col, _) | CondV::NotLike(col, _) | CondV::IsNull(col) | CondV::IsNotNull(col) | CondV::In(
            col,
            _,
        ) | CondV::NotIn(col, _) | CondV::Between(col, _, _) | CondV::NotBetween(col, _, _) => col,
        _ => seq![],
    }
}

/// Each pattern, null, list or range test renders as its column, a space and
/// its own keyword, followed by a space or nothing, in all three renderings;
/// the eight keywords differ from each other, so negated and plain tests
/// never render alike.
pub proof fn lemma_condition_renders_keyword(c: CondV, offset: nat)
    requires
        is_keyword_condition(c),
    ensures
        ({
            let head = keyword_column(c) + seq![' '] + condition_keyword(c);
            &&& cond_pg(c, offset).subrange(0, head.len() as int) == head
            &&& cond_q(c).subrange(0, head.len() as int) == head
            &&& cond_literal(c).subrange(0, head.len() as int) == head
            &&& (cond_pg(c, offset).len() == head.len() || cond_pg(c, offset)[head.len() as int] == ' ')
            &&& (cond_q(c).len() == head.len() || cond_q(c)[head.len() as int] == ' ')
            &&& (cond_literal(c).len() == head.len() || cond_literal(c)[head.len() as int] == ' ')
        }),
        forall|a: CondV, b: CondV|
            is_keyword_condition(a) && is_keyword_condition(b) && condition_keyword(a) == condition_keyword(b) ==> (
            a is Like <==> b is Like) && (a is NotLike <==> b is NotLike) && (a is IsNull <==> b is IsNull) && (
            a is IsNotNull <==> b is IsNotNull) && (a is In <==> b is In) && (a is NotIn <==> b is NotIn) && (
            a is Between <==> b is Between) && (a is NotBetween <==> b is NotBetween),
{
    reveal_strlit("LIKE");
    reveal_strlit("NOT LIKE");
    reveal_strlit("IS NULL");
    reveal_strlit("IS NOT NULL");
    reveal_strlit("IN");
    reveal_strlit("NOT IN");
    reveal_strlit("BETWEEN");
    reveal_strlit("NOT BETWEEN");
    reveal_strlit(" LIKE ");
    reveal_strlit(" NOT LIKE ");
    reveal_strlit(" LIKE ?");
    reveal_strlit(" NOT LIKE ?");
    reveal_strlit(" LIKE '");
    reveal_strlit(" NOT LIKE '");
    reveal_strlit(" IS NULL");
    reveal_strlit(" IS NOT NULL");
    reveal_strlit(" IN (");
    reveal_strlit(" NOT IN (");
    reveal_strlit(" BETWEEN ");
    reveal_strlit(" NOT BETWEEN ");
    reveal_strlit(" BETWEEN ? AND ?");
    reveal_strlit(" NOT BETWEEN ? AND ?");
    let head = keyword_column(c) + seq![' '] + condition_keyword(c);
    let n = head.len() as int;
    let pg = cond_pg(c, offset);
    let q = cond_q(c);
    let lit = cond_literal(c);
    assert(pg.subrange(0, n) =~= head);
    assert(q.subrange(0, n) =~= head);
    assert(lit.subrange(0, n) =~= head);
    assert forall|a: CondV, b: CondV|
        is_keyword_condition(a) && is_keyword_condition(b) && condition_keyword(a) == condition_keyword(b) implies (
        a is Like <==> b is Like) && (a is NotLike <==> b is NotLike) && (a is IsNull <==> b is IsNull) && (
        a is IsNotNull <==> b is IsNotNull) && (a is In <==> b is In) && (a is NotIn <==> b is NotIn) && (
        a is Between <==> b is Between) && (a is NotBetween <==> b is NotBetween) by {
        let ka = condition_keyword(a);
        let kb = condition_keyword(b);
        assert(ka.len() == kb.len());
        assert(ka[0] == kb[0]);
        if ka.len() > 1 {
            assert(ka[1] == kb[1]);
        }
        if ka.len() > 4 {
            assert(ka[4] == kb[4]);
        }
        if ka.len() > 5 {
            assert(ka[5] == kb[5]);
        }
    }
}

} // verus!
