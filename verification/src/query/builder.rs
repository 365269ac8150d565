//! [`QueryBuilder`] struct definition and fluent builder API.

use std::marker::PhantomData;
use vstd::prelude::*;
use crate::text::{lemma_views_push, owned, views};
use super::condition::{CondV, Condition};
use super::value::{Dialect, Join, JoinOp, JoinV, OrderDir, OrderV, SoftDeleteMode, SqlVal, SqlValue, vals};

verus! {

/// The characters of each string slice of a sequence.
pub open spec fn strs(v: Seq<&str>) -> Seq<Seq<char>> {
    v.map_values(|s: &str| s@)
}

/// Owned copies of string slices.
pub fn owned_all(cols: &[&str]) -> (r: Vec<String>)
    ensures
        views(r@) == strs(cols@),
{
    let mut out: Vec<String> = Vec::new();
    let mut i: usize = 0;
    while i < cols.len()
        invariant
            i <= cols@.len(),
            views(out@) == strs(cols@.take(i as int)),
        decreases cols.len() - i,
    {
        let s = owned(cols[i]);
        let ghost prev = out@;
        out.push(s);
        proof { lemma_views_push(prev, s); }
        assert(views(out@) =~= strs(cols@.take(i + 1)));
        i = i + 1;
    }
    assert(cols@.take(cols@.len() as int) =~= cols@);
    out
}

/// The mathematical value of a [`QueryBuilder`]: every field as characters and values.
#[verifier::ext_equal]
pub struct QueryV {
    pub table: Seq<char>,
    pub select_cols: Option<Seq<Seq<char>>>,
    pub distinct: bool,
    pub joins: Seq<JoinV>,
    pub conditions: Seq<(JoinOp, CondV)>,
    pub group_by: Seq<Seq<char>>,
    pub having: Option<Seq<char>>,
    pub order: Seq<(Seq<char>, OrderV)>,
    pub limit_val: Option<usize>,
    pub offset_val: Option<usize>,
    pub soft_delete_mode: SoftDeleteMode,
    pub soft_delete_column: Option<Seq<char>>,
    pub update_columns: Seq<(Seq<char>, SqlVal)>,
    pub eager_loads: Seq<Seq<char>>,
    pub dialect: Dialect,
    pub ctes: Seq<(Seq<char>, Seq<char>)>,
    pub cte_params: Seq<SqlVal>,
    pub from_override: Option<Seq<char>>,
    pub window_rank_alias: Option<Seq<char>>,
    pub having_rank_n: Option<(Seq<char>, i64)>,
    pub excluded_scopes: Seq<u64>,
}

/// A fluent builder that produces parameterized SQL statements.
///
/// Conditions added with `where_*` methods are joined with `AND`.
/// Use `or_where_*` variants to join with `OR`.
#[derive(Debug)]
pub struct QueryBuilder<T> {
    pub(crate) table: String,
    pub(crate) select_cols: Option<Vec<String>>,
    pub(crate) distinct: bool,
    pub(crate) joins: Vec<Join>,
    pub(crate) conditions: Vec<(JoinOp, Condition)>,
    pub(crate) group_by: Vec<String>,
    pub(crate) having: Option<String>,
    pub(crate) order: Vec<(String, OrderDir)>,
    pub(crate) limit_val: Option<usize>,
    pub(crate) offset_val: Option<usize>,
    pub(crate) soft_delete_mode: SoftDeleteMode,
    pub(crate) soft_delete_column: Option<String>,
    pub(crate) update_columns: Vec<(String, SqlValue)>,
    pub(crate) eager_loads: Vec<String>,
    pub(crate) dialect: Dialect,
    pub(crate) ctes: Vec<(String, String)>,
    pub(crate) cte_params: Vec<SqlValue>,
    pub(crate) from_override: Option<String>,
    pub(crate) window_rank_alias: Option<String>,
    pub(crate) having_rank_n: Option<(String, i64)>,
    pub(crate) excluded_scopes: Vec<u64>,
    pub(crate) _marker: PhantomData<T>,
}

/// The characters of an optional string.
pub open spec fn opt_view(o: Option<String>) -> Option<Seq<char>> {
    match o {
        Some(s) => Some(s@),
        None => None,
    }
}

/// The values of the conditions of a builder.
pub open spec fn conds_view(v: Seq<(JoinOp, Condition)>) -> Seq<(JoinOp, CondV)> {
    v.map_values(|p: (JoinOp, Condition)| (p.0, p.1@))
}

/// The values of the ordering items of a builder.
pub open spec fn order_view(v: Seq<(String, OrderDir)>) -> Seq<(Seq<char>, OrderV)> {
    v.map_values(|p: (String, OrderDir)| (p.0@, p.1@))
}

/// The values of column/value pairs.
pub open spec fn pairs_view(v: Seq<(String, SqlValue)>) -> Seq<(Seq<char>, SqlVal)> {
    v.map_values(|p: (String, SqlValue)| (p.0@, p.1@))
}

/// The values of borrowed column/value pairs.
pub open spec fn data_view(v: Seq<(&str, SqlValue)>) -> Seq<(Seq<char>, SqlVal)> {
    v.map_values(|p: (&str, SqlValue)| (p.0@, p.1@))
}

impl<T> View for QueryBuilder<T> {
    type V = QueryV;

    open(crate) spec fn view(&self) -> QueryV {
        QueryV {
            table: self.table@,
            select_cols: match self.select_cols {
                Some(c) => Some(views(c@)),
                None => None,
            },
            distinct: self.distinct,
            joins: self.joins@.map_values(|j: Join| j@),
            conditions: conds_view(self.conditions@),
            group_by: views(self.group_by@),
            having: opt_view(self.having),
            order: order_view(self.order@),
            limit_val: self.limit_val,
            offset_val: self.offset_val,
            soft_delete_mode: self.soft_delete_mode,
            soft_delete_column: opt_view(self.soft_delete_column),
            update_columns: pairs_view(self.update_columns@),
            eager_loads: views(self.eager_loads@),
            dialect: self.dialect,
            ctes: self.ctes@.map_values(|p: (String, String)| (p.0@, p.1@)),
            cte_params: vals(self.cte_params@),
            from_override: opt_view(self.from_override),
            window_rank_alias: opt_view(self.window_rank_alias),
            having_rank_n: match self.having_rank_n {
                Some(p) => Some((p.0@, p.1)),
                None => None,
            },
            excluded_scopes: self.excluded_scopes@,
        }
    }
}

/// A fresh query over `table`: every clause empty, nothing soft-deleted hidden,
/// PostgreSQL placeholders.
pub open spec fn new_query(table: Seq<char>) -> QueryV {
    QueryV {
        table,
        select_cols: None,
        distinct: false,
        joins: seq![],
        conditions: seq![],
        group_by: seq![],
        having: None,
        order: seq![],
        limit_val: None,
        offset_val: None,
        soft_delete_mode: SoftDeleteMode::Exclude,
        soft_delete_column: None,
        update_columns: seq![],
        eager_loads: seq![],
        dialect: Dialect::Postgres,
        ctes: seq![],
        cte_params: seq![],
        from_override: None,
        window_rank_alias: None,
        having_rank_n: None,
        excluded_scopes: seq![],
    }
}

/// `q` with one more condition.
pub open spec fn with_cond(q: QueryV, op: JoinOp, c: CondV) -> QueryV {
    QueryV { conditions: q.conditions.push((op, c)), ..q }
}

/// `page` and `per_page` normalised as `paginate` does: the page is at least 1,
/// the page size between 1 and 100.
pub open spec fn page_size(per_page: i64) -> int {
    if per_page < 1 { 1 } else if per_page > 100 { 100 } else { per_page as int }
}

/// The offset of a page.
pub open spec fn page_offset(page: i64, per_page: i64) -> int {
    ((if page < 1 { 1 } else { page as int }) - 1) * page_size(per_page)
}

impl<T> QueryBuilder<T> {
    /// A builder over `table`.
    pub fn new(table: &str) -> (r: Self)
        ensures
            r@ == new_query(table@),
    {
        let r = QueryBuilder {
            table: owned(table),
            select_cols: None,
            distinct: false,
            joins: Vec::new(),
            conditions: Vec::new(),
            group_by: Vec::new(),
            having: None,
            order: Vec::new(),
            limit_val: None,
            offset_val: None,
            soft_delete_mode: SoftDeleteMode::Exclude,
            soft_delete_column: None,
            update_columns: Vec::new(),
            eager_loads: Vec::new(),
            dialect: Dialect::Postgres,
            ctes: Vec::new(),
            cte_params: Vec::new(),
            from_override: None,
            window_rank_alias: None,
            having_rank_n: None,
            excluded_scopes: Vec::new(),
            _marker: PhantomData,
        };
        assert(r@ =~= new_query(table@));
        r
    }

    /// Use `dialect` for the fragments that dialect-aware methods build.
    pub fn with_dialect(self, dialect: Dialect) -> (r: Self)
        ensures
            r@ == (QueryV { dialect, ..self@ }),
    {
        let mut s = self;
        s.dialect = dialect;
        s
    }

    /// Hide rows whose `column` is set (soft deletion), unless asked otherwise.
    pub fn with_soft_delete(self, column: &str) -> (r: Self)
        ensures
            r@ == (QueryV { soft_delete_column: Some(column@), ..self@ }),
    {
        let mut s = self;
        s.soft_delete_column = Some(owned(column));
        s
    }

    /// Ask for `relation` to be loaded eagerly.
    pub fn with(self, relation: &str) -> (r: Self)
        ensures
            r@ == (QueryV { eager_loads: self@.eager_loads.push(relation@), ..self@ }),
    {
        let mut s = self;
        let rel = owned(relation);
        let ghost prev = s.eager_loads@;
        s.eager_loads.push(rel);
        proof { lemma_views_push(prev, rel); }
        s
    }

    /// Ask for several relations to be loaded eagerly, in order.
    pub fn with_many(self, relations: Vec<String>) -> (r: Self)
        ensures
            r@ == (QueryV { eager_loads: self@.eager_loads + views(relations@), ..self@ }),
    {
        let mut s = self;
        let mut loads: Vec<String> = Vec::new();
        std::mem::swap(&mut loads, &mut s.eager_loads);
        let mut rels = relations;
        let ghost start = loads@;
        let ghost all = rels@;
        let mut moved: Vec<String> = Vec::new();
        // keep the order: move from the back onto a stack, then pop it
        assert(views(all) =~= views(rels@) + views(moved@).reverse());
        while rels.len() > 0
            invariant
                views(all) == views(rels@) + views(moved@).reverse(),
            decreases rels.len(),
        {
            let ghost before_rels = rels@;
            let x = rels.pop().unwrap();
            assert(before_rels =~= rels@.push(x));
            let ghost before = moved@;
            moved.push(x);
            proof {
                lemma_views_push(before, x);
                lemma_views_push(rels@, x);
                assert(views(rels@).push(x@) + views(before).reverse() =~= views(rels@) + (
                views(before).push(x@)).reverse());
            }
        }
        assert(views(all) =~= views(moved@).reverse());
        let ghost target = views(start) + views(all);
        while moved.len() > 0
            invariant
                views(loads@) + views(moved@).reverse() == target,
            decreases moved.len(),
        {
            let ghost before_moved = moved@;
            let x = moved.pop().unwrap();
            assert(before_moved =~= moved@.push(x));
            let ghost prev = loads@;
            loads.push(x);
            proof {
                lemma_views_push(prev, x);
                lemma_views_push(moved@, x);
            }
            assert(views(loads@) + views(moved@).reverse() =~= views(prev) + views(
                moved@.push(x),
            ).reverse());
        }
        assert(views(loads@) =~= target);
        s.eager_loads = loads;
        s
    }

    /// The relations asked for so far.
    pub fn eager_loads(&self) -> (r: &[String])
        ensures
            views(r@) == self@.eager_loads,
    {
        self.eager_loads.as_slice()
    }

    /// Include soft-deleted rows.
    pub fn with_trashed(self) -> (r: Self)
        ensures
            r@ == (QueryV { soft_delete_mode: SoftDeleteMode::Include, ..self@ }),
    {
        let mut s = self;
        s.soft_delete_mode = SoftDeleteMode::Include;
        s
    }

    /// Only soft-deleted rows.
    pub fn only_trashed(self) -> (r: Self)
        ensures
            r@ == (QueryV { soft_delete_mode: SoftDeleteMode::Only, ..self@ }),
    {
        let mut s = self;
        s.soft_delete_mode = SoftDeleteMode::Only;
        s
    }

    /// Select these columns in place of `*`.
    pub fn select(self, cols: &[&str]) -> (r: Self)
        ensures
            r@ == (QueryV { select_cols: Some(strs(cols@)), ..self@ }),
    {
        let mut s = self;
        s.select_cols = Some(owned_all(cols));
        s
    }

    /// Emit `SELECT DISTINCT …`.
    pub fn distinct(self) -> (r: Self)
        ensures
            r@ == (QueryV { distinct: true, ..self@ }),
    {
        let mut s = self;
        s.distinct = true;
        s
    }

    /// Add an `INNER JOIN table ON condition`.
    pub fn inner_join(self, table: &str, on: &str) -> (r: Self)
        ensures
            r@ == (QueryV { joins: self@.joins.push(JoinV::Inner(table@, on@)), ..self@ }),
    {
        let mut s = self;
        let ghost prev = s.joins@;
        s.joins.push(Join::Inner(owned(table), owned(on)));
        assert(s.joins@.map_values(|j: Join| j@) =~= prev.map_values(|j: Join| j@).push(
            JoinV::Inner(table@, on@),
        ));
        s
    }

    /// Add a `LEFT JOIN table ON condition`.
    pub fn left_join(self, table: &str, on: &str) -> (r: Self)
        ensures
            r@ == (QueryV { joins: self@.joins.push(JoinV::Left(table@, on@)), ..self@ }),
    {
        let mut s = self;
        let ghost prev = s.joins@;
        s.joins.push(Join::Left(owned(table), owned(on)));
        assert(s.joins@.map_values(|j: Join| j@) =~= prev.map_values(|j: Join| j@).push(
            JoinV::Left(table@, on@),
        ));
        s
    }

    /// Add a `RIGHT JOIN table ON condition`.
    pub fn right_join(self, table: &str, on: &str) -> (r: Self)
        ensures
            r@ == (QueryV { joins: self@.joins.push(JoinV::Right(table@, on@)), ..self@ }),
    {
        let mut s = self;
        let ghost prev = s.joins@;
        s.joins.push(Join::Right(owned(table), owned(on)));
        assert(s.joins@.map_values(|j: Join| j@) =~= prev.map_values(|j: Join| j@).push(
            JoinV::Right(table@, on@),
        ));
        s
    }

    /// Set the `GROUP BY` columns.
    pub fn group_by(self, cols: &[&str]) -> (r: Self)
        ensures
            r@ == (QueryV { group_by: strs(cols@), ..self@ }),
    {
        let mut s = self;
        s.group_by = owned_all(cols);
        s
    }

    /// Set the `HAVING` expression (used with [`group_by`](Self::group_by)).
    pub fn having(self, expr: &str) -> (r: Self)
        ensures
            r@ == (QueryV { having: Some(expr@), ..self@ }),
    {
        let mut s = self;
        s.having = Some(owned(expr));
        s
    }

    /// Order by `col`, ascending.
    pub fn order_by(self, col: &str) -> (r: Self)
        ensures
            r@ == (QueryV { order: self@.order.push((col@, OrderV::Asc)), ..self@ }),
    {
        let mut s = self;
        let ghost prev = s.order@;
        s.order.push((owned(col), OrderDir::Asc));
        assert(order_view(s.order@) =~= order_view(prev).push((col@, OrderV::Asc)));
        s
    }

    /// Order by `col`, descending.
    pub fn order_by_desc(self, col: &str) -> (r: Self)
        ensures
            r@ == (QueryV { order: self@.order.push((col@, OrderV::Desc)), ..self@ }),
    {
        let mut s = self;
        let ghost prev = s.order@;
        s.order.push((owned(col), OrderDir::Desc));
        assert(order_view(s.order@) =~= order_view(prev).push((col@, OrderV::Desc)));
        s
    }

    /// Add a raw `ORDER BY` expression.
    pub fn order_raw(self, expr: &str) -> (r: Self)
        ensures
            r@ == (QueryV { order: self@.order.push((seq![], OrderV::Raw(expr@))), ..self@ }),
    {
        let mut s = self;
        let ghost prev = s.order@;
        s.order.push((String::new(), OrderDir::Raw(owned(expr))));
        assert(order_view(s.order@) =~= order_view(prev).push((seq![], OrderV::Raw(expr@))));
        s
    }

    /// Return at most `n` rows.
    pub fn limit(self, n: usize) -> (r: Self)
        ensures
            r@ == (QueryV { limit_val: Some(n), ..self@ }),
    {
        let mut s = self;
        s.limit_val = Some(n);
        s
    }

    /// Skip the first `n` rows.
    pub fn offset(self, n: usize) -> (r: Self)
        ensures
            r@ == (QueryV { offset_val: Some(n), ..self@ }),
    {
        let mut s = self;
        s.offset_val = Some(n);
        s
    }

    /// Page `page` (from 1) of `per_page` rows: the page is taken as at least 1
    /// and the page size is clamped to 1..=100.
    pub fn paginate(self, page: i64, per_page: i64) -> (r: Self)
        requires
            page_offset(page, per_page) <= i64::MAX,
        ensures
            r@ == (QueryV {
                limit_val: Some(page_size(per_page) as usize),
                offset_val: Some(page_offset(page, per_page) as usize),
                ..self@
            }),
    {
        let pp: i64 = if per_page < 1 { 1 } else if per_page > 100 { 100 } else { per_page };
        let pg: i64 = if page < 1 { 1 } else { page };
        let off: i64 = (pg - 1) * pp;
        let mut s = self;
        s.limit_val = Some(pp as usize);
        s.offset_val = Some(off as usize);
        s
    }

    /// The conditions added so far (useful for callers that need to inspect them).
    pub fn conditions(&self) -> (r: &[(JoinOp, Condition)])
        ensures
            conds_view(r@) == self@.conditions,
    {
        self.conditions.as_slice()
    }

    /// The table this builder reads from.
    pub fn table(&self) -> (r: &str)
        ensures
            r@ == self@.table,
    {
        self.table.as_str()
    }

    /// Add a condition joined with `op`.
    pub fn push(self, op: JoinOp, cond: Condition) -> (r: Self)
        ensures
            r@ == with_cond(self@, op, cond@),
    {
        let mut s = self;
        let ghost prev = s.conditions@;
        s.conditions.push((op, cond));
        assert(conds_view(s.conditions@) =~= conds_view(prev).push((op, cond@)));
        s
    }

    /// Skip the global scope numbered `scope_id` when scopes are applied.
    pub fn without_global_scope(self, scope_id: u64) -> (r: Self)
        ensures
            r@ == (QueryV { excluded_scopes: self@.excluded_scopes.push(scope_id), ..self@ }),
    {
        let mut s = self;
        s.excluded_scopes.push(scope_id);
        s
    }

    /// The global scopes this builder skips.
    pub fn excluded_scopes(&self) -> (r: &[u64])
        ensures
            r@ == self@.excluded_scopes,
    {
        self.excluded_scopes.as_slice()
    }

    /// Set an update column used by restore statements.
    pub fn push_update_column(self, col: &str, val: SqlValue) -> (r: Self)
        ensures
            r@ == (QueryV { update_columns: self@.update_columns.push((col@, val@)), ..self@ }),
    {
        let mut s = self;
        let ghost prev = s.update_columns@;
        s.update_columns.push((owned(col), val));
        assert(pairs_view(s.update_columns@) =~= pairs_view(prev).push((col@, val@)));
        s
    }
}

/// Copies of strings.
fn dup_strings(v: &Vec<String>) -> (r: Vec<String>)
    ensures
        views(r@) == views(v@),
{
    let r = v.clone();
    assert(views(r@) =~= views(v@)) by {
        assert forall|i: int| 0 <= i < v@.len() implies r@[i]@ == v@[i]@ by {
            assert(cloned::<String>(v[i], r[i]));
        }
    }
    r
}

impl<T> Clone for QueryBuilder<T> {
    fn clone(&self) -> (r: Self)
        ensures
            r@ == self@,
    {
        let mut joins: Vec<Join> = Vec::new();
        let mut i: usize = 0;
        while i < self.joins.len()
            invariant
                i <= self.joins@.len(),
                joins@.map_values(|j: Join| j@) == self.joins@.take(i as int).map_values(|j: Join| j@),
            decreases self.joins.len() - i,
        {
            let j = self.joins[i].duplicate();
            let ghost prev = joins@;
            joins.push(j);
            assert(joins@.map_values(|j: Join| j@) =~= prev.map_values(|j: Join| j@).push(j@));
            assert(self.joins@.take(i + 1) =~= self.joins@.take(i as int).push(self.joins@[i as int]));
            assert(joins@.map_values(|j: Join| j@) =~= self.joins@.take(i + 1).map_values(|j: Join| j@));
            i = i + 1;
        }
        assert(self.joins@.take(self.joins@.len() as int) =~= self.joins@);
        let mut conditions: Vec<(JoinOp, Condition)> = Vec::new();
        let mut k: usize = 0;
        while k < self.conditions.len()
            invariant
                k <= self.conditions@.len(),
                conds_view(conditions@) == conds_view(self.conditions@.take(k as int)),
            decreases self.conditions.len() - k,
        {
            let c = self.conditions[k].1.duplicate();
            let ghost prev = conditions@;
            conditions.push((self.conditions[k].0, c));
            assert(conds_view(conditions@) =~= conds_view(prev).push((self.conditions@[k as int].0, c@)));
            assert(self.conditions@.take(k + 1) =~= self.conditions@.take(k as int).push(self.conditions@[k as int]));
            assert(conds_view(conditions@) =~= conds_view(self.conditions@.take(k + 1)));
            k = k + 1;
        }
        assert(self.conditions@.take(self.conditions@.len() as int) =~= self.conditions@);
        let mut order: Vec<(String, OrderDir)> = Vec::new();
        let mut m: usize = 0;
        while m < self.order.len()
            invariant
                m <= self.order@.len(),
                order_view(order@) == order_view(self.order@.take(m as int)),
            decreases self.order.len() - m,
        {
            let d = self.order[m].1.duplicate();
            let name = self.order[m].0.clone();
            let ghost prev = order@;
            order.push((name, d));
            assert(order_view(order@) =~= order_view(prev).push((name@, d@)));
            assert(self.order@.take(m + 1) =~= self.order@.take(m as int).push(self.order@[m as int]));
            assert(order_view(order@) =~= order_view(self.order@.take(m + 1)));
            m = m + 1;
        }
        assert(self.order@.take(self.order@.len() as int) =~= self.order@);
        let mut updates: Vec<(String, SqlValue)> = Vec::new();
        let mut u: usize = 0;
        while u < self.update_columns.len()
            invariant
                u <= self.update_columns@.len(),
                pairs_view(updates@) == pairs_view(self.update_columns@.take(u as int)),
            decreases self.update_columns.len() - u,
        {
            let v = self.update_columns[u].1.duplicate();
            let name = self.update_columns[u].0.clone();
            let ghost prev = updates@;
            updates.push((name, v));
            assert(pairs_view(updates@) =~= pairs_view(prev).push((name@, v@)));
            assert(self.update_columns@.take(u + 1) =~= self.update_columns@.take(u as int).push(self.update_columns@[u as int]));
            assert(pairs_view(updates@) =~= pairs_view(self.update_columns@.take(u + 1)));
            u = u + 1;
        }
        assert(self.update_columns@.take(self.update_columns@.len() as int) =~= self.update_columns@);
        let mut ctes: Vec<(String, String)> = Vec::new();
        let mut c: usize = 0;
        while c < self.ctes.len()
            invariant
                c <= self.ctes@.len(),
                ctes@.map_values(|p: (String, String)| (p.0@, p.1@)) == self.ctes@.take(c as int).map_values(
                    |p: (String, String)| (p.0@, p.1@),
                ),
            decreases self.ctes.len() - c,
        {
            let a = self.ctes[c].0.clone();
            let b = self.ctes[c].1.clone();
            let ghost prev = ctes@;
            ctes.push((a, b));
            assert(ctes@.map_values(|p: (String, String)| (p.0@, p.1@)) =~= prev.map_values(|p: (String, String)| (p.0@, p.1@)).push((a@, b@)));
            assert(self.ctes@.take(c + 1) =~= self.ctes@.take(c as int).push(self.ctes@[c as int]));
            assert(ctes@.map_values(|p: (String, String)| (p.0@, p.1@)) =~= self.ctes@.take(c + 1).map_values(
                |p: (String, String)| (p.0@, p.1@),
            ));
            c = c + 1;
        }
        assert(self.ctes@.take(self.ctes@.len() as int) =~= self.ctes@);
        let select_cols = match &self.select_cols {
            Some(v) => Some(dup_strings(v)),
            None => None,
        };
        let having_rank_n = match &self.having_rank_n {
            Some(p) => Some((p.0.clone(), p.1)),
            None => None,
        };
        let r = QueryBuilder {
            table: self.table.clone(),
            select_cols,
            distinct: self.distinct,
            joins,
            conditions,
            group_by: dup_strings(&self.group_by),
            having: self.having.clone(),
            order,
            limit_val: self.limit_val,
            offset_val: self.offset_val,
            soft_delete_mode: self.soft_delete_mode,
            soft_delete_column: self.soft_delete_column.clone(),
            update_columns: updates,
            eager_loads: dup_strings(&self.eager_loads),
            dialect: self.dialect,
            ctes,
            cte_params: super::value::duplicate_all(self.cte_params.as_slice()),
            from_override: self.from_override.clone(),
            window_rank_alias: self.window_rank_alias.clone(),
            having_rank_n,
            excluded_scopes: self.excluded_scopes.clone(),
            _marker: PhantomData,
        };
        assert(r@ =~= self@);
        r
    }
}

} // verus!
