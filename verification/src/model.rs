//! The [`Model`] trait, mass-assignment filtering, and the mute flags that
//! executors consult before injecting timestamps or dispatching events.

use vstd::prelude::*;
use crate::text::{append, owned, str_eq};
use crate::query::builder::{QueryBuilder, QueryV, data_view, new_query, with_cond};
use crate::query::condition::CondV;
use crate::query::value::{IntoSqlValue, JoinOp, SqlVal, SqlValue};

verus! {

// ── mute flags ──────────────────────────────────────────────────────────────

/// Whether timestamp injection and event dispatch are currently suppressed.
///
/// Executors keep one value of this per thread and consult it before writing.
#[derive(Debug, Clone, Copy, PartialEq, Eq)]
pub struct MuteFlags {
    pub timestamps: bool,
    pub events: bool,
}

impl MuteFlags {
    /// Nothing muted.
    pub fn new() -> (r: MuteFlags)
        ensures
            r == (MuteFlags { timestamps: false, events: false }),
    {
        MuteFlags { timestamps: false, events: false }
    }
}

/// Whether timestamp injection is muted.
pub fn timestamps_muted(flags: &MuteFlags) -> (r: bool)
    ensures
        r == flags.timestamps,
{
    flags.timestamps
}

/// Whether event/hook dispatch is muted.
pub fn events_muted(flags: &MuteFlags) -> (r: bool)
    ensures
        r == flags.events,
{
    flags.events
}

// ── mass assignment ─────────────────────────────────────────────────────────

/// Whether `col` is one of `cols`.
pub open spec fn listed(cols: Seq<&str>, col: Seq<char>) -> bool {
    exists|i: int| 0 <= i < cols.len() && #[trigger] cols[i]@ == col
}

/// The pairs of `data` whose column is listed in `cols` (when `keep`) or not
/// listed (when `!keep`), in order.
pub open spec fn keep_cols(data: Seq<(Seq<char>, SqlVal)>, cols: Seq<&str>, keep: bool) -> Seq<(Seq<char>, SqlVal)>
    decreases data.len(),
{
    if data.len() == 0 {
        seq![]
    } else {
        let prev = keep_cols(data.drop_last(), cols, keep);
        if listed(cols, data.last().0) == keep {
            prev.push(data.last())
        } else {
            prev
        }
    }
}

/// What mass assignment lets through: with a non-empty `fillable`, only its
/// columns; else, with a non-empty `guarded`, all but its columns; else all.
pub open spec fn fillable_spec(data: Seq<(Seq<char>, SqlVal)>, fillable: Seq<&str>, guarded: Seq<&str>) -> Seq<(Seq<char>, SqlVal)> {
    if fillable.len() > 0 {
        keep_cols(data, fillable, true)
    } else if guarded.len() > 0 {
        keep_cols(data, guarded, false)
    } else {
        data
    }
}

/// Whether `col` is one of `cols`.
fn contains_col(cols: &[&str], col: &str) -> (r: bool)
    ensures
        r == listed(cols@, col@),
{
    let mut i: usize = 0;
    while i < cols.len()
        invariant
            i <= cols@.len(),
            forall|j: int| 0 <= j < i ==> cols@[j]@ != col@,
        decreases cols.len() - i,
    {
        if str_eq(cols[i], col) {
            return true;
        }
        i = i + 1;
    }
    false
}

/// `data` filtered through the `fillable` / `guarded` lists.
pub fn filter_columns<'a>(data: &[(&'a str, SqlValue)], fillable: &[&str], guarded: &[&str]) -> (r: Vec<(&'a str, SqlValue)>)
    ensures
        data_view(r@) == fillable_spec(data_view(data@), fillable@, guarded@),
{
    let ghost dv = data_view(data@);
    let mut out: Vec<(&'a str, SqlValue)> = Vec::new();
    let mut i: usize = 0;
    while i < data.len()
        invariant
            i <= data@.len(),
            dv == data_view(data@),
            data_view(out@) == fillable_spec(dv.take(i as int), fillable@, guarded@),
        decreases data.len() - i,
    {
        let col = data[i].0;
        let keep = if fillable.len() > 0 {
            contains_col(fillable, col)
        } else if guarded.len() > 0 {
            !contains_col(guarded, col)
        } else {
            true
        };
        assert(dv.take(i + 1).drop_last() =~= dv.take(i as int));
        assert(dv[i as int] == (data@[i as int].0@, data@[i as int].1@));
        let ghost prev = out@;
        if keep {
            let v = data[i].1.duplicate();
            out.push((col, v));
            assert(data_view(out@) =~= data_view(prev).push((col@, v@)));
        }
        assert(data_view(out@) =~= fillable_spec(dv.take(i + 1), fillable@, guarded@));
        i = i + 1;
    }
    assert(dv.take(data@.len() as int) =~= dv);
    out
}

/// Whether a column already has a value among `pairs`.
pub open spec fn has_col(pairs: Seq<(Seq<char>, SqlVal)>, col: Seq<char>) -> bool {
    exists|i: int| 0 <= i < pairs.len() && #[trigger] pairs[i].0 == col
}

/// `conditions` followed by each pair of `data` whose column has no value yet.
pub open spec fn first_or_new_spec(conditions: Seq<(Seq<char>, SqlVal)>, data: Seq<(Seq<char>, SqlVal)>) -> Seq<(Seq<char>, SqlVal)>
    decreases data.len(),
{
    if data.len() == 0 {
        conditions
    } else {
        let prev = first_or_new_spec(conditions, data.drop_last());
        if has_col(prev, data.last().0) {
            prev
        } else {
            prev.push(data.last())
        }
    }
}

/// Whether a column already has a value among `pairs`.
fn has_col_exec<'a>(pairs: &Vec<(&'a str, SqlValue)>, col: &str) -> (r: bool)
    ensures
        r == has_col(data_view(pairs@), col@),
{
    let ghost pv = data_view(pairs@);
    let mut i: usize = 0;
    while i < pairs.len()
        invariant
            i <= pairs@.len(),
            pv == data_view(pairs@),
            forall|j: int| 0 <= j < i ==> pv[j].0 != col@,
        decreases pairs.len() - i,
    {
        assert(pv[i as int].0 == pairs@[i as int].0@);
        if str_eq(pairs[i].0, col) {
            return true;
        }
        i = i + 1;
    }
    false
}

/// Merges `conditions` and `data` into the fields of a new record; a column of
/// `data` that already has a value keeps the first one.
pub fn merge_first_or_new<'a>(conditions: &[(&'a str, SqlValue)], data: &[(&'a str, SqlValue)]) -> (r: Vec<(&'a str, SqlValue)>)
    ensures
        data_view(r@) == first_or_new_spec(data_view(conditions@), data_view(data@)),
{
    let ghost cv = data_view(conditions@);
    let ghost dv = data_view(data@);
    let mut merged: Vec<(&'a str, SqlValue)> = Vec::new();
    let mut k: usize = 0;
    while k < conditions.len()
        invariant
            k <= conditions@.len(),
            cv == data_view(conditions@),
            data_view(merged@) == cv.take(k as int),
        decreases conditions.len() - k,
    {
        let v = conditions[k].1.duplicate();
        let ghost prev = merged@;
        merged.push((conditions[k].0, v));
        assert(data_view(merged@) =~= data_view(prev).push((conditions@[k as int].0@, v@)));
        assert(cv.take(k + 1) =~= cv.take(k as int).push(cv[k as int]));
        k = k + 1;
    }
    assert(cv.take(conditions@.len() as int) =~= cv);
    let mut i: usize = 0;
    while i < data.len()
        invariant
            i <= data@.len(),
            dv == data_view(data@),
            data_view(merged@) == first_or_new_spec(cv, dv.take(i as int)),
        decreases data.len() - i,
    {
        assert(dv.take(i + 1).drop_last() =~= dv.take(i as int));
        assert(dv[i as int] == (data@[i as int].0@, data@[i as int].1@));
        if !has_col_exec(&merged, data[i].0) {
            let v = data[i].1.duplicate();
            let ghost prev = merged@;
            merged.push((data[i].0, v));
            assert(data_view(merged@) =~= data_view(prev).push((data@[i as int].0@, v@)));
        }
        i = i + 1;
    }
    assert(dv.take(data@.len() as int) =~= dv);
    merged
}

/// Every pair that `keep_cols` keeps has its column listed (when `keep`) or
/// not listed (when `!keep`).
pub proof fn lemma_keep_cols(data: Seq<(Seq<char>, SqlVal)>, cols: Seq<&str>, keep: bool)
    ensures
        forall|i: int| #![trigger keep_cols(data, cols, keep)[i]]
            0 <= i < keep_cols(data, cols, keep).len() ==> listed(cols, keep_cols(data, cols, keep)[i].0) == keep,
        keep_cols(data, cols, keep).len() <= data.len(),
    decreases data.len(),
{
    if data.len() > 0 {
        lemma_keep_cols(data.drop_last(), cols, keep);
        let prev = keep_cols(data.drop_last(), cols, keep);
        let cur = keep_cols(data, cols, keep);
        assert forall|i: int| #![trigger cur[i]] 0 <= i < cur.len() implies listed(cols, cur[i].0) == keep by {
            if i < prev.len() {
                assert(cur[i] == prev[i]);
            }
        }
    }
}

/// Mass assignment lets through only fillable columns when there are any,
/// else no guarded column.
pub proof fn lemma_fillable_columns(data: Seq<(Seq<char>, SqlVal)>, fillable: Seq<&str>, guarded: Seq<&str>)
    ensures
        forall|i: int| #![trigger fillable_spec(data, fillable, guarded)[i]]
            0 <= i < fillable_spec(data, fillable, guarded).len() ==> {
                let c = fillable_spec(data, fillable, guarded)[i].0;
                &&& fillable.len() > 0 ==> listed(fillable, c)
                &&& fillable.len() == 0 && guarded.len() > 0 ==> !listed(guarded, c)
            },
{
    lemma_keep_cols(data, fillable, true);
    lemma_keep_cols(data, guarded, false);
}

/// The conditions come first and win: the merged fields start with the
/// conditions, and no later field repeats a column that already has a value.
pub proof fn lemma_first_or_new_priority(conditions: Seq<(Seq<char>, SqlVal)>, data: Seq<(Seq<char>, SqlVal)>)
    ensures
        first_or_new_spec(conditions, data).len() >= conditions.len(),
        first_or_new_spec(conditions, data).take(conditions.len() as int) == conditions,
        forall|i: int| #![trigger first_or_new_spec(conditions, data)[i]]
            conditions.len() <= i < first_or_new_spec(conditions, data).len() ==> !has_col(
                first_or_new_spec(conditions, data).take(i),
                first_or_new_spec(conditions, data)[i].0,
            ),
    decreases data.len(),
{
    if data.len() == 0 {
        assert(conditions.take(conditions.len() as int) =~= conditions);
    } else {
        lemma_first_or_new_priority(conditions, data.drop_last());
        let prev = first_or_new_spec(conditions, data.drop_last());
        let cur = first_or_new_spec(conditions, data);
        if !has_col(prev, data.last().0) {
            assert(cur.take(conditions.len() as int) =~= prev.take(conditions.len() as int));
            assert forall|i: int| #![trigger cur[i]] conditions.len() <= i < cur.len() implies !has_col(
                cur.take(i),
                cur[i].0,
            ) by {
                if i < prev.len() {
                    assert(cur.take(i) =~= prev.take(i));
                    assert(cur[i] == prev[i]);
                } else {
                    assert(cur.take(i) =~= prev);
                }
            }
        }
    }
}

// ── Model ───────────────────────────────────────────────────────────────────

/// The query of a model over `table`: soft-deleted rows hidden when the model
/// has a soft-delete column.
pub open spec fn model_query(table: Seq<char>, soft_delete: Option<&str>) -> QueryV {
    match soft_delete {
        Some(c) => QueryV { soft_delete_column: Some(c@), ..new_query(table) },
        None => new_query(table),
    }
}

/// A database-backed record type: its table, columns and write rules.
pub trait Model: Sized {
    fn table_name() -> &'static str;

    fn primary_key() -> (r: &'static str)
        default_ensures
            r@ == "id"@,
    {
        "id"
    }

    fn columns() -> &'static [&'static str];

    fn soft_delete_column() -> (r: Option<&'static str>)
        default_ensures
            r is None,
    {
        None
    }

    fn timestamps_enabled() -> (r: bool)
        default_ensures
            !r,
    {
        false
    }

    fn created_at_column() -> (r: Option<&'static str>)
        default_ensures
            r is None,
    {
        None
    }

    fn updated_at_column() -> (r: Option<&'static str>)
        default_ensures
            r is None,
    {
        None
    }

    /// Columns allowed for mass assignment. Empty slice means all columns are allowed.
    fn fillable() -> (r: &'static [&'static str])
        default_ensures
            r@.len() == 0,
    {
        &[]
    }

    /// Columns blocked from mass assignment. Empty slice means nothing is guarded.
    fn guarded() -> (r: &'static [&'static str])
        default_ensures
            r@.len() == 0,
    {
        &[]
    }

    /// Relation names whose parent's `updated_at` should be touched after writes.
    fn touches() -> (r: &'static [&'static str])
        default_ensures
            r@.len() == 0,
    {
        &[]
    }

    /// Named connection key for this model.
    fn connection() -> (r: &'static str)
        default_ensures
            r@ == "default"@,
    {
        "default"
    }

    /// Filter `data` through the fillable/guarded lists.
    ///
    /// If `fillable()` is non-empty, only listed columns pass through.
    /// Otherwise, `guarded()` columns are blocked.
    fn filter_fillable<'a>(data: &[(&'a str, SqlValue)]) -> (r: Vec<(&'a str, SqlValue)>)
        ensures
            exists|fillable: &[&str], guarded: &[&str]|
                call_ensures(Self::fillable, (), fillable) && call_ensures(Self::guarded, (), guarded)
                    && data_view(r@) == fillable_spec(data_view(data@), fillable@, guarded@),
    {
        let fillable = Self::fillable();
        let guarded = Self::guarded();
        let r = filter_columns(data, fillable, guarded);
        assert(call_ensures(Self::fillable, (), fillable) && call_ensures(Self::guarded, (), guarded)
            && data_view(r@) == fillable_spec(data_view(data@), fillable@, guarded@));
        r
    }

    /// A builder over this model's table, hiding soft-deleted rows when the
    /// model has a soft-delete column.
    fn query() -> (r: QueryBuilder<Self>)
        ensures
            exists|table: &str, soft: Option<&str>|
                call_ensures(Self::table_name, (), table) && call_ensures(Self::soft_delete_column, (), soft)
                    && r@ == model_query(table@, soft),
    {
        let table = Self::table_name();
        let soft = Self::soft_delete_column();
        let builder = QueryBuilder::new(table);
        let r = match soft {
            Some(col) => builder.with_soft_delete(col),
            None => builder,
        };
        assert(call_ensures(Self::table_name, (), table) && call_ensures(Self::soft_delete_column, (), soft)
            && r@ == model_query(table@, soft));
        r
    }

    /// Run `f` with timestamp injection muted, then unmute it.
    fn without_timestamps<F: FnOnce(&MuteFlags) -> R, R>(flags: &mut MuteFlags, f: F) -> (r: R)
        requires
            call_requires(f, (&MuteFlags { timestamps: true, events: old(flags).events },)),
        ensures
            call_ensures(f, (&MuteFlags { timestamps: true, events: old(flags).events },), r),
            *final(flags) == (MuteFlags { timestamps: false, events: old(flags).events }),
    {
        flags.timestamps = true;
        let result = f(&*flags);
        flags.timestamps = false;
        result
    }

    /// Run `f` with event dispatch muted, then unmute it.
    fn without_events<F: FnOnce(&MuteFlags) -> R, R>(flags: &mut MuteFlags, f: F) -> (r: R)
        requires
            call_requires(f, (&MuteFlags { timestamps: old(flags).timestamps, events: true },)),
        ensures
            call_ensures(f, (&MuteFlags { timestamps: old(flags).timestamps, events: true },), r),
            *final(flags) == (MuteFlags { timestamps: old(flags).timestamps, events: false }),
    {
        flags.events = true;
        let result = f(&*flags);
        flags.events = false;
        result
    }

    /// Generate a new unique primary key, or `None` for auto-increment.
    fn new_unique_id() -> (r: Option<SqlValue>)
        default_ensures
            r is None,
    {
        None
    }

    /// Merge `conditions` + `data` into a field list for building a new unsaved record.
    /// Duplicate keys from `data` that already appear in `conditions` are ignored.
    fn first_or_new<'a>(conditions: &[(&'a str, SqlValue)], data: &[(&'a str, SqlValue)]) -> (r: Vec<(&'a str, SqlValue)>)
        ensures
            data_view(r@) == first_or_new_spec(data_view(conditions@), data_view(data@)),
    {
        merge_first_or_new(conditions, data)
    }

    /// Compare two records by value equality.
    fn is(&self, other: &Self) -> (r: bool) where Self: PartialEq
        ensures
            call_ensures(Self::eq, (self, other), r),
    {
        self.eq(other)
    }

    /// A copy of this record.
    fn replicate(&self) -> (r: Self) where Self: Clone
        ensures
            call_ensures(Self::clone, (self,), r),
    {
        self.clone()
    }

    /// Serialize non-PK columns for INSERT/UPDATE.
    fn to_fields(&self) -> (r: Vec<(&'static str, SqlValue)>)
        default_ensures
            r@.len() == 0,
    {
        Vec::new()
    }

    /// Columns excluded from serialized output.
    fn hidden() -> (r: &'static [&'static str])
        default_ensures
            r@.len() == 0,
    {
        &[]
    }

    /// Column whitelist for serialized output. Empty means all non-hidden.
    fn visible() -> (r: &'static [&'static str])
        default_ensures
            r@.len() == 0,
    {
        &[]
    }

    /// Computed field names appended to serialized output.
    fn appends() -> (r: &'static [&'static str])
        default_ensures
            r@.len() == 0,
    {
        &[]
    }

    /// Apply post-load decoding for cast fields.
    fn post_process(&mut self) {
    }

    /// The builder for the row whose primary key is `id`.
    fn find<V: IntoSqlValue>(id: V) -> (r: QueryBuilder<Self>)
        ensures
            exists|table: &str, soft: Option<&str>, pk: &str|
                call_ensures(Self::table_name, (), table) && call_ensures(Self::soft_delete_column, (), soft)
                    && call_ensures(Self::primary_key, (), pk) && r@ == with_cond(
                    model_query(table@, soft),
                    JoinOp::And,
                    CondV::Eq(pk@, id.sql_value_spec()),
                ),
    {
        let q = Self::query();
        let pk = Self::primary_key();
        let r = q.where_eq(pk, id);
        let ghost (t, c) = choose|table: &str, soft: Option<&str>|
            call_ensures(Self::table_name, (), table) && call_ensures(Self::soft_delete_column, (), soft) && q@
                == model_query(table@, soft);
        assert(call_ensures(Self::table_name, (), t) && call_ensures(Self::soft_delete_column, (), c)
            && call_ensures(Self::primary_key, (), pk) && r@ == with_cond(
            model_query(t@, c),
            JoinOp::And,
            CondV::Eq(pk@, id.sql_value_spec()),
        ));
        r
    }

    /// The builder itself: a hook for models that refine lookups.
    fn find_where(builder: QueryBuilder<Self>) -> (r: QueryBuilder<Self>)
        ensures
            r@ == builder@,
    {
        builder
    }
}

// ── Prunable ────────────────────────────────────────────────────────────────

/// A model whose stale rows can be pruned: the rows its query selects are deleted.
pub trait Prunable: Model {
    fn prunable_query() -> QueryBuilder<Self>;
}

// ── NotFoundError ───────────────────────────────────────────────────────────

/// A lookup by primary key found no row.
#[derive(Debug)]
pub struct NotFoundError {
    pub model: &'static str,
    pub id: String,
}

impl NotFoundError {
    /// `"{model} with id '{id}' not found"`.
    pub fn message(&self) -> (r: String)
        ensures
            r@ == self.model@ + " with id '"@ + self.id@ + "' not found"@,
    {
        let mut out = owned(self.model);
        append(&mut out, " with id '");
        append(&mut out, self.id.as_str());
        append(&mut out, "' not found");
        out
    }
}

} // verus!
