//! JSON column conditions and projections for [`QueryBuilder`], written in the
//! builder's dialect.

use vstd::prelude::*;
use crate::text::{append, chars_of, owned, push_char};
use super::builder::{QueryBuilder, QueryV, with_cond};
use super::condition::{CondV, Condition};
use super::ergonomics::add_select;
use super::value::{Dialect, IntoSqlValue, JoinOp};

verus! {

/// `col->>'key' = $1`, `json_extract(col,'$.key') = ?` or `JSON_VALUE(col,'$.key') = ?`.
pub open spec fn json_contains_sql(d: Dialect, col: Seq<char>, key: Seq<char>) -> Seq<char> {
    match d {
        Dialect::Postgres => col + "->>'"@ + key + "' = $1"@,
        Dialect::Sqlite => "json_extract("@ + col + ",'$."@ + key + "') = ?"@,
        Dialect::Mysql => "JSON_VALUE("@ + col + ",'$."@ + key + "') = ?"@,
    }
}

/// `path` without its leading `$.` prefixes.
pub open spec fn trim_root(path: Seq<char>) -> Seq<char>
    decreases path.len(),
{
    if path.len() >= 2 && path[0] == '$' && path[1] == '.' {
        trim_root(path.skip(2))
    } else {
        path
    }
}

/// `col #>> '{key}' = $1`, `json_extract(col,'path') = ?` or `JSON_VALUE(col,'path') = ?`.
pub open spec fn json_path_sql(d: Dialect, col: Seq<char>, path: Seq<char>) -> Seq<char> {
    match d {
        Dialect::Postgres => col + " #>> '{"@ + trim_root(path) + "}' = $1"@,
        Dialect::Sqlite => "json_extract("@ + col + ",'"@ + path + "') = ?"@,
        Dialect::Mysql => "JSON_VALUE("@ + col + ",'"@ + path + "') = ?"@,
    }
}

/// Whether the JSON array in `col` holds the bound value.
pub open spec fn json_array_sql(d: Dialect, col: Seq<char>) -> Seq<char> {
    match d {
        Dialect::Postgres => col + " @> $1::jsonb"@,
        Dialect::Sqlite => "EXISTS (SELECT 1 FROM json_each("@ + col + ") WHERE value = ?)"@,
        Dialect::Mysql => "JSON_CONTAINS("@ + col + ", ?)"@,
    }
}

/// The select expression of one JSON field under `alias`.
pub open spec fn json_field_sql(d: Dialect, col: Seq<char>, key: Seq<char>, alias: Seq<char>) -> Seq<char> {
    match d {
        Dialect::Postgres => col + "->>'"@ + key + "' AS "@ + alias,
        Dialect::Sqlite => "json_extract("@ + col + ",'$."@ + key + "') AS "@ + alias,
        Dialect::Mysql => "JSON_VALUE("@ + col + ",'$."@ + key + "') AS "@ + alias,
    }
}

/// `path` without its leading `$.` prefixes.
fn trim_root_exec(path: &str) -> (r: String)
    ensures
        r@ == trim_root(path@),
{
    let cs = chars_of(path);
    let mut i: usize = 0;
    assert(cs@.skip(0) =~= cs@);
    while i < cs.len() && i + 1 < cs.len() && cs[i] == '$' && cs[i + 1] == '.'
        invariant
            i <= cs@.len(),
            trim_root(cs@.skip(i as int)) == trim_root(cs@),
        decreases cs.len() - i,
    {
        assert(cs@.skip(i as int).skip(2) =~= cs@.skip(i + 2));
        i = i + 2;
    }
    assert(trim_root(cs@.skip(i as int)) == cs@.skip(i as int));
    let mut out = String::new();
    let mut k: usize = i;
    while k < cs.len()
        invariant
            i <= k <= cs@.len(),
            out@ == cs@.subrange(i as int, k as int),
        decreases cs.len() - k,
    {
        push_char(&mut out, cs[k]);
        assert(cs@.subrange(i as int, k + 1) =~= cs@.subrange(i as int, k as int).push(cs@[k as int]));
        k = k + 1;
    }
    assert(cs@.subrange(i as int, cs@.len() as int) =~= cs@.skip(i as int));
    out
}

impl<T> QueryBuilder<T> {
    /// Keep the rows whose JSON column `col` has `key` equal to `val`.
    pub fn where_json_contains<V: IntoSqlValue>(self, col: &str, key: &str, val: V) -> (r: Self)
        ensures
            r@ == with_cond(
                self@,
                JoinOp::And,
                CondV::RawExpr(json_contains_sql(self@.dialect, col@, key@), seq![val.sql_value_spec()]),
            ),
    {
        let v = val.into_sql_value();
        let sql = match self.dialect {
            Dialect::Postgres => {
                let mut s = owned(col);
                append(&mut s, "->>'");
                append(&mut s, key);
                append(&mut s, "' = $1");
                s
            },
            Dialect::Sqlite => {
                let mut s = owned("json_extract(");
                append(&mut s, col);
                append(&mut s, ",'$.");
                append(&mut s, key);
                append(&mut s, "') = ?");
                s
            },
            Dialect::Mysql => {
                let mut s = owned("JSON_VALUE(");
                append(&mut s, col);
                append(&mut s, ",'$.");
                append(&mut s, key);
                append(&mut s, "') = ?");
                s
            },
        };
        assert(sql@ =~= json_contains_sql(self@.dialect, col@, key@));
        let ps = vec![v];
        assert(super::value::vals(ps@) =~= seq![val.sql_value_spec()]);
        self.push(JoinOp::And, Condition::RawExpr(sql, ps))
    }

    /// Keep the rows whose JSON column `col` has `val` at `path` (`$.a.b`).
    pub fn where_json_path<V: IntoSqlValue>(self, col: &str, path: &str, val: V) -> (r: Self)
        ensures
            r@ == with_cond(
                self@,
                JoinOp::And,
                CondV::RawExpr(json_path_sql(self@.dialect, col@, path@), seq![val.sql_value_spec()]),
            ),
    {
        let v = val.into_sql_value();
        let sql = match self.dialect {
            Dialect::Postgres => {
                let key = trim_root_exec(path);
                let mut s = owned(col);
                append(&mut s, " #>> '{");
                append(&mut s, key.as_str());
                append(&mut s, "}' = $1");
                s
            },
            Dialect::Sqlite => {
                let mut s = owned("json_extract(");
                append(&mut s, col);
                append(&mut s, ",'");
                append(&mut s, path);
                append(&mut s, "') = ?");
                s
            },
            Dialect::Mysql => {
                let mut s = owned("JSON_VALUE(");
                append(&mut s, col);
                append(&mut s, ",'");
                append(&mut s, path);
                append(&mut s, "') = ?");
                s
            },
        };
        assert(sql@ =~= json_path_sql(self@.dialect, col@, path@));
        let ps = vec![v];
        assert(super::value::vals(ps@) =~= seq![val.sql_value_spec()]);
        self.push(JoinOp::And, Condition::RawExpr(sql, ps))
    }

    /// Keep the rows whose JSON array column `col` contains `val`.
    pub fn where_json_array_contains<V: IntoSqlValue>(self, col: &str, val: V) -> (r: Self)
        ensures
            r@ == with_cond(
                self@,
                JoinOp::And,
                CondV::RawExpr(json_array_sql(self@.dialect, col@), seq![val.sql_value_spec()]),
            ),
    {
        let v = val.into_sql_value();
        let sql = match self.dialect {
            Dialect::Postgres => {
                let mut s = owned(col);
                append(&mut s, " @> $1::jsonb");
                s
            },
            Dialect::Sqlite => {
                let mut s = owned("EXISTS (SELECT 1 FROM json_each(");
                append(&mut s, col);
                append(&mut s, ") WHERE value = ?)");
                s
            },
            Dialect::Mysql => {
                let mut s = owned("JSON_CONTAINS(");
                append(&mut s, col);
                append(&mut s, ", ?)");
                s
            },
        };
        assert(sql@ =~= json_array_sql(self@.dialect, col@));
        let ps = vec![v];
        assert(super::value::vals(ps@) =~= seq![val.sql_value_spec()]);
        self.push(JoinOp::And, Condition::RawExpr(sql, ps))
    }

    /// Add the JSON field `key` of `col` to the select list as `alias`.
    pub fn select_json_field(self, col: &str, key: &str, alias: &str) -> (r: Self)
        ensures
            r@ == add_select(self@, json_field_sql(self@.dialect, col@, key@, alias@)),
    {
        let expr = match self.dialect {
            Dialect::Postgres => {
                let mut s = owned(col);
                append(&mut s, "->>'");
                append(&mut s, key);
                append(&mut s, "' AS ");
                append(&mut s, alias);
                s
            },
            Dialect::Sqlite => {
                let mut s = owned("json_extract(");
                append(&mut s, col);
                append(&mut s, ",'$.");
                append(&mut s, key);
                append(&mut s, "') AS ");
                append(&mut s, alias);
                s
            },
            Dialect::Mysql => {
                let mut s = owned("JSON_VALUE(");
                append(&mut s, col);
                append(&mut s, ",'$.");
                append(&mut s, key);
                append(&mut s, "') AS ");
                append(&mut s, alias);
                s
            },
        };
        assert(expr@ =~= json_field_sql(self@.dialect, col@, key@, alias@));
        self.add_select_expr(expr.as_str())
    }
}

} // verus!
