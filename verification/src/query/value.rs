//! SQL values and the small enums of the query builder.

use vstd::prelude::*;
use crate::text::{i64_dec, int_dec, owned, push_char, replace, seq_replace, append};

verus! {

// ── SqlValue ────────────────────────────────────────────────────────────────

/// A typed SQL parameter value.
///
/// A floating-point value is held as its decimal text, as `f64`'s `Display`
/// writes it; the text is what a literal rendering shows and what a driver
/// parses back when it binds the value.
#[derive(Debug, Clone, PartialEq)]
pub enum SqlValue {
    Text(String),
    Integer(i64),
    Float(String),
    Bool(bool),
    Null,
}

/// The mathematical value of a [`SqlValue`].
pub enum SqlVal {
    Text(Seq<char>),
    Integer(i64),
    Float(Seq<char>),
    Bool(bool),
    Null,
}

impl View for SqlValue {
    type V = SqlVal;

    open spec fn view(&self) -> SqlVal {
        match self {
            SqlValue::Text(s) => SqlVal::Text(s@),
            SqlValue::Integer(n) => SqlVal::Integer(*n),
            SqlValue::Float(t) => SqlVal::Float(t@),
            SqlValue::Bool(b) => SqlVal::Bool(*b),
            SqlValue::Null => SqlVal::Null,
        }
    }
}

/// The values of a sequence of [`SqlValue`]s.
pub open spec fn vals(s: Seq<SqlValue>) -> Seq<SqlVal> {
    s.map_values(|v: SqlValue| v@)
}

/// `s` with every `'` doubled.
pub open spec fn escape_quotes(s: Seq<char>) -> Seq<char> {
    seq_replace(s, seq!['\''], seq!['\'', '\''])
}

/// Reading an escaped text back: each `''` becomes `'`.
pub open spec fn unescape_quotes(t: Seq<char>) -> Seq<char>
    decreases t.len(),
{
    if t.len() == 0 {
        seq![]
    } else if t.len() >= 2 && t[0] == '\'' && t[1] == '\'' {
        seq!['\''] + unescape_quotes(t.skip(2))
    } else {
        seq![t[0]] + unescape_quotes(t.skip(1))
    }
}

/// Doubling quotes can be undone: reading the escaped text back gives the
/// original, so a text literal is never ambiguous.
pub proof fn lemma_escape_quotes_undone(s: Seq<char>)
    ensures
        unescape_quotes(escape_quotes(s)) == s,
    decreases s.len(),
{
    if s.len() > 0 {
        lemma_escape_quotes_undone(s.skip(1));
        let e = escape_quotes(s);
        let rest = escape_quotes(s.skip(1));
        if s.take(1) == seq!['\''] {
            assert(s.take(1)[0] == s[0]);
            assert(s[0] == '\'');
            assert(e == seq!['\'', '\''] + rest);
            assert(e.skip(2) =~= rest);
            assert(unescape_quotes(e) =~= s);
        } else {
            assert(s[0] != '\'') by {
                if s[0] == '\'' {
                    assert(s.take(1) =~= seq!['\'']);
                }
            }
            assert(e == seq![s[0]] + rest);
            assert(e.skip(1) =~= rest);
            if e.len() >= 2 {
                assert(e[0] == s[0]);
            }
            assert(unescape_quotes(e) =~= s);
        }
    }
}

/// The SQL literal of a value.
pub open spec fn literal_spec(v: SqlVal) -> Seq<char> {
    match v {
        SqlVal::Text(s) => seq!['\''] + escape_quotes(s) + seq!['\''],
        SqlVal::Integer(n) => int_dec(n as int),
        SqlVal::Float(t) => t,
        SqlVal::Bool(b) => if b { seq!['T', 'R', 'U', 'E'] } else { seq!['F', 'A', 'L', 'S', 'E'] },
        SqlVal::Null => seq!['N', 'U', 'L', 'L'],
    }
}

/// The characters of a short ASCII word.
pub fn word(cs: &[char]) -> (r: String)
    ensures
        r@ == cs@,
{
    let mut out = String::new();
    let mut i: usize = 0;
    while i < cs.len()
        invariant
            i <= cs@.len(),
            out@ == cs@.take(i as int),
        decreases cs.len() - i,
    {
        push_char(&mut out, cs[i]);
        assert(cs@.take(i + 1) =~= cs@.take(i as int).push(cs@[i as int]));
        i = i + 1;
    }
    assert(cs@.take(cs@.len() as int) =~= cs@);
    out
}

impl SqlValue {
    /// An exact copy.
    pub fn duplicate(&self) -> (r: SqlValue)
        ensures
            r@ == self@,
    {
        match self {
            SqlValue::Text(s) => SqlValue::Text(s.clone()),
            SqlValue::Integer(n) => SqlValue::Integer(*n),
            SqlValue::Float(t) => SqlValue::Float(t.clone()),
            SqlValue::Bool(b) => SqlValue::Bool(*b),
            SqlValue::Null => SqlValue::Null,
        }
    }

    /// Render as a SQL literal (for display / debug — not safe for user input).
    pub fn to_sql_literal(&self) -> (r: String)
        ensures
            r@ == literal_spec(self@),
    {
        match self {
            SqlValue::Text(s) => {
                proof {
                    reveal_strlit("'");
                }
                let esc = replace(s.as_str(), "'", "''");
                let mut out = String::new();
                push_char(&mut out, '\'');
                append(&mut out, esc.as_str());
                push_char(&mut out, '\'');
                proof {
                    reveal_strlit("'");
                    reveal_strlit("''");
                    assert("'"@ =~= seq!['\'']);
                    assert("''"@ =~= seq!['\'', '\'']);
                    assert(out@ =~= seq!['\''] + escape_quotes(s@) + seq!['\'']);
                }
                out
            },
            SqlValue::Integer(n) => i64_dec(*n),
            SqlValue::Float(t) => t.clone(),
            SqlValue::Bool(b) => {
                if *b {
                    word(&['T', 'R', 'U', 'E'])
                } else {
                    word(&['F', 'A', 'L', 'S', 'E'])
                }
            },
            SqlValue::Null => word(&['N', 'U', 'L', 'L']),
        }
    }
}

/// The values of a sequence with one more element.
pub proof fn lemma_vals_push(s: Seq<SqlValue>, x: SqlValue)
    ensures
        vals(s.push(x)) == vals(s).push(x@),
{
    assert(vals(s.push(x)) =~= vals(s).push(x@));
}

/// The values of a concatenation.
pub proof fn lemma_vals_add(s: Seq<SqlValue>, t: Seq<SqlValue>)
    ensures
        vals(s + t) == vals(s) + vals(t),
{
    assert(vals(s + t) =~= vals(s) + vals(t));
}

/// Copies of a sequence of values.
pub fn duplicate_all(vs: &[SqlValue]) -> (r: Vec<SqlValue>)
    ensures
        vals(r@) == vals(vs@),
{
    let mut out: Vec<SqlValue> = Vec::new();
    let mut i: usize = 0;
    while i < vs.len()
        invariant
            i <= vs@.len(),
            vals(out@) == vals(vs@.take(i as int)),
        decreases vs.len() - i,
    {
        let ghost prev = out@;
        let d = vs[i].duplicate();
        out.push(d);
        proof {
            lemma_vals_push(prev, d);
            assert(vs@.take(i + 1) =~= vs@.take(i as int).push(vs@[i as int]));
            lemma_vals_push(vs@.take(i as int), vs@[i as int]);
        }
        i = i + 1;
    }
    assert(vs@.take(vs@.len() as int) =~= vs@);
    out
}

impl From<&str> for SqlValue {
    fn from(s: &str) -> Self {
        SqlValue::Text(owned(s))
    }
}

impl From<String> for SqlValue {
    fn from(s: String) -> Self {
        SqlValue::Text(s)
    }
}

impl From<i8> for SqlValue {
    fn from(n: i8) -> Self {
        SqlValue::Integer(n as i64)
    }
}

impl From<i16> for SqlValue {
    fn from(n: i16) -> Self {
        SqlValue::Integer(n as i64)
    }
}

impl From<i32> for SqlValue {
    fn from(n: i32) -> Self {
        SqlValue::Integer(n as i64)
    }
}

impl From<i64> for SqlValue {
    fn from(n: i64) -> Self {
        SqlValue::Integer(n)
    }
}

impl From<u32> for SqlValue {
    fn from(n: u32) -> Self {
        SqlValue::Integer(n as i64)
    }
}

impl From<u64> for SqlValue {
    fn from(n: u64) -> Self {
        SqlValue::Integer(n as i64)
    }
}

impl From<bool> for SqlValue {
    fn from(b: bool) -> Self {
        SqlValue::Bool(b)
    }
}

impl vstd::std_specs::convert::FromSpecImpl<&str> for SqlValue {
    open spec fn obeys_from_spec() -> bool {
        false
    }

    open spec fn from_spec(s: &str) -> SqlValue {
        SqlValue::Null
    }
}

impl vstd::std_specs::convert::FromSpecImpl<String> for SqlValue {
    open spec fn obeys_from_spec() -> bool {
        true
    }

    open spec fn from_spec(s: String) -> SqlValue {
        SqlValue::Text(s)
    }
}

impl vstd::std_specs::convert::FromSpecImpl<i8> for SqlValue {
    open spec fn obeys_from_spec() -> bool {
        true
    }

    open spec fn from_spec(n: i8) -> SqlValue {
        SqlValue::Integer(n as i64)
    }
}

impl vstd::std_specs::convert::FromSpecImpl<i16> for SqlValue {
    open spec fn obeys_from_spec() -> bool {
        true
    }

    open spec fn from_spec(n: i16) -> SqlValue {
        SqlValue::Integer(n as i64)
    }
}

impl vstd::std_specs::convert::FromSpecImpl<i32> for SqlValue {
    open spec fn obeys_from_spec() -> bool {
        true
    }

    open spec fn from_spec(n: i32) -> SqlValue {
        SqlValue::Integer(n as i64)
    }
}

impl vstd::std_specs::convert::FromSpecImpl<i64> for SqlValue {
    open spec fn obeys_from_spec() -> bool {
        true
    }

    open spec fn from_spec(n: i64) -> SqlValue {
        SqlValue::Integer(n)
    }
}

impl vstd::std_specs::convert::FromSpecImpl<u32> for SqlValue {
    open spec fn obeys_from_spec() -> bool {
        true
    }

    open spec fn from_spec(n: u32) -> SqlValue {
        SqlValue::Integer(n as i64)
    }
}

impl vstd::std_specs::convert::FromSpecImpl<u64> for SqlValue {
    open spec fn obeys_from_spec() -> bool {
        true
    }

    open spec fn from_spec(n: u64) -> SqlValue {
        SqlValue::Integer(n as i64)
    }
}

impl vstd::std_specs::convert::FromSpecImpl<bool> for SqlValue {
    open spec fn obeys_from_spec() -> bool {
        true
    }

    open spec fn from_spec(b: bool) -> SqlValue {
        SqlValue::Bool(b)
    }
}

/// `None` maps to `Null`, `Some(v)` to the value of `v`.
impl<T: Into<SqlValue>> From<Option<T>> for SqlValue {
    fn from(opt: Option<T>) -> (r: SqlValue)
        ensures
            opt is None ==> r@ == SqlVal::Null,
    {
        match opt {
            Some(v) => v.into(),
            None => SqlValue::Null,
        }
    }
}

impl<T: Into<SqlValue>> vstd::std_specs::convert::FromSpecImpl<Option<T>> for SqlValue {
    open spec fn obeys_from_spec() -> bool {
        false
    }

    open spec fn from_spec(opt: Option<T>) -> SqlValue {
        SqlValue::Null
    }
}

// ── arguments ───────────────────────────────────────────────────────────────

/// A Rust value that converts into a [`SqlValue`] argument.
pub trait IntoSqlValue: Sized {
    /// The value this argument stands for.
    spec fn sql_value_spec(&self) -> SqlVal;

    /// Converts into a [`SqlValue`].
    fn into_sql_value(self) -> (r: SqlValue)
        ensures
            r@ == self.sql_value_spec(),
    ;
}

impl IntoSqlValue for SqlValue {
    open spec fn sql_value_spec(&self) -> SqlVal {
        self@
    }

    fn into_sql_value(self) -> (r: SqlValue) {
        self
    }
}

impl<'a> IntoSqlValue for &'a str {
    open spec fn sql_value_spec(&self) -> SqlVal {
        SqlVal::Text(self@)
    }

    fn into_sql_value(self) -> (r: SqlValue) {
        SqlValue::Text(owned(self))
    }
}

impl IntoSqlValue for String {
    open spec fn sql_value_spec(&self) -> SqlVal {
        SqlVal::Text(self@)
    }

    fn into_sql_value(self) -> (r: SqlValue) {
        SqlValue::Text(self)
    }
}

impl IntoSqlValue for i8 {
    open spec fn sql_value_spec(&self) -> SqlVal {
        SqlVal::Integer(*self as i64)
    }

    fn into_sql_value(self) -> (r: SqlValue) {
        SqlValue::Integer(self as i64)
    }
}

impl IntoSqlValue for i16 {
    open spec fn sql_value_spec(&self) -> SqlVal {
        SqlVal::Integer(*self as i64)
    }

    fn into_sql_value(self) -> (r: SqlValue) {
        SqlValue::Integer(self as i64)
    }
}

impl IntoSqlValue for i32 {
    open spec fn sql_value_spec(&self) -> SqlVal {
        SqlVal::Integer(*self as i64)
    }

    fn into_sql_value(self) -> (r: SqlValue) {
        SqlValue::Integer(self as i64)
    }
}

impl IntoSqlValue for i64 {
    open spec fn sql_value_spec(&self) -> SqlVal {
        SqlVal::Integer(*self)
    }

    fn into_sql_value(self) -> (r: SqlValue) {
        SqlValue::Integer(self)
    }
}

impl IntoSqlValue for u32 {
    open spec fn sql_value_spec(&self) -> SqlVal {
        SqlVal::Integer(*self as i64)
    }

    fn into_sql_value(self) -> (r: SqlValue) {
        SqlValue::Integer(self as i64)
    }
}

impl IntoSqlValue for u64 {
    /// Values above `i64::MAX` wrap, as `as i64` does.
    open spec fn sql_value_spec(&self) -> SqlVal {
        SqlVal::Integer(*self as i64)
    }

    fn into_sql_value(self) -> (r: SqlValue) {
        SqlValue::Integer(self as i64)
    }
}

impl IntoSqlValue for bool {
    open spec fn sql_value_spec(&self) -> SqlVal {
        SqlVal::Bool(*self)
    }

    fn into_sql_value(self) -> (r: SqlValue) {
        SqlValue::Bool(self)
    }
}

impl<V: IntoSqlValue> IntoSqlValue for Option<V> {
    open spec fn sql_value_spec(&self) -> SqlVal {
        match self {
            Some(v) => v.sql_value_spec(),
            None => SqlVal::Null,
        }
    }

    fn into_sql_value(self) -> (r: SqlValue) {
        match self {
            Some(v) => v.into_sql_value(),
            None => SqlValue::Null,
        }
    }
}

/// The values a list of arguments stands for.
pub open spec fn arg_vals<V: IntoSqlValue>(vs: Seq<V>) -> Seq<SqlVal> {
    vs.map_values(|v: V| v.sql_value_spec())
}

/// Converts a list of arguments, keeping their order.
pub fn into_values<V: IntoSqlValue>(vs: Vec<V>) -> (r: Vec<SqlValue>)
    ensures
        vals(r@) == arg_vals(vs@),
{
    let ghost all = vs@;
    let mut rest = vs;
    let mut stack: Vec<SqlValue> = Vec::new();
    // pop from the back, so the stack holds the converted tail reversed
    while rest.len() > 0
        invariant
            arg_vals(all) == arg_vals(rest@) + vals(stack@).reverse(),
        decreases rest.len(),
    {
        let ghost before = rest@;
        let x = rest.pop().unwrap();
        assert(before =~= rest@.push(x));
        let ghost sx = x.sql_value_spec();
        let v = x.into_sql_value();
        let ghost prev = stack@;
        stack.push(v);
        proof {
            lemma_vals_push(prev, v);
            assert(arg_vals(before) =~= arg_vals(rest@).push(sx));
            assert(vals(stack@).reverse() =~= seq![sx] + vals(prev).reverse());
        }
        assert(arg_vals(all) =~= arg_vals(rest@) + vals(stack@).reverse());
    }
    assert(arg_vals(all) =~= vals(stack@).reverse());
    let mut out: Vec<SqlValue> = Vec::new();
    while stack.len() > 0
        invariant
            arg_vals(all) == vals(out@) + vals(stack@).reverse(),
        decreases stack.len(),
    {
        let ghost before = stack@;
        let v = stack.pop().unwrap();
        assert(before =~= stack@.push(v));
        let ghost prev = out@;
        out.push(v);
        proof {
            lemma_vals_push(prev, v);
            lemma_vals_push(stack@, v);
        }
        assert(vals(out@) + vals(stack@).reverse() =~= vals(prev) + vals(before).reverse());
    }
    assert(vals(out@) =~= vals(out@) + vals(stack@).reverse());
    out
}

// ── JoinOp ──────────────────────────────────────────────────────────────────

/// The logical operator used to join a condition to the preceding clause.
#[derive(Debug, Clone, Copy, PartialEq, Eq)]
pub enum JoinOp {
    And,
    Or,
}

/// The keyword of a [`JoinOp`].
pub open spec fn join_op_spec(op: JoinOp) -> Seq<char> {
    match op {
        JoinOp::And => seq!['A', 'N', 'D'],
        JoinOp::Or => seq!['O', 'R'],
    }
}

impl JoinOp {
    /// The SQL keyword (`AND` / `OR`).
    pub fn keyword(&self) -> (r: String)
        ensures
            r@ == join_op_spec(*self),
    {
        match self {
            JoinOp::And => word(&['A', 'N', 'D']),
            JoinOp::Or => word(&['O', 'R']),
        }
    }
}

// ── OrderDir ────────────────────────────────────────────────────────────────

/// The direction of an `ORDER BY` item, or a raw ordering expression.
#[derive(Debug, Clone, PartialEq, Eq)]
pub enum OrderDir {
    Asc,
    Desc,
    Raw(String),
}

/// The mathematical value of an [`OrderDir`].
pub enum OrderV {
    Asc,
    Desc,
    Raw(Seq<char>),
}

impl View for OrderDir {
    type V = OrderV;

    open spec fn view(&self) -> OrderV {
        match self {
            OrderDir::Asc => OrderV::Asc,
            OrderDir::Desc => OrderV::Desc,
            OrderDir::Raw(e) => OrderV::Raw(e@),
        }
    }
}

/// The keyword of a direction (`ASC` / `DESC`); a raw expression has none.
pub open spec fn order_dir_spec(d: OrderV) -> Seq<char> {
    match d {
        OrderV::Asc => seq!['A', 'S', 'C'],
        OrderV::Desc => seq!['D', 'E', 'S', 'C'],
        OrderV::Raw(_) => seq![],
    }
}

impl OrderDir {
    /// An exact copy.
    pub fn duplicate(&self) -> (r: OrderDir)
        ensures
            r@ == self@,
    {
        match self {
            OrderDir::Asc => OrderDir::Asc,
            OrderDir::Desc => OrderDir::Desc,
            OrderDir::Raw(e) => OrderDir::Raw(e.clone()),
        }
    }

    /// The SQL keyword (`ASC` / `DESC`); empty for a raw expression.
    pub fn keyword(&self) -> (r: String)
        ensures
            r@ == order_dir_spec(self@),
    {
        match self {
            OrderDir::Asc => word(&['A', 'S', 'C']),
            OrderDir::Desc => word(&['D', 'E', 'S', 'C']),
            OrderDir::Raw(_) => String::new(),
        }
    }
}

// ── Dialect ─────────────────────────────────────────────────────────────────

/// SQL placeholder dialect.
///
/// - [`Dialect::Postgres`] — numbered placeholders (`$1`, `$2`, …)
/// - [`Dialect::Sqlite`]   — anonymous placeholders (`?`, `?`, …)
/// - [`Dialect::Mysql`]    — anonymous placeholders (`?`, `?`, …)
#[derive(Debug, Clone, Copy, PartialEq, Eq)]
pub enum Dialect {
    Postgres,
    Sqlite,
    Mysql,
}

impl Default for Dialect {
    fn default() -> (r: Dialect)
        ensures
            r == Dialect::Postgres,
    {
        Dialect::Postgres
    }
}

// ── Join ────────────────────────────────────────────────────────────────────

/// A SQL JOIN clause.
#[derive(Debug, Clone)]
pub enum Join {
    /// `INNER JOIN table ON condition`
    Inner(String, String),
    /// `LEFT JOIN table ON condition`
    Left(String, String),
    /// `RIGHT JOIN table ON condition`
    Right(String, String),
}

/// The mathematical value of a [`Join`].
pub enum JoinV {
    Inner(Seq<char>, Seq<char>),
    Left(Seq<char>, Seq<char>),
    Right(Seq<char>, Seq<char>),
}

impl View for Join {
    type V = JoinV;

    open spec fn view(&self) -> JoinV {
        match self {
            Join::Inner(t, on) => JoinV::Inner(t@, on@),
            Join::Left(t, on) => JoinV::Left(t@, on@),
            Join::Right(t, on) => JoinV::Right(t@, on@),
        }
    }
}

impl Join {
    /// An exact copy.
    pub fn duplicate(&self) -> (r: Join)
        ensures
            r@ == self@,
    {
        match self {
            Join::Inner(t, on) => Join::Inner(t.clone(), on.clone()),
            Join::Left(t, on) => Join::Left(t.clone(), on.clone()),
            Join::Right(t, on) => Join::Right(t.clone(), on.clone()),
        }
    }
}

// ── SoftDeleteMode ──────────────────────────────────────────────────────────

/// Which rows a soft-deleting query sees.
#[derive(Debug, Clone, Copy, PartialEq, Eq)]
pub enum SoftDeleteMode {
    Exclude,
    Include,
    Only,
}

// ── CountOp ─────────────────────────────────────────────────────────────────

/// Comparison operator for `where_has_count`.
#[derive(Debug, Clone, Copy, PartialEq, Eq)]
pub enum CountOp {
    Equal,
    NotEqual,
    GreaterThan,
    GreaterThanOrEqual,
    LessThan,
    LessThanOrEqual,
}

/// The symbol of a [`CountOp`].
pub open spec fn count_op_spec(op: CountOp) -> Seq<char> {
    match op {
        CountOp::Equal => seq!['='],
        CountOp::NotEqual => seq!['!', '='],
        CountOp::GreaterThan => seq!['>'],
        CountOp::GreaterThanOrEqual => seq!['>', '='],
        CountOp::LessThan => seq!['<'],
        CountOp::LessThanOrEqual => seq!['<', '='],
    }
}

impl CountOp {
    /// The comparison symbol.
    pub fn symbol(&self) -> (r: String)
        ensures
            r@ == count_op_spec(*self),
    {
        match self {
            CountOp::Equal => word(&['=']),
            CountOp::NotEqual => word(&['!', '=']),
            CountOp::GreaterThan => word(&['>']),
            CountOp::GreaterThanOrEqual => word(&['>', '=']),
            CountOp::LessThan => word(&['<']),
            CountOp::LessThanOrEqual => word(&['<', '=']),
        }
    }
}

} // verus!
