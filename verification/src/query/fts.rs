//! Full-text search conditions for [`QueryBuilder`]: PostgreSQL `tsvector`,
//! MySQL `MATCH … AGAINST` and SQLite FTS5.

use vstd::prelude::*;
use crate::text::{append, chars_of, join, lemma_views_push, owned, push_char, seq_join, string_of_chars, views};
use super::builder::{QueryBuilder, QueryV, owned_all, order_view, strs, with_cond};
use super::condition::{CondV, Condition};
use super::value::{JoinOp, OrderDir, OrderV};

verus! {

/// Whether `c` is white space (Unicode `White_Space`, as `char::is_whitespace`).
pub open spec fn is_ws(c: char) -> bool {
    c == ' ' || c == '\t' || c == '\n' || c == '\r' || c == '\u{0B}' || c == '\u{0C}' || c == '\u{85}'
        || c == '\u{A0}' || c == '\u{1680}' || ('\u{2000}' <= c && c <= '\u{200A}') || c == '\u{2028}'
        || c == '\u{2029}' || c == '\u{202F}' || c == '\u{205F}' || c == '\u{3000}'
}

/// The words of `s[i..]` — maximal runs without white space — after the
/// words `acc` and the unfinished word `cur`.
pub open spec fn words_from(s: Seq<char>, i: int, cur: Seq<char>, acc: Seq<Seq<char>>) -> Seq<Seq<char>>
    decreases s.len() - i,
{
    if i >= s.len() {
        if cur.len() > 0 {
            acc.push(cur)
        } else {
            acc
        }
    } else if is_ws(s[i]) {
        words_from(s, i + 1, seq![], if cur.len() > 0 { acc.push(cur) } else { acc })
    } else {
        words_from(s, i + 1, cur.push(s[i]), acc)
    }
}

/// The words of `s`, in order.
pub open spec fn words(s: Seq<char>) -> Seq<Seq<char>> {
    words_from(s, 0, seq![], seq![])
}

/// Whether every word is non-empty and holds no white space.
pub open spec fn clean_words(ws: Seq<Seq<char>>) -> bool {
    forall|i: int| #![trigger ws[i]] 0 <= i < ws.len() ==> ws[i].len() > 0 && forall|j: int|
        0 <= j < ws[i].len() ==> !is_ws(#[trigger] ws[i][j])
}

proof fn lemma_words_from_clean(s: Seq<char>, i: int, cur: Seq<char>, acc: Seq<Seq<char>>)
    requires
        0 <= i,
        clean_words(acc),
        forall|j: int| 0 <= j < cur.len() ==> !is_ws(#[trigger] cur[j]),
    ensures
        clean_words(words_from(s, i, cur, acc)),
    decreases s.len() - i,
{
    if i >= s.len() {
        if cur.len() > 0 {
            assert(clean_words(acc.push(cur))) by {
                assert forall|k: int| #![trigger acc.push(cur)[k]] 0 <= k < acc.push(cur).len() implies acc.push(cur)[k].len() > 0
                    && forall|j: int| 0 <= j < acc.push(cur)[k].len() ==> !is_ws(#[trigger] acc.push(cur)[k][j]) by {
                    if k < acc.len() {
                        assert(acc.push(cur)[k] == acc[k]);
                    }
                }
            }
        }
    } else if is_ws(s[i]) {
        let next = if cur.len() > 0 { acc.push(cur) } else { acc };
        assert(clean_words(next)) by {
            if cur.len() > 0 {
                assert forall|k: int| #![trigger next[k]] 0 <= k < next.len() implies next[k].len() > 0 && forall|j: int|
                    0 <= j < next[k].len() ==> !is_ws(#[trigger] next[k][j]) by {
                    if k < acc.len() {
                        assert(next[k] == acc[k]);
                    }
                }
            }
        }
        lemma_words_from_clean(s, i + 1, seq![], next);
    } else {
        let c2 = cur.push(s[i]);
        assert forall|j: int| 0 <= j < c2.len() implies !is_ws(#[trigger] c2[j]) by {
            if j < cur.len() {
                assert(c2[j] == cur[j]);
            }
        }
        lemma_words_from_clean(s, i + 1, c2, acc);
    }
}

/// The words of a search are non-empty and hold no white space.
pub proof fn lemma_words_clean(s: Seq<char>)
    ensures
        clean_words(words(s)),
{
    lemma_words_from_clean(s, 0, seq![], seq![]);
}

/// Whether `c` is white space.
fn is_ws_exec(c: char) -> (r: bool)
    ensures
        r == is_ws(c),
{
    c == ' ' || c == '\t' || c == '\n' || c == '\r' || c == '\u{0B}' || c == '\u{0C}' || c == '\u{85}'
        || c == '\u{A0}' || c == '\u{1680}' || ('\u{2000}' <= c && c <= '\u{200A}') || c == '\u{2028}'
        || c == '\u{2029}' || c == '\u{202F}' || c == '\u{205F}' || c == '\u{3000}'
}

/// The words of a query joined with ` & `, the operand of `to_tsquery`.
pub fn to_tsquery_operand(query: &str) -> (r: String)
    ensures
        r@ == seq_join(words(query@), " & "@),
{
    let cs = chars_of(query);
    let mut acc: Vec<String> = Vec::new();
    let mut cur: Vec<char> = Vec::new();
    let mut i: usize = 0;
    assert(views(acc@) =~= Seq::<Seq<char>>::empty());
    assert(cur@ =~= Seq::<char>::empty());
    while i < cs.len()
        invariant
            i <= cs@.len(),
            cs@ == query@,
            words_from(cs@, i as int, cur@, views(acc@)) == words(query@),
        decreases cs.len() - i,
    {
        let c = cs[i];
        if is_ws_exec(c) {
            if cur.len() > 0 {
                let w = string_of_chars(&cur);
                let ghost prev = acc@;
                acc.push(w);
                proof { lemma_views_push(prev, w); }
            }
            cur = Vec::new();
        } else {
            cur.push(c);
        }
        i = i + 1;
    }
    if cur.len() > 0 {
        let w = string_of_chars(&cur);
        let ghost prev = acc@;
        acc.push(w);
        proof { lemma_views_push(prev, w); }
    }
    join(&acc, " & ")
}

/// The columns of a text search concatenated: `c1 || ' ' || c2 …`.
pub open spec fn text_cols(cols: Seq<&str>) -> Seq<char> {
    seq_join(strs(cols), " || ' ' || "@)
}

/// `to_tsvector('english', cols) @@ to_tsquery('english', 'w1 & w2 …')`.
pub open spec fn full_text_sql(cols: Seq<&str>, query: Seq<char>) -> Seq<char> {
    "to_tsvector('english', "@ + text_cols(cols) + ") @@ to_tsquery('english', '"@ + seq_join(words(query), " & "@)
        + "')"@
}

/// `ts_rank(to_tsvector('english', cols), to_tsquery('english', '…')) DESC`.
pub open spec fn text_rank_sql(cols: Seq<&str>, query: Seq<char>) -> Seq<char> {
    "ts_rank(to_tsvector('english', "@ + text_cols(cols) + "), to_tsquery('english', '"@ + seq_join(
        words(query),
        " & "@,
    ) + "')) DESC"@
}

/// Joins string slices with `sep`.
fn join_strs(cols: &[&str], sep: &str) -> (r: String)
    ensures
        r@ == seq_join(strs(cols@), sep@),
{
    let owned_cols = owned_all(cols);
    join(&owned_cols, sep)
}

impl<T> QueryBuilder<T> {
    /// PostgreSQL full-text match of `query`'s words against the columns.
    pub fn where_full_text(self, cols: &[&str], query: &str) -> (r: Self)
        ensures
            r@ == with_cond(self@, JoinOp::And, CondV::Raw(full_text_sql(cols@, query@))),
    {
        let col_expr = join_strs(cols, " || ' ' || ");
        let ts = to_tsquery_operand(query);
        let mut frag = owned("to_tsvector('english', ");
        append(&mut frag, col_expr.as_str());
        append(&mut frag, ") @@ to_tsquery('english', '");
        append(&mut frag, ts.as_str());
        append(&mut frag, "')");
        assert(frag@ =~= full_text_sql(cols@, query@));
        self.push(JoinOp::And, Condition::Raw(frag))
    }

    /// Order by PostgreSQL text rank of `query` against the columns, best first.
    pub fn order_by_text_rank(self, cols: &[&str], query: &str) -> (r: Self)
        ensures
            r@ == (QueryV {
                order: self@.order.push((seq![], OrderV::Raw(text_rank_sql(cols@, query@)))),
                ..self@
            }),
    {
        let col_expr = join_strs(cols, " || ' ' || ");
        let ts = to_tsquery_operand(query);
        let mut expr = owned("ts_rank(to_tsvector('english', ");
        append(&mut expr, col_expr.as_str());
        append(&mut expr, "), to_tsquery('english', '");
        append(&mut expr, ts.as_str());
        append(&mut expr, "')) DESC");
        assert(expr@ =~= text_rank_sql(cols@, query@));
        let mut s = self;
        let ghost prev = s.order@;
        s.order.push((String::new(), OrderDir::Raw(expr)));
        assert(order_view(s.order@) =~= order_view(prev).push((seq![], OrderV::Raw(text_rank_sql(cols@, query@)))));
        s
    }

    /// MySQL `MATCH(cols) AGAINST('query' IN NATURAL LANGUAGE MODE)`.
    pub fn where_match(self, cols: &[&str], query: &str) -> (r: Self)
        ensures
            r@ == with_cond(
                self@,
                JoinOp::And,
                CondV::Raw(
                    "MATCH("@ + seq_join(strs(cols@), ", "@) + ") AGAINST('"@ + query@
                        + "' IN NATURAL LANGUAGE MODE)"@,
                ),
            ),
    {
        let col_list = join_strs(cols, ", ");
        let mut frag = owned("MATCH(");
        append(&mut frag, col_list.as_str());
        append(&mut frag, ") AGAINST('");
        append(&mut frag, query);
        append(&mut frag, "' IN NATURAL LANGUAGE MODE)");
        assert(frag@ =~= "MATCH("@ + seq_join(strs(cols@), ", "@) + ") AGAINST('"@ + query@
            + "' IN NATURAL LANGUAGE MODE)"@);
        self.push(JoinOp::And, Condition::Raw(frag))
    }

    /// SQLite FTS5 `fts_table MATCH 'query'`.
    pub fn where_fts5(self, fts_table: &str, query: &str) -> (r: Self)
        ensures
            r@ == with_cond(self@, JoinOp::And, CondV::Raw(fts_table@ + " MATCH '"@ + query@ + seq!['\''])),
    {
        let mut frag = owned(fts_table);
        append(&mut frag, " MATCH '");
        append(&mut frag, query);
        push_char(&mut frag, '\'');
        assert(frag@ =~= fts_table@ + " MATCH '"@ + query@ + seq!['\'']);
        self.push(JoinOp::And, Condition::Raw(frag))
    }
}

} // verus!
