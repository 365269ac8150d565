//! Keyed entries: a list of `(name, value)` pairs read as a map in which a
//! later pair overrides an earlier one of the same name.

use vstd::prelude::*;
use crate::text::str_eq;

verus! {

/// The map the entries hold: each pair inserted in turn.
pub open spec fn entries_map<P>(s: Seq<(String, P)>) -> Map<Seq<char>, P>
    decreases s.len(),
{
    if s.len() == 0 {
        Map::empty()
    } else {
        entries_map(s.drop_last()).insert(s.last().0@, s.last().1)
    }
}

/// Pairs after `n` that do not have the name `k` leave its entry as the first
/// `n` pairs made it.
proof fn lemma_entries_map_suffix<P>(s: Seq<(String, P)>, n: int, k: Seq<char>)
    requires
        0 <= n <= s.len(),
        forall|j: int| n <= j < s.len() ==> #[trigger] s[j].0@ != k,
    ensures
        entries_map(s).contains_key(k) == entries_map(s.take(n)).contains_key(k),
        entries_map(s).contains_key(k) ==> entries_map(s)[k] == entries_map(s.take(n))[k],
    decreases s.len(),
{
    if s.len() == n {
        assert(s.take(n) =~= s);
    } else {
        assert(s[s.len() - 1].0@ != k);
        assert(s.drop_last().take(n) =~= s.take(n));
        lemma_entries_map_suffix(s.drop_last(), n, k);
    }
}

/// The position of the last pair named `name`: the one whose value the map holds.
pub fn lookup_last<P>(entries: &[(String, P)], name: &str) -> (r: Option<usize>)
    ensures
        match r {
            Some(i) => i < entries@.len() && entries@[i as int].0@ == name@ && entries_map(entries@).contains_key(name@)
                && entries_map(entries@)[name@] == entries@[i as int].1,
            None => !entries_map(entries@).contains_key(name@),
        },
{
    let mut j: usize = entries.len();
    while j > 0
        invariant
            j <= entries@.len(),
            forall|m: int| j <= m < entries@.len() ==> #[trigger] entries@[m].0@ != name@,
        decreases j,
    {
        if str_eq(entries[j - 1].0.as_str(), name) {
            let i = j - 1;
            proof {
                lemma_entries_map_suffix(entries@, i + 1, name@);
                assert(entries@.take(i + 1).drop_last() =~= entries@.take(i as int));
            }
            return Some(i);
        }
        j = j - 1;
    }
    proof {
        lemma_entries_map_suffix(entries@, 0, name@);
        assert(entries@.take(0) =~= Seq::<(String, P)>::empty());
    }
    None
}

} // verus!
