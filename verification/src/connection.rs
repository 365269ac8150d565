//! [`ConnectionRegistry`]: named pools, registered at startup and looked up by
//! name later.

use vstd::prelude::*;
use crate::text::{owned, str_eq};
use crate::entries::entries_map;

verus! {

/// The names of the entries are pairwise distinct.
pub open spec fn distinct_names<P>(s: Seq<(String, P)>) -> bool {
    forall|i: int, j: int| 0 <= i < s.len() && 0 <= j < s.len() && i != j ==> s[i].0@ != s[j].0@
}

/// A name is a key of the map exactly when an entry has it.
proof fn lemma_entries_map_dom<P>(s: Seq<(String, P)>, k: Seq<char>)
    ensures
        entries_map(s).contains_key(k) <==> exists|i: int| 0 <= i < s.len() && #[trigger] s[i].0@ == k,
    decreases s.len(),
{
    if s.len() > 0 {
        lemma_entries_map_dom(s.drop_last(), k);
        if exists|i: int| 0 <= i < s.len() && #[trigger] s[i].0@ == k {
            let i = choose|i: int| 0 <= i < s.len() && #[trigger] s[i].0@ == k;
            if i < s.len() - 1 {
                assert(s.drop_last()[i].0@ == k);
            }
        }
        if exists|i: int| 0 <= i < s.drop_last().len() && #[trigger] s.drop_last()[i].0@ == k {
            let i = choose|i: int| 0 <= i < s.drop_last().len() && #[trigger] s.drop_last()[i].0@ == k;
            assert(s[i].0@ == k);
        }
    }
}

/// The pool of the entry at `i`, when the names are distinct.
proof fn lemma_entries_map_at<P>(s: Seq<(String, P)>, i: int)
    requires
        distinct_names(s),
        0 <= i < s.len(),
    ensures
        entries_map(s).contains_key(s[i].0@),
        entries_map(s)[s[i].0@] == s[i].1,
    decreases s.len(),
{
    if i < s.len() - 1 {
        lemma_entries_map_at(s.drop_last(), i);
    }
}

/// Replacing the pool of an entry replaces it in the map.
proof fn lemma_entries_map_update<P>(s: Seq<(String, P)>, i: int, e: (String, P))
    requires
        distinct_names(s),
        0 <= i < s.len(),
        e.0@ == s[i].0@,
    ensures
        entries_map(s.update(i, e)) == entries_map(s).insert(e.0@, e.1),
    decreases s.len(),
{
    let t = s.update(i, e);
    if i == s.len() - 1 {
        assert(t.drop_last() =~= s.drop_last());
        assert(entries_map(t) =~= entries_map(s).insert(e.0@, e.1));
    } else {
        assert(t.drop_last() =~= s.drop_last().update(i, e));
        lemma_entries_map_update(s.drop_last(), i, e);
        assert(s.last().0@ != e.0@);
        assert(entries_map(t) =~= entries_map(s).insert(e.0@, e.1));
    }
}

/// Named pools for per-model connections.
pub struct ConnectionRegistry<P> {
    entries: Vec<(String, P)>,
}

impl<P> ConnectionRegistry<P> {
    #[verifier::type_invariant]
    spec fn names_distinct(&self) -> bool {
        distinct_names(self.entries@)
    }

    /// The pools by name.
    pub closed spec fn pools(&self) -> Map<Seq<char>, P> {
        entries_map(self.entries@)
    }

    /// An empty registry.
    pub fn new() -> (r: Self)
        ensures
            r.pools() == Map::<Seq<char>, P>::empty(),
    {
        ConnectionRegistry { entries: Vec::new() }
    }

    /// The index of the entry named `name`.
    fn position(&self, name: &str) -> (r: Option<usize>)
        ensures
            match r {
                Some(i) => i < self.entries@.len() && self.entries@[i as int].0@ == name@,
                None => forall|j: int| 0 <= j < self.entries@.len() ==> self.entries@[j].0@ != name@,
            },
    {
        let mut i: usize = 0;
        while i < self.entries.len()
            invariant
                i <= self.entries@.len(),
                forall|j: int| 0 <= j < i ==> self.entries@[j].0@ != name@,
            decreases self.entries.len() - i,
        {
            if str_eq(self.entries[i].0.as_str(), name) {
                return Some(i);
            }
            i = i + 1;
        }
        None
    }

    /// Register `pool` under `name`, replacing any pool of that name.
    pub fn register(&mut self, name: &str, pool: P)
        ensures
            final(self).pools() == old(self).pools().insert(name@, pool),
    {
        proof { use_type_invariant(&*self); }
        match self.position(name) {
            Some(i) => {
                let e = (owned(name), pool);
                proof { lemma_entries_map_update(self.entries@, i as int, e); }
                let ghost before = self.entries@;
                let mut entries = Vec::new();
                std::mem::swap(&mut entries, &mut self.entries);
                entries.set(i, e);
                proof {
                    assert forall|a: int, b: int| 0 <= a < entries@.len() && 0 <= b < entries@.len() && a != b
                        implies entries@[a].0@ != entries@[b].0@ by {
                        if a != i && b != i {
                            assert(before[a].0@ != before[b].0@);
                        } else if a == i {
                            assert(before[i as int].0@ != before[b].0@);
                        } else {
                            assert(before[a].0@ != before[i as int].0@);
                        }
                    }
                }
                self.entries = entries;
            },
            None => {
                let ghost before = self.entries@;
                let mut entries = Vec::new();
                std::mem::swap(&mut entries, &mut self.entries);
                let e = (owned(name), pool);
                entries.push(e);
                assert(entries@.drop_last() =~= before);
                self.entries = entries;
            },
        }
    }

    /// The pool registered under `name`.
    pub fn get(&self, name: &str) -> (r: Option<&P>)
        ensures
            match r {
                Some(p) => self.pools().contains_key(name@) && *p == self.pools()[name@],
                None => !self.pools().contains_key(name@),
            },
    {
        proof { use_type_invariant(self); }
        match self.position(name) {
            Some(i) => {
                proof { lemma_entries_map_at(self.entries@, i as int); }
                Some(&self.entries[i].1)
            },
            None => {
                proof { lemma_entries_map_dom(self.entries@, name@); }
                None
            },
        }
    }
}

/// What a lookup gives back after a registration: the pool just registered
/// under its name, and under every other name what was there before.
pub proof fn lemma_get_after_register<P>(pools: Map<Seq<char>, P>, name: Seq<char>, pool: P, other: Seq<char>)
    ensures
        pools.insert(name, pool).contains_key(name),
        pools.insert(name, pool)[name] == pool,
        other != name ==> (pools.insert(name, pool).contains_key(other) == pools.contains_key(other)),
        other != name && pools.contains_key(other) ==> pools.insert(name, pool)[other] == pools[other],
{
}

} // verus!
