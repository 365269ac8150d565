//! Global query scopes: conditions registered per model and applied to every
//! query of that model, unless the query excludes them.
//!
//! Models and scope kinds are named by numeric ids; a registry entry carries
//! the scope itself (`S`), which the caller applies in the order given by
//! [`ScopeRegistry::scopes_to_apply`].

use vstd::prelude::*;
use crate::query::builder::QueryBuilder;

verus! {

/// A query scope applied to every query of model `M`.
pub trait GlobalScope<M> {
    fn apply(&self, query: QueryBuilder<M>) -> QueryBuilder<M>;
}

/// One registered scope: the model it belongs to, its kind, and the scope.
pub struct ScopeEntry<S> {
    pub model_id: u64,
    pub scope_id: u64,
    pub scope: S,
}

/// The entries of `s` except those of `scope_id` for `model_id`, in order.
pub open spec fn without_scope<S>(s: Seq<ScopeEntry<S>>, model_id: u64, scope_id: u64) -> Seq<ScopeEntry<S>>
    decreases s.len(),
{
    if s.len() == 0 {
        seq![]
    } else {
        let prev = without_scope(s.drop_last(), model_id, scope_id);
        if s.last().model_id == model_id && s.last().scope_id == scope_id {
            prev
        } else {
            prev.push(s.last())
        }
    }
}

/// `last` is what applying the scopes at `positions` of `entries`, one after
/// the other, makes of `first`: there are builders `first = b0, b1, …, bn =
/// last` where each `b(i+1)` is what the `i`-th scope's `apply` returned on `bi`.
pub open spec fn scopes_chain<S: GlobalScope<M>, M>(
    entries: Seq<ScopeEntry<S>>,
    positions: Seq<usize>,
    first: QueryBuilder<M>,
    last: QueryBuilder<M>,
) -> bool {
    exists|steps: Seq<QueryBuilder<M>>|
        steps.len() == positions.len() + 1 && steps[0] == first && steps[positions.len() as int] == last
            && forall|i: int| #![trigger steps[i + 1]] 0 <= i < positions.len() ==> call_ensures(
                S::apply,
                (&entries[positions[i] as int].scope, steps[i]),
                steps[i + 1],
            )
}

/// The positions of the entries of `model_id` whose kind is not excluded, in order.
pub open spec fn applicable<S>(s: Seq<ScopeEntry<S>>, model_id: u64, excluded: Seq<u64>) -> Seq<usize>
    decreases s.len(),
{
    if s.len() == 0 {
        seq![]
    } else {
        let prev = applicable(s.drop_last(), model_id, excluded);
        if s.last().model_id == model_id && !excluded.contains(s.last().scope_id) {
            prev.push((s.len() - 1) as usize)
        } else {
            prev
        }
    }
}

/// Registry of global scopes.
pub struct ScopeRegistry<S> {
    entries: Vec<ScopeEntry<S>>,
}

impl<S> ScopeRegistry<S> {
    /// The registered entries, in registration order.
    pub closed spec fn entries(&self) -> Seq<ScopeEntry<S>> {
        self.entries@
    }

    /// An empty registry.
    pub fn new() -> (r: Self)
        ensures
            r.entries() == Seq::<ScopeEntry<S>>::empty(),
    {
        ScopeRegistry { entries: Vec::new() }
    }

    /// Register `scope`, of kind `scope_id`, for the model `model_id`.
    pub fn add_scope(&mut self, model_id: u64, scope_id: u64, scope: S)
        ensures
            final(self).entries() == old(self).entries().push(ScopeEntry { model_id, scope_id, scope }),
    {
        self.entries.push(ScopeEntry { model_id, scope_id, scope });
    }

    /// Remove all scopes of kind `scope_id` for the model `model_id`.
    pub fn remove_scope(&mut self, model_id: u64, scope_id: u64)
        ensures
            final(self).entries() == without_scope(old(self).entries(), model_id, scope_id),
    {
        let mut old_entries: Vec<ScopeEntry<S>> = Vec::new();
        std::mem::swap(&mut old_entries, &mut self.entries);
        let ghost all = old_entries@;
        // take the entries from the back; `rest` keeps them in reverse order
        let mut rest: Vec<ScopeEntry<S>> = Vec::new();
        while old_entries.len() > 0
            invariant
                all == old_entries@ + rest@.reverse(),
            decreases old_entries.len(),
        {
            let ghost before = old_entries@;
            let e = old_entries.pop().unwrap();
            assert(before =~= old_entries@.push(e));
            rest.push(e);
            assert(all =~= old_entries@ + rest@.reverse());
        }
        assert(all =~= rest@.reverse());
        let total = rest.len();
        assert(all.len() == total);
        let mut kept: Vec<ScopeEntry<S>> = Vec::new();
        let mut n: usize = 0;
        while rest.len() > 0
            invariant
                all.len() <= usize::MAX,
                n + rest@.len() == all.len(),
                all.take(n as int) + rest@.reverse() == all,
                kept@ == without_scope(all.take(n as int), model_id, scope_id),
            decreases rest.len(),
        {
            let ghost before = rest@;
            let e = rest.pop().unwrap();
            assert(before =~= rest@.push(e));
            proof {
                assert(before.reverse() =~= seq![e] + rest@.reverse());
                assert(all[n as int] == e);
                assert(all.take(n + 1) =~= all.take(n as int).push(e));
                assert(all.take(n + 1).drop_last() =~= all.take(n as int));
            }
            if !(e.model_id == model_id && e.scope_id == scope_id) {
                kept.push(e);
            }
            n = n + 1;
            assert(all.take(n as int) + rest@.reverse() =~= all);
        }
        assert(all.take(n as int) =~= all);
        self.entries = kept;
    }

    /// The positions of the scopes to apply to a query of `model_id`, in
    /// registration order, skipping the kinds in `excluded`.
    pub fn scopes_to_apply(&self, model_id: u64, excluded: &[u64]) -> (r: Vec<usize>)
        ensures
            r@ == applicable(self.entries(), model_id, excluded@),
    {
        let mut out: Vec<usize> = Vec::new();
        let mut i: usize = 0;
        while i < self.entries.len()
            invariant
                i <= self.entries@.len(),
                out@ == applicable(self.entries@.take(i as int), model_id, excluded@),
            decreases self.entries.len() - i,
        {
            assert(self.entries@.take(i + 1).drop_last() =~= self.entries@.take(i as int));
            let e = &self.entries[i];
            let mut skip = false;
            let mut k: usize = 0;
            while k < excluded.len()
                invariant
                    k <= excluded@.len(),
                    skip == (exists|j: int| 0 <= j < k && excluded@[j] == e.scope_id),
                decreases excluded.len() - k,
            {
                if excluded[k] == e.scope_id {
                    skip = true;
                }
                k = k + 1;
            }
            assert(skip == excluded@.contains(e.scope_id));
            if e.model_id == model_id && !skip {
                out.push(i);
            }
            i = i + 1;
        }
        assert(self.entries@.take(self.entries@.len() as int) =~= self.entries@);
        out
    }

    /// Apply the scopes of `model_id` to `builder`, in registration order,
    /// skipping the kinds the builder excludes; returns the builder and the
    /// positions of the scopes applied. Each applicable scope is applied once,
    /// to what the one before it returned.
    pub fn apply_scopes<M>(&self, model_id: u64, builder: QueryBuilder<M>) -> (r: (QueryBuilder<M>, Vec<usize>)) where
        S: GlobalScope<M>,
        ensures
            r.1@ == applicable(self.entries(), model_id, builder@.excluded_scopes),
            scopes_chain(self.entries(), r.1@, builder, r.0),
    {
        let targets = self.scopes_to_apply(model_id, builder.excluded_scopes());
        // a vector's length fits in `usize`
        let count = self.entries.len();
        proof {
            assert(self.entries@.len() == count);
            lemma_applicable(self.entries@, model_id, builder@.excluded_scopes);
        }
        let ghost start = builder;
        let mut q = builder;
        let ghost mut steps: Seq<QueryBuilder<M>> = seq![start];
        let mut k: usize = 0;
        while k < targets.len()
            invariant
                k <= targets@.len(),
                forall|i: int| #![trigger targets@[i]] 0 <= i < targets@.len() ==> targets@[i] < self.entries@.len(),
                steps.len() == k + 1,
                steps[0] == start,
                steps[k as int] == q,
                forall|i: int| #![trigger steps[i + 1]] 0 <= i < k ==> call_ensures(
                    S::apply,
                    (&self.entries@[targets@[i] as int].scope, steps[i]),
                    steps[i + 1],
                ),
            decreases targets.len() - k,
        {
            let next = self.entries[targets[k]].scope.apply(q);
            proof {
                steps = steps.push(next);
            }
            q = next;
            k = k + 1;
        }
        (q, targets)
    }

    /// The scope registered at position `i`.
    pub fn scope_at(&self, i: usize) -> (r: &S)
        requires
            i < self.entries().len(),
        ensures
            *r == self.entries()[i as int].scope,
    {
        &self.entries[i].scope
    }
}

/// The scopes applied to a query of a model are exactly that model's entries
/// whose kind is not excluded, in registration order.
pub proof fn lemma_applicable<S>(s: Seq<ScopeEntry<S>>, model_id: u64, excluded: Seq<u64>)
    requires
        s.len() <= usize::MAX,
    ensures
        forall|i: int| #![trigger applicable(s, model_id, excluded)[i]]
            0 <= i < applicable(s, model_id, excluded).len() ==> {
                let p = applicable(s, model_id, excluded)[i] as int;
                &&& 0 <= p < s.len()
                &&& s[p].model_id == model_id
                &&& !excluded.contains(s[p].scope_id)
            },
        forall|i: int, j: int|
            0 <= i < j < applicable(s, model_id, excluded).len() ==> applicable(s, model_id, excluded)[i]
                < applicable(s, model_id, excluded)[j],
        forall|p: int|
            0 <= p < s.len() && #[trigger] s[p].model_id == model_id && !excluded.contains(s[p].scope_id)
                ==> applicable(s, model_id, excluded).contains(p as usize),
    decreases s.len(),
{
    if s.len() > 0 {
        let t = s.drop_last();
        lemma_applicable(t, model_id, excluded);
        let prev = applicable(t, model_id, excluded);
        let cur = applicable(s, model_id, excluded);
        assert forall|i: int| #![trigger cur[i]] 0 <= i < cur.len() implies {
            let p = cur[i] as int;
            &&& 0 <= p < s.len()
            &&& s[p].model_id == model_id
            &&& !excluded.contains(s[p].scope_id)
        } by {
            if i < prev.len() {
                assert(cur[i] == prev[i]);
                assert(t[prev[i] as int] == s[prev[i] as int]);
            }
        }
        assert forall|i: int, j: int| 0 <= i < j < cur.len() implies cur[i] < cur[j] by {
            if j < prev.len() {
                assert(cur[i] == prev[i] && cur[j] == prev[j]);
            } else {
                assert(cur[i] == prev[i]);
                assert(prev[i] < t.len());
            }
        }
        assert forall|p: int|
            0 <= p < s.len() && #[trigger] s[p].model_id == model_id && !excluded.contains(s[p].scope_id)
            implies cur.contains(p as usize) by {
            if p < s.len() - 1 {
                assert(t[p].model_id == model_id);
                assert(prev.contains(p as usize));
                let w = choose|w: int| 0 <= w < prev.len() && prev[w] == p as usize;
                assert(cur[w] == prev[w]);
            } else {
                assert(cur[cur.len() - 1] == p as usize);
            }
        }
    }
}

/// After a kind of scope is removed for a model, no scope of that kind is left
/// for it, and the other entries stay, in order.
pub proof fn lemma_removed_scope_gone<S>(s: Seq<ScopeEntry<S>>, model_id: u64, scope_id: u64)
    ensures
        forall|i: int| #![trigger without_scope(s, model_id, scope_id)[i]]
            0 <= i < without_scope(s, model_id, scope_id).len() ==> !(without_scope(s, model_id, scope_id)[i].model_id
                == model_id && without_scope(s, model_id, scope_id)[i].scope_id == scope_id),
        without_scope(s, model_id, scope_id).len() <= s.len(),
    decreases s.len(),
{
    if s.len() > 0 {
        lemma_removed_scope_gone(s.drop_last(), model_id, scope_id);
        let prev = without_scope(s.drop_last(), model_id, scope_id);
        let cur = without_scope(s, model_id, scope_id);
        assert forall|i: int| #![trigger cur[i]] 0 <= i < cur.len() implies !(cur[i].model_id == model_id
            && cur[i].scope_id == scope_id) by {
            if i < prev.len() {
                assert(cur[i] == prev[i]);
            }
        }
    }
}

} // verus!
