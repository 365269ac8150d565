//! Model observers: lifecycle callbacks for create, update, save, delete and
//! restore, registered per model and dispatched in registration order.
//!
//! Models are named by numeric ids.

use vstd::prelude::*;

verus! {

/// Lifecycle callbacks for a model type `M`.
///
/// All methods have empty default implementations — override only what you need.
pub trait ModelObserver<M> {
    fn creating(&self, model: &M) {
    }

    fn created(&self, model: &M) {
    }

    fn updating(&self, model: &M) {
    }

    fn updated(&self, model: &M) {
    }

    fn saving(&self, model: &M) {
    }

    fn saved(&self, model: &M) {
    }

    fn deleting(&self, model: &M) {
    }

    fn deleted(&self, model: &M) {
    }

    fn restoring(&self, model: &M) {
    }

    fn restored(&self, model: &M) {
    }
}

/// Which lifecycle event to dispatch.
#[derive(Debug, Clone, Copy, PartialEq, Eq)]
pub enum ObserverEvent {
    Creating,
    Created,
    Updating,
    Updated,
    Saving,
    Saved,
    Deleting,
    Deleted,
    Restoring,
    Restored,
}

/// `observer`'s callback for `event` was run on `model`.
pub open spec fn notified<M, O: ModelObserver<M>>(observer: O, model: &M, event: ObserverEvent) -> bool {
    match event {
        ObserverEvent::Creating => call_ensures(O::creating, (&observer, model), ()),
        ObserverEvent::Created => call_ensures(O::created, (&observer, model), ()),
        ObserverEvent::Updating => call_ensures(O::updating, (&observer, model), ()),
        ObserverEvent::Updated => call_ensures(O::updated, (&observer, model), ()),
        ObserverEvent::Saving => call_ensures(O::saving, (&observer, model), ()),
        ObserverEvent::Saved => call_ensures(O::saved, (&observer, model), ()),
        ObserverEvent::Deleting => call_ensures(O::deleting, (&observer, model), ()),
        ObserverEvent::Deleted => call_ensures(O::deleted, (&observer, model), ()),
        ObserverEvent::Restoring => call_ensures(O::restoring, (&observer, model), ()),
        ObserverEvent::Restored => call_ensures(O::restored, (&observer, model), ()),
    }
}

/// The positions of the observers registered for `model_id`, in order.
pub open spec fn observers_of<O>(s: Seq<(u64, O)>, model_id: u64) -> Seq<usize>
    decreases s.len(),
{
    if s.len() == 0 {
        seq![]
    } else {
        let prev = observers_of(s.drop_last(), model_id);
        if s.last().0 == model_id {
            prev.push((s.len() - 1) as usize)
        } else {
            prev
        }
    }
}

/// Registry of observers, each for one model.
pub struct ObserverRegistry<O> {
    entries: Vec<(u64, O)>,
}

impl<O> ObserverRegistry<O> {
    /// The registered observers with their models, in registration order.
    pub closed spec fn entries(&self) -> Seq<(u64, O)> {
        self.entries@
    }

    /// An empty registry.
    pub fn new() -> (r: Self)
        ensures
            r.entries() == Seq::<(u64, O)>::empty(),
    {
        ObserverRegistry { entries: Vec::new() }
    }

    /// Register `observer` for the model `model_id`.
    pub fn observe(&mut self, model_id: u64, observer: O)
        ensures
            final(self).entries() == old(self).entries().push((model_id, observer)),
    {
        self.entries.push((model_id, observer));
    }

    /// The positions of the observers of `model_id`, in registration order.
    pub fn observers_for(&self, model_id: u64) -> (r: Vec<usize>)
        ensures
            r@ == observers_of(self.entries(), model_id),
    {
        let mut out: Vec<usize> = Vec::new();
        let mut i: usize = 0;
        while i < self.entries.len()
            invariant
                i <= self.entries@.len(),
                out@ == observers_of(self.entries@.take(i as int), model_id),
            decreases self.entries.len() - i,
        {
            assert(self.entries@.take(i + 1).drop_last() =~= self.entries@.take(i as int));
            if self.entries[i].0 == model_id {
                out.push(i);
            }
            i = i + 1;
        }
        assert(self.entries@.take(self.entries@.len() as int) =~= self.entries@);
        out
    }

    /// Call the `event` callback of every observer of `model_id` on `model`,
    /// in registration order; returns the positions of the observers called.
    pub fn dispatch<M>(&self, model_id: u64, model: &M, event: ObserverEvent) -> (r: Vec<usize>) where
        O: ModelObserver<M>,
        ensures
            r@ == observers_of(self.entries(), model_id),
            self.entries().len() <= usize::MAX,
            forall|k: int| #![trigger r@[k]] 0 <= k < r@.len() ==> r@[k] < self.entries().len(),
            forall|k: int| #![trigger r@[k]] 0 <= k < r@.len() ==> notified(
                self.entries()[r@[k] as int].1,
                model,
                event,
            ),
    {
        let targets = self.observers_for(model_id);
        // a vector's length fits in `usize`
        let count = self.entries.len();
        proof {
            assert(self.entries@.len() == count);
            lemma_dispatch_targets(self.entries@, model_id);
        }
        let mut k: usize = 0;
        while k < targets.len()
            invariant
                k <= targets@.len(),
                targets@ == observers_of(self.entries@, model_id),
                forall|j: int| 0 <= j < targets@.len() ==> targets@[j] < self.entries@.len(),
                forall|j: int| #![trigger targets@[j]] 0 <= j < k ==> notified(
                    self.entries@[targets@[j] as int].1,
                    model,
                    event,
                ),
            decreases targets.len() - k,
        {
            let obs = &self.entries[targets[k]].1;
            match event {
                ObserverEvent::Creating => obs.creating(model),
                ObserverEvent::Created => obs.created(model),
                ObserverEvent::Updating => obs.updating(model),
                ObserverEvent::Updated => obs.updated(model),
                ObserverEvent::Saving => obs.saving(model),
                ObserverEvent::Saved => obs.saved(model),
                ObserverEvent::Deleting => obs.deleting(model),
                ObserverEvent::Deleted => obs.deleted(model),
                ObserverEvent::Restoring => obs.restoring(model),
                ObserverEvent::Restored => obs.restored(model),
            }
            k = k + 1;
        }
        targets
    }
}

/// A dispatch reaches exactly the observers registered for the model, each
/// once, in registration order.
pub proof fn lemma_dispatch_targets<O>(s: Seq<(u64, O)>, model_id: u64)
    requires
        s.len() <= usize::MAX,
    ensures
        forall|i: int| #![trigger observers_of(s, model_id)[i]]
            0 <= i < observers_of(s, model_id).len() ==> observers_of(s, model_id)[i] < s.len()
                && s[observers_of(s, model_id)[i] as int].0 == model_id,
        forall|i: int, j: int|
            0 <= i < j < observers_of(s, model_id).len() ==> observers_of(s, model_id)[i] < observers_of(
                s,
                model_id,
            )[j],
        forall|p: int| 0 <= p < s.len() && #[trigger] s[p].0 == model_id ==> observers_of(s, model_id).contains(p as usize),
    decreases s.len(),
{
    if s.len() > 0 {
        let t = s.drop_last();
        lemma_dispatch_targets(t, model_id);
        let prev = observers_of(t, model_id);
        let cur = observers_of(s, model_id);
        assert forall|i: int| #![trigger cur[i]] 0 <= i < cur.len() implies cur[i] < s.len() && s[cur[i] as int].0
            == model_id by {
            if i < prev.len() {
                assert(cur[i] == prev[i]);
                assert(t[prev[i] as int] == s[prev[i] as int]);
            }
        }
        assert forall|i: int, j: int| 0 <= i < j < cur.len() implies cur[i] < cur[j] by {
            if j < prev.len() {
                assert(cur[i] == prev[i] && cur[j] == prev[j]);
            } else {
                assert(cur[i] == prev[i]);
            }
        }
        assert forall|p: int| 0 <= p < s.len() && #[trigger] s[p].0 == model_id implies cur.contains(p as usize) by {
            if p < s.len() - 1 {
                assert(t[p].0 == model_id);
                let w = choose|w: int| 0 <= w < prev.len() && prev[w] == p as usize;
                assert(cur[w] == prev[w]);
            } else {
                assert(cur[cur.len() - 1] == p as usize);
            }
        }
    }
}

} // verus!
