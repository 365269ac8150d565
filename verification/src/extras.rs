//! [`WithExtras`]: a model together with extra computed columns (counts,
//! sums, …) loaded alongside it.

use vstd::prelude::*;
use crate::entries::{entries_map, lookup_last};
use crate::query::value::{SqlVal, SqlValue};
use crate::text::owned;

verus! {

/// A model and the extra columns loaded with it.
#[derive(Debug)]
pub struct WithExtras<M> {
    pub model: M,
    /// The extra columns by name; a later pair overrides an earlier one.
    pub extras: Vec<(String, SqlValue)>,
}

/// The extra columns by name.
pub open spec fn extras_of<M>(w: WithExtras<M>) -> Map<Seq<char>, SqlValue> {
    entries_map(w.extras@)
}

impl<M> WithExtras<M> {
    /// `model` with no extras.
    pub fn new(model: M) -> (r: Self)
        ensures
            r.model == model,
            extras_of(r) == Map::<Seq<char>, SqlValue>::empty(),
    {
        WithExtras { model, extras: Vec::new() }
    }

    /// Set the extra column `key` to `val`.
    pub fn with_extra(self, key: &str, val: SqlValue) -> (r: Self)
        ensures
            r.model == self.model,
            extras_of(r) == extras_of(self).insert(key@, val),
    {
        let mut s = self;
        let ghost before = s.extras@;
        s.extras.push((owned(key), val));
        assert(s.extras@.drop_last() =~= before);
        s
    }

    /// The extra column `key`.
    pub fn extra(&self, key: &str) -> (r: Option<&SqlValue>)
        ensures
            match r {
                Some(v) => extras_of(*self).contains_key(key@) && *v == extras_of(*self)[key@],
                None => !extras_of(*self).contains_key(key@),
            },
    {
        match lookup_last(self.extras.as_slice(), key) {
            Some(i) => Some(&self.extras[i].1),
            None => None,
        }
    }

    /// The extra column `key` when it is an integer.
    pub fn extra_i64(&self, key: &str) -> (r: Option<i64>)
        ensures
            r == (if extras_of(*self).contains_key(key@) {
                match extras_of(*self)[key@]@ {
                    SqlVal::Integer(n) => Some(n),
                    _ => None,
                }
            } else {
                None
            }),
    {
        match self.extra(key) {
            Some(SqlValue::Integer(n)) => Some(*n),
            _ => None,
        }
    }

    /// The extra column `key` when it is text.
    pub fn extra_str(&self, key: &str) -> (r: Option<&str>)
        ensures
            match r {
                Some(s) => extras_of(*self).contains_key(key@) && extras_of(*self)[key@]@ == SqlVal::Text(s@),
                None => !extras_of(*self).contains_key(key@) || !(extras_of(*self)[key@] is Text),
            },
    {
        match self.extra(key) {
            Some(SqlValue::Text(s)) => Some(s.as_str()),
            _ => None,
        }
    }
}

impl<M> std::ops::Deref for WithExtras<M> {
    type Target = M;

    fn deref(&self) -> (r: &M)
        ensures
            *r == self.model,
    {
        &self.model
    }
}

} // verus!
