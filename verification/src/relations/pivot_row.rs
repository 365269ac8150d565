//! [`PivotRow`]: a related model together with the pivot columns of its row.

use vstd::prelude::*;
use crate::entries::{entries_map, lookup_last};
use crate::query::value::SqlValue;

verus! {

/// A related model and the pivot columns loaded with it.
#[derive(Debug)]
pub struct PivotRow<M> {
    pub model: M,
    /// The pivot columns by name; a later pair overrides an earlier one.
    pub pivot_data: Vec<(String, SqlValue)>,
}

impl<M> PivotRow<M> {
    pub fn new(model: M, pivot_data: Vec<(String, SqlValue)>) -> (r: Self)
        ensures
            r.model == model,
            r.pivot_data@ == pivot_data@,
    {
        PivotRow { model, pivot_data }
    }

    /// The value of the pivot column `column`.
    pub fn pivot(&self, column: &str) -> (r: Option<&SqlValue>)
        ensures
            match r {
                Some(v) => entries_map(self.pivot_data@).contains_key(column@) && *v == entries_map(
                    self.pivot_data@,
                )[column@],
                None => !entries_map(self.pivot_data@).contains_key(column@),
            },
    {
        match lookup_last(self.pivot_data.as_slice(), column) {
            Some(i) => Some(&self.pivot_data[i].1),
            None => None,
        }
    }

    /// Whether the pivot column `column` was loaded.
    pub fn has_pivot(&self, column: &str) -> (r: bool)
        ensures
            r == entries_map(self.pivot_data@).contains_key(column@),
    {
        lookup_last(self.pivot_data.as_slice(), column).is_some()
    }
}

impl<M> std::ops::Deref for PivotRow<M> {
    type Target = M;

    fn deref(&self) -> (r: &M)
        ensures
            *r == self.model,
    {
        &self.model
    }
}

} // verus!
