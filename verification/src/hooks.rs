//! Model lifecycle hooks: a model implements [`ModelHooks`] to check or adjust
//! itself before it is created, updated or deleted, and to react afterwards.

use std::marker::PhantomData;
use vstd::prelude::*;
use crate::text::{append, owned};

verus! {

/// Why a hook refused an operation.
#[derive(Debug, Clone)]
pub enum HookError {
    Validation(String),
    Constraint(String),
    Other(String),
}

/// The message of a hook error.
pub open spec fn hook_error_message(e: HookError) -> Seq<char> {
    match e {
        HookError::Validation(m) => "Hook validation failed: "@ + m@,
        HookError::Constraint(m) => "Hook constraint violation: "@ + m@,
        HookError::Other(m) => "Hook error: "@ + m@,
    }
}

impl HookError {
    /// `Hook validation failed: …`, `Hook constraint violation: …` or `Hook error: …`.
    pub fn message(&self) -> (r: String)
        ensures
            r@ == hook_error_message(*self),
    {
        let (prefix, m) = match self {
            HookError::Validation(m) => ("Hook validation failed: ", m),
            HookError::Constraint(m) => ("Hook constraint violation: ", m),
            HookError::Other(m) => ("Hook error: ", m),
        };
        let mut out = owned(prefix);
        append(&mut out, m.as_str());
        out
    }
}

impl From<&str> for HookError {
    fn from(s: &str) -> Self {
        HookError::Other(owned(s))
    }
}

impl From<String> for HookError {
    fn from(s: String) -> Self {
        HookError::Other(s)
    }
}

impl vstd::std_specs::convert::FromSpecImpl<String> for HookError {
    open spec fn obeys_from_spec() -> bool {
        true
    }

    open spec fn from_spec(s: String) -> HookError {
        HookError::Other(s)
    }
}

impl vstd::std_specs::convert::FromSpecImpl<&str> for HookError {
    open spec fn obeys_from_spec() -> bool {
        false
    }

    open spec fn from_spec(s: &str) -> HookError {
        HookError::Other(arbitrary())
    }
}

/// Hooks run around a model's writes; each defaults to doing nothing.
pub trait ModelHooks: Sized {
    fn before_create(&mut self) -> (r: Result<(), HookError>)
        default_ensures
            r is Ok,
            *final(self) == *old(self),
    {
        Ok(())
    }

    fn after_create(&self) {
    }

    fn before_update(&mut self) -> (r: Result<(), HookError>)
        default_ensures
            r is Ok,
            *final(self) == *old(self),
    {
        Ok(())
    }

    fn after_update(&self) {
    }

    fn before_delete(&self) -> (r: Result<(), HookError>)
        default_ensures
            r is Ok,
    {
        Ok(())
    }

    fn after_delete(&self) {
    }
}

/// Which hook.
#[derive(Debug, Clone, Copy, PartialEq, Eq)]
pub enum HookType {
    BeforeCreate,
    AfterCreate,
    BeforeUpdate,
    AfterUpdate,
    BeforeDelete,
    AfterDelete,
}

/// Runs the hooks of a model type.
pub struct HookExecutor<M: ModelHooks> {
    pub _marker: PhantomData<M>,
}

impl<M: ModelHooks> HookExecutor<M> {
    /// Run the model's `before_create` hook: its result is handed on, and the
    /// model is left as the hook left it.
    pub fn run_before_create(model: &mut M) -> (r: Result<(), HookError>)
        ensures
            exists|m: &mut M|
                mut_ref_current(m) == *old(model) && mut_ref_future(m) == *final(model) && call_ensures(
                    M::before_create,
                    (m,),
                    r,
                ),
    {
        model.before_create()
    }

    pub fn run_after_create(model: &M) {
        model.after_create();
    }

    /// Run the model's `before_update` hook: its result is handed on, and the
    /// model is left as the hook left it.
    pub fn run_before_update(model: &mut M) -> (r: Result<(), HookError>)
        ensures
            exists|m: &mut M|
                mut_ref_current(m) == *old(model) && mut_ref_future(m) == *final(model) && call_ensures(
                    M::before_update,
                    (m,),
                    r,
                ),
    {
        model.before_update()
    }

    pub fn run_after_update(model: &M) {
        model.after_update();
    }

    pub fn run_before_delete(model: &M) -> (r: Result<(), HookError>)
        ensures
            call_ensures(M::before_delete, (model,), r),
    {
        model.before_delete()
    }

    pub fn run_after_delete(model: &M) {
        model.after_delete();
    }
}

} // verus!
