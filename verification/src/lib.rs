//! An ORM core: a verified SQL query builder with its parameter numbering,
//! soft deletion and dialects, relation builders, cursor pagination tokens,
//! and the registries (connections, scopes, observers) that models consult.

use vstd::prelude::*;

pub mod text;
pub mod cursor;
pub mod query;
pub mod model;
pub mod relations;
pub mod entries;
pub mod casting;
pub mod connection;
pub mod global_scope;
pub mod observer;
pub mod hooks;
pub mod extras;
pub mod migration;
pub mod persistence;
pub mod pagination;

pub use query::{Condition, CountOp, Dialect, Join, JoinOp, OrderDir, QueryBuilder, SqlValue};
pub use model::{Model, Prunable, MuteFlags, timestamps_muted, events_muted};
pub use relations::{
    BelongsTo, HasMany, HasManyThrough, HasOne, HasOneThrough, ManyToMany, PivotRow, Relation, Relations,
    MorphOne, MorphMany, MorphToRef, MorphToMany, MorphedByMany,
};
pub use relations::eager::{BelongsToEager, HasManyEager, HasOneEager};
pub use cursor::{CursorPage, CursorResult, encode_cursor, decode_cursor};
pub use global_scope::ScopeRegistry;
pub use connection::ConnectionRegistry;
pub use observer::{ModelObserver, ObserverEvent, ObserverRegistry};
pub use extras::WithExtras;
pub use hooks::{HookError, HookType, ModelHooks, HookExecutor};

verus! {

} // verus!
