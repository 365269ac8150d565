//! The query builder: values, conditions, and SQL generation.

pub mod value;
pub mod condition;
pub mod builder;
pub mod sql_gen;
pub mod conditions;
pub mod sql_write;
pub mod aggregates;
pub mod ergonomics;
pub mod json;
pub mod fts;
pub mod cte;
pub mod placeholders;
pub mod laws;

pub use value::{CountOp, Dialect, IntoSqlValue, Join, JoinOp, OrderDir, SoftDeleteMode, SqlValue};
pub use condition::Condition;
pub use builder::QueryBuilder;
pub use cte::SubQueryBuilder;
