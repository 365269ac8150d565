//! Relation builders: eager loaders, polymorphic relations, and the traits they share.

pub mod traits;
pub mod eager;
pub mod morph;
pub mod has_many;
pub mod has_one;
pub mod belongs_to;
pub mod has_many_through;
pub mod has_one_through;
pub mod many_to_many;
pub mod pivot_row;

pub use traits::{Relation, RelationQuery, Relations};
pub use has_many::HasMany;
pub use has_one::HasOne;
pub use belongs_to::BelongsTo;
pub use has_many_through::HasManyThrough;
pub use has_one_through::HasOneThrough;
pub use many_to_many::ManyToMany;
pub use pivot_row::PivotRow;
pub use morph::{MorphOne, MorphMany, MorphToRef, MorphToMany, MorphedByMany};
