//! Associations between models.

pub mod belongs_to;
pub mod has_many;

pub use belongs_to::BelongsTo;
pub use has_many::{HasManyChild, HasManyQuery};
