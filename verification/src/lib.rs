//! `seekwel` is a small SQLite library built around typed models.
//! This crate holds its statement rendering, query and schema planning, record rules, and
//! the rules of its model macros.

pub mod connection;
pub mod error;
pub mod model;
pub mod model_macro;
pub mod prelude;
pub mod schema;
pub mod sql;
pub mod text;

pub use error::Error;
pub use model::{
    BelongsTo, Chunked, Column, Comparison, Errors, Invalid, InvalidModel, Lazy, Model, NewRecord,
    NoValidation, Order, Persisted, PersistedModel, PrimaryKeyField, PrimaryKeyLookup, Query,
    SaveError, SqlField, ValidationError, Validator,
};
