//! The traits that model code usually needs in scope.

pub use crate::model::{Column, InvalidModel, PersistedModel};
