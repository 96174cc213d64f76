//! The rules behind `#[seekwel::model]` and `#[derive(Model)]`: which declarations they
//! accept, the table, column and handler names they derive from one, and what the derive
//! generates from the result, down to the source text of the generated impl; and the
//! macros run end to end on the text of their input.

pub mod syntax;
pub mod naming;
pub mod analysis;
pub mod attribute;
pub mod layout;
pub mod simple_derive;
pub mod generated;
pub mod source;
pub mod raw;
pub mod front;
pub mod input;
