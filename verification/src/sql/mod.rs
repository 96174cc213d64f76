//! SQL statement rendering for model tables.

pub mod mutation;
pub mod render;
pub mod schema;
pub mod select;

pub use mutation::{delete_by_primary_key, insert, update_by_primary_key};
pub use schema::create_table;
pub use select::{
    append_limit_offset, order_by_clause, select, select_by_id, select_by_primary_key, select_where,
    select_with_options,
    Count, OrderDirection, OrderTerm, Projection, Select,
};
