//! Schema planning: desired and live schema snapshots, their differences, and the
//! statements that reconcile them.

pub mod apply;
pub mod debug_text;
pub mod desired;
pub mod diff;
pub mod history;
pub mod introspect;
pub mod plan;
pub mod sorting;
pub mod types;

pub use desired::{table_for_model, SchemaBuilder};
pub use types::{ColumnDef, PrimaryKeyDef, SchemaDef, SqlAffinity, TableDef};
pub use plan::{ApplyMode, Plan, PlanBlocker, PlanOp, RebuildReason};
