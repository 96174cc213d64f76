//! Model metadata, query types and record-level rules.

use vstd::prelude::*;

pub mod association;
pub mod builder;
pub mod comparison;
pub mod params;
pub mod primary_key;
pub mod query;
pub mod sql_field;
pub mod validation;
pub mod value;

pub use association::BelongsTo;
pub use comparison::{Comparison, ComparisonOperand};
pub use query::{Chunked, Lazy, Order, Query, QueryExpression, QueryPlan};
pub use primary_key::{PrimaryKeyField, PrimaryKeyLookup};
pub use sql_field::SqlField;
pub use validation::{
    Errors, Invalid, InvalidModel, NoValidation, SaveError, ValidationError, Validator,
};
pub use value::SqlValue;

use crate::sql::select::{OrderDirection, OrderTerm};

verus! {

/// Describes a non-primary-key database column for a model.
#[derive(Debug, Clone, Copy)]
pub struct ColumnDef {
    /// The column name in SQLite.
    pub name: &'static str,
    /// The SQLite type name used in `CREATE TABLE` statements.
    pub sql_type: &'static str,
    /// Whether the column may store `NULL`.
    pub nullable: bool,
}

/// Describes a model's primary key column.
#[derive(Debug, Clone, Copy)]
pub struct PrimaryKeyDef {
    /// The primary-key column name in SQLite.
    pub name: &'static str,
    /// The SQLite type name used in `CREATE TABLE` statements.
    pub sql_type: &'static str,
    /// Whether inserts omit the primary-key column and rely on SQLite to generate it.
    pub auto_increment: bool,
}

/// Typestate marker for an in-memory record that has not been saved yet.
#[derive(Debug, Clone, Copy, Default, PartialEq, Eq)]
pub struct NewRecord;

/// Typestate marker for a record that already exists in the database.
#[derive(Debug, Clone, Copy, Default, PartialEq, Eq)]
pub struct Persisted;

/// A typed column identifier used by generated query APIs.
///
/// Implemented by the `<Model>Columns` enum generated next to each model type.
pub trait Column: Copy + Clone {
    /// The SQL name of this column. Implementations outside verified code may leave the
    /// default, which says nothing about the name.
    closed spec fn column_name(self) -> Seq<char> {
        vstd::pervasive::arbitrary()
    }

    /// Returns the SQL column name for this typed column.
    fn as_str(self) -> (r: &'static str)
        ensures
            r@ == self.column_name(),
    ;

    /// Returns an ascending `ORDER BY` term for this column.
    fn asc(self) -> (r: Order)
        ensures
            r.terms@.len() == 1,
            r.terms@[0] matches OrderTerm::Column { name, direction } && name@ == self.column_name()
                && direction == OrderDirection::Asc,
    {
        let mut terms = Vec::new();
        terms.push(OrderTerm::Column { name: self.as_str(), direction: OrderDirection::Asc });
        Order { terms }
    }

    /// Returns a descending `ORDER BY` term for this column.
    fn desc(self) -> (r: Order)
        ensures
            r.terms@.len() == 1,
            r.terms@[0] matches OrderTerm::Column { name, direction } && name@ == self.column_name()
                && direction == OrderDirection::Desc,
    {
        let mut terms = Vec::new();
        terms.push(OrderTerm::Column { name: self.as_str(), direction: OrderDirection::Desc });
        Order { terms }
    }
}

/// Core behavior shared by all model types.
pub trait Model: Sized {
    /// The typed column enum generated for this model.
    type Column: Column;

    /// The table name. Implementations outside verified code may leave the default, which
    /// says nothing about it.
    closed spec fn model_table_name() -> Seq<char> {
        vstd::pervasive::arbitrary()
    }

    /// The primary-key metadata. Implementations outside verified code may leave the
    /// default, which says nothing about it.
    closed spec fn model_primary_key() -> PrimaryKeyDef {
        vstd::pervasive::arbitrary()
    }

    /// The metadata of the stored non-key columns. Implementations outside verified code
    /// may leave the default, which says nothing about it.
    closed spec fn model_columns() -> Seq<ColumnDef> {
        vstd::pervasive::arbitrary()
    }

    /// Returns the SQLite table name for this model.
    fn table_name() -> (r: &'static str)
        ensures
            r@ == Self::model_table_name(),
    ;
    /// Returns the model's primary-key column metadata.
    fn primary_key() -> (r: PrimaryKeyDef)
        ensures
            r == Self::model_primary_key(),
    ;
    /// Returns metadata for all non-primary-key stored columns in declaration order.
    fn columns() -> (r: &'static [ColumnDef])
        ensures
            r@ == Self::model_columns(),
    ;
    /// Returns metadata for the columns used by `INSERT` statements.
    fn insert_columns() -> &'static [ColumnDef];
    /// Returns values for non-primary-key stored columns, in the order of [`Self::columns`].
    fn params(&self) -> Vec<SqlValue>;
    /// Returns values for `INSERT` statements, in the order of [`Self::insert_columns`].
    fn insert_params(&self) -> Vec<SqlValue>;
}

/// Behavior available only for persisted model values.
pub trait PersistedModel: Model + Sized {
    /// The model's primary key as a non-negative association id. Implementations outside
    /// verified code may leave the default, which says nothing about the id.
    closed spec fn association_id(&self) -> u64 {
        vstd::pervasive::arbitrary()
    }

    /// Returns the model's primary key in the non-negative association-id representation.
    fn id(&self) -> (r: u64)
        ensures
            r == self.association_id(),
    ;

    /// Returns the model's primary-key value as a SQLite parameter.
    fn primary_key_value(&self) -> SqlValue;
}

} // verus!
