//! `INSERT`, `UPDATE` and `DELETE` statements keyed by primary key.

use vstd::prelude::*;

use crate::model::{ColumnDef, PrimaryKeyDef};
use crate::text::{decimal, push_decimal};

use super::render::{
    assignments, assignments_text, column_names, column_names_text, placeholders,
    placeholders_text,
};

verus! {

/// The `INSERT` statement for `columns` of `table_name`; a table without insertable
/// columns gets `DEFAULT VALUES`.
pub open spec fn insert_text(table_name: Seq<char>, columns: Seq<ColumnDef>) -> Seq<char> {
    if columns.len() == 0 {
        "INSERT INTO "@ + table_name + " DEFAULT VALUES"@
    } else {
        "INSERT INTO "@ + table_name + " ("@ + column_names_text(columns) + ") VALUES ("@
            + placeholders_text(columns.len(), 1) + ")"@
    }
}

/// The `UPDATE` statement that assigns every column and matches the primary key on the
/// last placeholder; without columns it assigns the key to itself.
pub open spec fn update_text(
    table_name: Seq<char>,
    primary_key: PrimaryKeyDef,
    columns: Seq<ColumnDef>,
) -> Seq<char> {
    if columns.len() == 0 {
        "UPDATE "@ + table_name + " SET "@ + primary_key.name@ + " = "@ + primary_key.name@
            + " WHERE "@ + primary_key.name@ + " = ?1"@
    } else {
        "UPDATE "@ + table_name + " SET "@ + assignments_text(columns, 1) + " WHERE "@
            + primary_key.name@ + " = ?"@ + decimal(columns.len() + 1)
    }
}

/// The `DELETE` statement matching the primary key on `?1`.
pub open spec fn delete_text(table_name: Seq<char>, primary_key: PrimaryKeyDef) -> Seq<char> {
    "DELETE FROM "@ + table_name + " WHERE "@ + primary_key.name@ + " = ?1"@
}

/// An `INSERT` statement for a model table.
#[derive(Debug, Clone, Copy)]
pub struct Insert<'a> {
    pub table_name: &'a str,
    pub columns: &'a [ColumnDef],
}

impl Insert<'_> {
    /// Renders the statement.
    pub fn to_sql(self) -> (r: String)
        ensures
            r@ == insert_text(self.table_name@, self.columns@),
    {
        let mut out = String::new();
        out.append("INSERT INTO ");
        out.append(self.table_name);
        if self.columns.len() == 0 {
            out.append(" DEFAULT VALUES");
            return out;
        }
        out.append(" (");
        let names = column_names(self.columns);
        out.append(names.as_str());
        out.append(") VALUES (");
        let marks = placeholders(self.columns.len(), 1);
        out.append(marks.as_str());
        out.append(")");
        out
    }
}

/// An `UPDATE ... WHERE <pk> = ?n` statement for a model table.
#[derive(Debug, Clone, Copy)]
pub struct UpdateByPrimaryKey<'a> {
    pub table_name: &'a str,
    pub primary_key: PrimaryKeyDef,
    pub columns: &'a [ColumnDef],
}

impl UpdateByPrimaryKey<'_> {
    /// Renders the statement.
    pub fn to_sql(self) -> (r: String)
        ensures
            r@ == update_text(self.table_name@, self.primary_key, self.columns@),
    {
        let mut out = String::new();
        out.append("UPDATE ");
        out.append(self.table_name);
        out.append(" SET ");
        if self.columns.len() == 0 {
            out.append(self.primary_key.name);
            out.append(" = ");
            out.append(self.primary_key.name);
            out.append(" WHERE ");
            out.append(self.primary_key.name);
            out.append(" = ?1");
            return out;
        }
        let sets = assignments(self.columns, 1);
        out.append(sets.as_str());
        out.append(" WHERE ");
        out.append(self.primary_key.name);
        out.append(" = ?");
        push_decimal(&mut out, self.columns.len() as u128 + 1);
        out
    }
}

/// A `DELETE ... WHERE <pk> = ?1` statement for a model table.
#[derive(Debug, Clone, Copy)]
pub struct DeleteByPrimaryKey<'a> {
    pub table_name: &'a str,
    pub primary_key: PrimaryKeyDef,
}

impl DeleteByPrimaryKey<'_> {
    /// Renders the statement.
    pub fn to_sql(self) -> (r: String)
        ensures
            r@ == delete_text(self.table_name@, self.primary_key),
    {
        let mut out = String::new();
        out.append("DELETE FROM ");
        out.append(self.table_name);
        out.append(" WHERE ");
        out.append(self.primary_key.name);
        out.append(" = ?1");
        out
    }
}

/// Builds an `INSERT` statement for a model table.
pub fn insert(table_name: &str, columns: &[ColumnDef]) -> (r: String)
    ensures
        r@ == insert_text(table_name@, columns@),
{
    Insert { table_name, columns }.to_sql()
}

/// Builds an `UPDATE ... WHERE <pk> = ?n` statement for a model table.
pub fn update_by_primary_key(
    table_name: &str,
    primary_key: PrimaryKeyDef,
    columns: &[ColumnDef],
) -> (r: String)
    ensures
        r@ == update_text(table_name@, primary_key, columns@),
{
    UpdateByPrimaryKey { table_name, primary_key, columns }.to_sql()
}

/// Builds a `DELETE ... WHERE <pk> = ?1` statement for a model table.
pub fn delete_by_primary_key(table_name: &str, primary_key: PrimaryKeyDef) -> (r: String)
    ensures
        r@ == delete_text(table_name@, primary_key),
{
    DeleteByPrimaryKey { table_name, primary_key }.to_sql()
}

} // verus!
