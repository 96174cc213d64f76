//! `CREATE TABLE` statements for model tables.

use vstd::prelude::*;

use crate::model::{ColumnDef, PrimaryKeyDef};

use super::render::{column_definitions, column_definitions_text};

verus! {

/// `CREATE TABLE IF NOT EXISTS` with the primary key first, then the column definitions.
pub open spec fn create_table_text(
    table_name: Seq<char>,
    primary_key: PrimaryKeyDef,
    columns: Seq<ColumnDef>,
) -> Seq<char> {
    let key = primary_key.name@ + " "@ + primary_key.sql_type@ + " PRIMARY KEY"@;
    if columns.len() == 0 {
        "CREATE TABLE IF NOT EXISTS "@ + table_name + " ("@ + key + ")"@
    } else {
        "CREATE TABLE IF NOT EXISTS "@ + table_name + " ("@ + key + ", "@
            + column_definitions_text(columns) + ")"@
    }
}

/// A `CREATE TABLE IF NOT EXISTS` statement for a model table.
#[derive(Debug, Clone, Copy)]
pub struct CreateTable<'a> {
    pub table_name: &'a str,
    pub primary_key: PrimaryKeyDef,
    pub columns: &'a [ColumnDef],
}

impl CreateTable<'_> {
    /// Renders the statement.
    pub fn to_sql(self) -> (r: String)
        ensures
            r@ == create_table_text(self.table_name@, self.primary_key, self.columns@),
    {
        let mut out = String::new();
        out.append("CREATE TABLE IF NOT EXISTS ");
        out.append(self.table_name);
        out.append(" (");
        out.append(self.primary_key.name);
        out.append(" ");
        out.append(self.primary_key.sql_type);
        out.append(" PRIMARY KEY");
        if self.columns.len() > 0 {
            out.append(", ");
            let defs = column_definitions(self.columns);
            out.append(defs.as_str());
        }
        out.append(")");
        out
    }
}

/// Builds a `CREATE TABLE IF NOT EXISTS` statement for a model table.
pub fn create_table(table_name: &str, primary_key: PrimaryKeyDef, columns: &[ColumnDef]) -> (r: String)
    ensures
        r@ == create_table_text(table_name@, primary_key, columns@),
{
    CreateTable { table_name, primary_key, columns }.to_sql()
}

} // verus!
