//! Comma-separated column lists, placeholders and assignments.

use vstd::prelude::*;

use crate::model::ColumnDef;
use crate::text::{joined, lemma_joined_step, lemma_take_all, push_decimal, decimal};

verus! {

/// `name TYPE`, followed by ` NOT NULL` for a required column.
pub open spec fn column_definition_text(column: ColumnDef) -> Seq<char> {
    column.name@ + " "@ + column.sql_type@ + if column.nullable {
        Seq::empty()
    } else {
        " NOT NULL"@
    }
}

/// The column definitions of a `CREATE TABLE` body, separated by `, `.
pub open spec fn column_definitions_text(columns: Seq<ColumnDef>) -> Seq<char> {
    joined(columns.map_values(|c: ColumnDef| column_definition_text(c)), ", "@)
}

/// The column names, separated by `, `.
pub open spec fn column_names_text(columns: Seq<ColumnDef>) -> Seq<char> {
    joined(columns.map_values(|c: ColumnDef| c.name@), ", "@)
}

/// A numbered placeholder `?n`.
pub open spec fn placeholder_text(index: nat) -> Seq<char> {
    "?"@ + decimal(index)
}

/// `count` numbered placeholders starting at `start_at`, separated by `, `.
pub open spec fn placeholders_text(count: nat, start_at: nat) -> Seq<char> {
    joined(Seq::new(count, |i: int| placeholder_text((start_at + i) as nat)), ", "@)
}

/// `name = ?n` for each column, numbered from `start_at`, separated by `, `.
pub open spec fn assignments_text(columns: Seq<ColumnDef>, start_at: nat) -> Seq<char> {
    joined(
        Seq::new(
            columns.len(),
            |i: int| columns[i].name@ + " = "@ + placeholder_text((start_at + i) as nat),
        ),
        ", "@,
    )
}

/// The primary-key name followed by the column names, separated by `, `.
pub open spec fn select_columns_text(primary_key_name: Seq<char>, columns: Seq<ColumnDef>) -> Seq<char> {
    joined(seq![primary_key_name] + columns.map_values(|c: ColumnDef| c.name@), ", "@)
}

/// Renders the column definitions of a `CREATE TABLE` body.
pub fn column_definitions(columns: &[ColumnDef]) -> (r: String)
    ensures
        r@ == column_definitions_text(columns@),
{
    let ghost parts = columns@.map_values(|c: ColumnDef| column_definition_text(c));
    let mut out = String::new();
    let mut i: usize = 0;
    while i < columns.len()
        invariant
            i <= columns@.len(),
            parts == columns@.map_values(|c: ColumnDef| column_definition_text(c)),
            out@ == joined(parts.take(i as int), ", "@),
        decreases columns@.len() - i,
    {
        proof {
            lemma_joined_step(parts, i as int, ", "@);
        }
        if i > 0 {
            out.append(", ");
        }
        let column = columns[i];
        out.append(column.name);
        out.append(" ");
        out.append(column.sql_type);
        if !column.nullable {
            out.append(" NOT NULL");
        }
        i = i + 1;
    }
    proof {
        lemma_take_all(parts);
    }
    out
}

/// Renders the column names separated by `, `.
pub fn column_names(columns: &[ColumnDef]) -> (r: String)
    ensures
        r@ == column_names_text(columns@),
{
    let ghost parts = columns@.map_values(|c: ColumnDef| c.name@);
    let mut out = String::new();
    let mut i: usize = 0;
    while i < columns.len()
        invariant
            i <= columns@.len(),
            parts == columns@.map_values(|c: ColumnDef| c.name@),
            out@ == joined(parts.take(i as int), ", "@),
        decreases columns@.len() - i,
    {
        proof {
            lemma_joined_step(parts, i as int, ", "@);
        }
        if i > 0 {
            out.append(", ");
        }
        out.append(columns[i].name);
        i = i + 1;
    }
    proof {
        lemma_take_all(parts);
    }
    out
}

/// Renders `count` numbered placeholders `?start_at, ?start_at+1, ...`.
pub fn placeholders(count: usize, start_at: usize) -> (r: String)
    ensures
        r@ == placeholders_text(count as nat, start_at as nat),
{
    let ghost parts = Seq::new(count as nat, |i: int| placeholder_text((start_at + i) as nat));
    let mut out = String::new();
    let mut i: usize = 0;
    while i < count
        invariant
            i <= count,
            parts == Seq::new(count as nat, |i: int| placeholder_text((start_at + i) as nat)),
            out@ == joined(parts.take(i as int), ", "@),
        decreases count - i,
    {
        proof {
            lemma_joined_step(parts, i as int, ", "@);
        }
        if i > 0 {
            out.append(", ");
        }
        out.append("?");
        push_decimal(&mut out, start_at as u128 + i as u128);
        i = i + 1;
    }
    proof {
        lemma_take_all(parts);
    }
    out
}

/// Renders `name = ?n` assignments, numbered from `start_at`.
pub fn assignments(columns: &[ColumnDef], start_at: usize) -> (r: String)
    ensures
        r@ == assignments_text(columns@, start_at as nat),
{
    let ghost parts = Seq::new(
        columns@.len(),
        |i: int| columns@[i].name@ + " = "@ + placeholder_text((start_at + i) as nat),
    );
    let mut out = String::new();
    let mut i: usize = 0;
    while i < columns.len()
        invariant
            i <= columns@.len(),
            parts == Seq::new(
                columns@.len(),
                |i: int| columns@[i].name@ + " = "@ + placeholder_text((start_at + i) as nat),
            ),
            out@ == joined(parts.take(i as int), ", "@),
        decreases columns@.len() - i,
    {
        proof {
            lemma_joined_step(parts, i as int, ", "@);
        }
        if i > 0 {
            out.append(", ");
        }
        out.append(columns[i].name);
        out.append(" = ?");
        push_decimal(&mut out, start_at as u128 + i as u128);
        assert(" = ?"@ =~= " = "@ + "?"@) by {
            reveal_strlit(" = ?");
            reveal_strlit(" = ");
            reveal_strlit("?");
        }
        i = i + 1;
    }
    proof {
        lemma_take_all(parts);
    }
    out
}

/// Renders the primary-key name followed by the column names.
pub fn select_columns(primary_key_name: &str, columns: &[ColumnDef]) -> (r: String)
    ensures
        r@ == select_columns_text(primary_key_name@, columns@),
{
    let ghost parts = seq![primary_key_name@] + columns@.map_values(|c: ColumnDef| c.name@);
    let mut out = String::new();
    out.append(primary_key_name);
    proof {
        lemma_joined_step(parts, 0, ", "@);
    }
    let mut i: usize = 0;
    while i < columns.len()
        invariant
            i <= columns@.len(),
            parts == seq![primary_key_name@] + columns@.map_values(|c: ColumnDef| c.name@),
            out@ == joined(parts.take(i + 1), ", "@),
        decreases columns@.len() - i,
    {
        proof {
            lemma_joined_step(parts, i + 1, ", "@);
        }
        out.append(", ");
        out.append(columns[i].name);
        i = i + 1;
    }
    proof {
        lemma_take_all(parts);
    }
    out
}

} // verus!
