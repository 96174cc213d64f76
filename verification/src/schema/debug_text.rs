//! The `Debug` text of plan operations and blockers, which a plan's identity hashes.
//!
//! The text is the one `#[derive(Debug)]` writes for these types: structs and struct
//! variants as `Name { field: value, .. }`, tuple variants as `Name(value)`, lists as
//! `[a, b]`; strings are quoted and escaped by std's `Debug` for `str`.

use vstd::prelude::*;

use crate::text::{bool_text, joined, lemma_joined_step, lemma_take_all, strings_view};

use super::plan::{BlockerView, OpView, PlanBlocker, PlanOp, ReasonView, RebuildReason, reasons_view};
use super::types::{ColumnDef, ColumnView, PrimaryKeyDef, PrimaryKeyView, TableDef, TableView, columns_view};

verus! {

/// What std's `Debug` for `str` writes for a text: the text in double quotes, with the
/// characters that need it escaped.
pub uninterp spec fn str_debug(s: Seq<char>) -> Seq<char>;

/// std's `Debug` for `str`, through `format!("{:?}", s)`; the quoted, escaped text is
/// named here and not spelled out.
#[verifier::external_body]
pub(crate) fn debug_str(s: &str) -> (r: String)
    ensures
        r@ == str_debug(s@),
{
    format!("{:?}", s)
}

/// The `Debug` text of a column definition.
pub open spec fn column_debug(c: ColumnView) -> Seq<char> {
    "ColumnDef { name: "@ + str_debug(c.name) + ", sql_type: "@ + str_debug(c.sql_type)
        + ", nullable: "@ + bool_text(c.nullable) + " }"@
}

/// The `Debug` text of a primary-key definition.
pub open spec fn key_debug(k: PrimaryKeyView) -> Seq<char> {
    "PrimaryKeyDef { name: "@ + str_debug(k.name) + ", sql_type: "@ + str_debug(k.sql_type)
        + " }"@
}

/// The `Debug` text of a table definition.
pub open spec fn table_debug(t: TableView) -> Seq<char> {
    "TableDef { name: "@ + str_debug(t.name) + ", primary_key: "@ + key_debug(t.primary_key)
        + ", columns: ["@ + joined(t.columns.map_values(|c: ColumnView| column_debug(c)), ", "@)
        + "] }"@
}

/// The `Debug` text of a list of strings.
pub open spec fn strs_debug(s: Seq<Seq<char>>) -> Seq<char> {
    "["@ + joined(s.map_values(|x: Seq<char>| str_debug(x)), ", "@) + "]"@
}

/// The `Debug` text of a rebuild reason.
pub open spec fn reason_debug(r: ReasonView) -> Seq<char> {
    match r {
        ReasonView::DropColumns(columns) => "DropColumns { columns: "@ + strs_debug(columns)
            + " }"@,
        ReasonView::ChangePrimaryKeyName(from, to) => "ChangePrimaryKeyName { from: "@
            + str_debug(from) + ", to: "@ + str_debug(to) + " }"@,
        ReasonView::ChangePrimaryKeyType(from, to) => "ChangePrimaryKeyType { from: "@
            + str_debug(from) + ", to: "@ + str_debug(to) + " }"@,
        ReasonView::ChangeColumnType(column, from, to) => "ChangeColumnType { column: "@
            + str_debug(column) + ", from: "@ + str_debug(from) + ", to: "@ + str_debug(to)
            + " }"@,
        ReasonView::ChangeNullability(column, from, to) => "ChangeNullability { column: "@
            + str_debug(column) + ", from_nullable: "@ + bool_text(from) + ", to_nullable: "@
            + bool_text(to) + " }"@,
    }
}

/// The `Debug` text of an operation.
pub open spec fn op_debug_text(op: OpView) -> Seq<char> {
    match op {
        OpView::CreateTable(t) => "CreateTable { table: "@ + table_debug(t) + " }"@,
        OpView::AddColumn(table, c) => "AddColumn { table: "@ + str_debug(table) + ", column: "@
            + column_debug(c) + " }"@,
        OpView::RebuildTable(table, from, to, reasons) => "RebuildTable { table: "@ + str_debug(
            table,
        ) + ", from: "@ + table_debug(from) + ", to: "@ + table_debug(to) + ", reasons: ["@
            + joined(reasons.map_values(|r: ReasonView| reason_debug(r)), ", "@) + "] }"@,
        OpView::DropTable(t) => "DropTable { table: "@ + table_debug(t) + " }"@,
    }
}

/// The `Debug` text of a blocker.
pub open spec fn blocker_debug_text(b: BlockerView) -> Seq<char> {
    match b {
        BlockerView::RegistryUncertain(m) => "RegistryUncertain("@ + str_debug(m) + ")"@,
        BlockerView::RequiredColumnAddition(table, column) => "RequiredColumnAddition { table: "@
            + str_debug(table) + ", column: "@ + str_debug(column) + " }"@,
        BlockerView::UnsupportedInlineFeature(table, feature) =>
            "UnsupportedInlineFeature { table: "@ + str_debug(table) + ", feature: "@ + str_debug(
            feature,
        ) + " }"@,
        BlockerView::RealForeignKeys(table) => "RealForeignKeys { table: "@ + str_debug(table)
            + " }"@,
        BlockerView::DependentView(table, view) => "DependentView { table: "@ + str_debug(table)
            + ", view: "@ + str_debug(view) + " }"@,
        BlockerView::DependentTrigger(table, trigger) => "DependentTrigger { table: "@ + str_debug(
            table,
        ) + ", trigger: "@ + str_debug(trigger) + " }"@,
        BlockerView::Uncertain(m) => "Uncertain("@ + str_debug(m) + ")"@,
    }
}

/// Appends the `Debug` text of a string.
fn push_str_debug(out: &mut String, s: &str)
    ensures
        final(out)@ == old(out)@ + str_debug(s@),
{
    let d = debug_str(s);
    out.append(d.as_str());
}

/// Appends `true` or `false`.
fn push_bool(out: &mut String, b: bool)
    ensures
        final(out)@ == old(out)@ + bool_text(b),
{
    if b {
        out.append("true");
    } else {
        out.append("false");
    }
}

/// Appends the `Debug` text of a column definition.
fn push_column_debug(out: &mut String, c: &ColumnDef)
    ensures
        final(out)@ == old(out)@ + column_debug(c@),
{
    let ghost start = out@;
    out.append("ColumnDef { name: ");
    push_str_debug(out, c.name.as_str());
    out.append(", sql_type: ");
    push_str_debug(out, c.sql_type.as_str());
    out.append(", nullable: ");
    push_bool(out, c.nullable);
    out.append(" }");
    assert(out@ =~= start + column_debug(c@));
}

/// Appends the `Debug` text of a primary-key definition.
fn push_key_debug(out: &mut String, k: &PrimaryKeyDef)
    ensures
        final(out)@ == old(out)@ + key_debug(k@),
{
    let ghost start = out@;
    out.append("PrimaryKeyDef { name: ");
    push_str_debug(out, k.name.as_str());
    out.append(", sql_type: ");
    push_str_debug(out, k.sql_type.as_str());
    out.append(" }");
    assert(out@ =~= start + key_debug(k@));
}

/// Appends the `Debug` text of a table definition.
fn push_table_debug(out: &mut String, t: &TableDef)
    ensures
        final(out)@ == old(out)@ + table_debug(t@),
{
    let ghost start = out@;
    out.append("TableDef { name: ");
    push_str_debug(out, t.name.as_str());
    out.append(", primary_key: ");
    push_key_debug(out, &t.primary_key);
    out.append(", columns: [");
    let ghost pre = out@;
    let ghost parts = columns_view(t.columns@).map_values(|c: ColumnView| column_debug(c));
    let mut i: usize = 0;
    while i < t.columns.len()
        invariant
            i <= t.columns@.len(),
            parts == columns_view(t.columns@).map_values(|c: ColumnView| column_debug(c)),
            out@ == pre + joined(parts.take(i as int), ", "@),
        decreases t.columns@.len() - i,
    {
        proof {
            lemma_joined_step(parts, i as int, ", "@);
        }
        if i > 0 {
            out.append(", ");
        }
        push_column_debug(out, &t.columns[i]);
        assert(parts[i as int] == column_debug(t.columns@[i as int]@));
        i = i + 1;
    }
    proof {
        lemma_take_all(parts);
    }
    out.append("] }");
    assert(out@ =~= start + table_debug(t@));
}

/// Appends the `Debug` text of a list of strings.
fn push_strs_debug(out: &mut String, items: &Vec<String>)
    ensures
        final(out)@ == old(out)@ + strs_debug(strings_view(items@)),
{
    let ghost start = out@;
    out.append("[");
    let ghost pre = out@;
    let ghost parts = strings_view(items@).map_values(|x: Seq<char>| str_debug(x));
    let mut i: usize = 0;
    while i < items.len()
        invariant
            i <= items@.len(),
            parts == strings_view(items@).map_values(|x: Seq<char>| str_debug(x)),
            out@ == pre + joined(parts.take(i as int), ", "@),
        decreases items@.len() - i,
    {
        proof {
            lemma_joined_step(parts, i as int, ", "@);
        }
        if i > 0 {
            out.append(", ");
        }
        push_str_debug(out, items[i].as_str());
        assert(parts[i as int] == str_debug(items@[i as int]@));
        i = i + 1;
    }
    proof {
        lemma_take_all(parts);
    }
    out.append("]");
    assert(out@ =~= start + strs_debug(strings_view(items@)));
}

/// Appends the `Debug` text of a rebuild reason.
fn push_reason_debug(out: &mut String, r: &RebuildReason)
    ensures
        final(out)@ == old(out)@ + reason_debug(r@),
{
    let ghost start = out@;
    match r {
        RebuildReason::DropColumns { columns } => {
            out.append("DropColumns { columns: ");
            push_strs_debug(out, columns);
            out.append(" }");
        },
        RebuildReason::ChangePrimaryKeyName { from, to } => {
            out.append("ChangePrimaryKeyName { from: ");
            push_str_debug(out, from.as_str());
            out.append(", to: ");
            push_str_debug(out, to.as_str());
            out.append(" }");
        },
        RebuildReason::ChangePrimaryKeyType { from, to } => {
            out.append("ChangePrimaryKeyType { from: ");
            push_str_debug(out, from.as_str());
            out.append(", to: ");
            push_str_debug(out, to.as_str());
            out.append(" }");
        },
        RebuildReason::ChangeColumnType { column, from, to } => {
            out.append("ChangeColumnType { column: ");
            push_str_debug(out, column.as_str());
            out.append(", from: ");
            push_str_debug(out, from.as_str());
            out.append(", to: ");
            push_str_debug(out, to.as_str());
            out.append(" }");
        },
        RebuildReason::ChangeNullability { column, from_nullable, to_nullable } => {
            out.append("ChangeNullability { column: ");
            push_str_debug(out, column.as_str());
            out.append(", from_nullable: ");
            push_bool(out, *from_nullable);
            out.append(", to_nullable: ");
            push_bool(out, *to_nullable);
            out.append(" }");
        },
    }
    assert(out@ =~= start + reason_debug(r@));
}

/// The `Debug` text of an operation, as `format!("{:?}", op)` writes it.
pub fn op_debug(op: &PlanOp) -> (r: String)
    ensures
        r@ == op_debug_text(op@),
{
    let mut out = String::new();
    match op {
        PlanOp::CreateTable { table } => {
            out.append("CreateTable { table: ");
            push_table_debug(&mut out, table);
            out.append(" }");
        },
        PlanOp::AddColumn { table, column } => {
            out.append("AddColumn { table: ");
            push_str_debug(&mut out, table.as_str());
            out.append(", column: ");
            push_column_debug(&mut out, column);
            out.append(" }");
        },
        PlanOp::RebuildTable { table, from, to, reasons } => {
            out.append("RebuildTable { table: ");
            push_str_debug(&mut out, table.as_str());
            out.append(", from: ");
            push_table_debug(&mut out, from);
            out.append(", to: ");
            push_table_debug(&mut out, to);
            out.append(", reasons: [");
            let ghost pre = out@;
            let ghost parts = reasons_view(reasons@).map_values(|x: ReasonView| reason_debug(x));
            let mut i: usize = 0;
            while i < reasons.len()
                invariant
                    i <= reasons@.len(),
                    parts == reasons_view(reasons@).map_values(|x: ReasonView| reason_debug(x)),
                    out@ == pre + joined(parts.take(i as int), ", "@),
                decreases reasons@.len() - i,
            {
                proof {
                    lemma_joined_step(parts, i as int, ", "@);
                }
                if i > 0 {
                    out.append(", ");
                }
                push_reason_debug(&mut out, &reasons[i]);
                assert(parts[i as int] == reason_debug(reasons@[i as int]@));
                i = i + 1;
            }
            proof {
                lemma_take_all(parts);
            }
            out.append("] }");
        },
        PlanOp::DropTable { table } => {
            out.append("DropTable { table: ");
            push_table_debug(&mut out, table);
            out.append(" }");
        },
    }
    assert(out@ =~= op_debug_text(op@));
    out
}

/// The `Debug` text of a blocker, as `format!("{:?}", blocker)` writes it.
pub fn blocker_debug(b: &PlanBlocker) -> (r: String)
    ensures
        r@ == blocker_debug_text(b@),
{
    let mut out = String::new();
    match b {
        PlanBlocker::RegistryUncertain(m) => {
            out.append("RegistryUncertain(");
            push_str_debug(&mut out, m.as_str());
            out.append(")");
        },
        PlanBlocker::RequiredColumnAddition { table, column } => {
            out.append("RequiredColumnAddition { table: ");
            push_str_debug(&mut out, table.as_str());
            out.append(", column: ");
            push_str_debug(&mut out, column.as_str());
            out.append(" }");
        },
        PlanBlocker::UnsupportedInlineFeature { table, feature } => {
            out.append("UnsupportedInlineFeature { table: ");
            push_str_debug(&mut out, table.as_str());
            out.append(", feature: ");
            push_str_debug(&mut out, feature.as_str());
            out.append(" }");
        },
        PlanBlocker::RealForeignKeys { table } => {
            out.append("RealForeignKeys { table: ");
            push_str_debug(&mut out, table.as_str());
            out.append(" }");
        },
        PlanBlocker::DependentView { table, view } => {
            out.append("DependentView { table: ");
            push_str_debug(&mut out, table.as_str());
            out.append(", view: ");
            push_str_debug(&mut out, view.as_str());
            out.append(" }");
        },
        PlanBlocker::DependentTrigger { table, trigger } => {
            out.append("DependentTrigger { table: ");
            push_str_debug(&mut out, table.as_str());
            out.append(", trigger: ");
            push_str_debug(&mut out, trigger.as_str());
            out.append(" }");
        },
        PlanBlocker::Uncertain(m) => {
            out.append("Uncertain(");
            push_str_debug(&mut out, m.as_str());
            out.append(")");
        },
    }
    assert(out@ =~= blocker_debug_text(b@));
    out
}

} // verus!
