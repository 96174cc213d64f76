//! Applying a reviewed plan: the checks that must pass first, and the statements that
//! each operation runs.

use vstd::prelude::*;

use crate::error::Error;
use crate::text::{doubled, join_strings, joined, push_doubled, strings_view};

use super::diff::{lookup_actual, lookup_column, DiffResult};
use super::introspect::{actuals_view, ActualTable, ActualView};
use super::plan::{
    blockers_view, op_is_destructive, ops_view, reasons_view, ApplyMode, BlockerView, OpView, Plan,
    PlanBlocker, PlanOp, RebuildReason,
};
use super::sorting::{merged_names, strictly_ascending};
use super::types::{schema_fingerprint, ColumnDef, ColumnView, TableDef, TableView};

verus! {

/// An identifier in double quotes, with inner double quotes doubled.
pub open spec fn quoted_ident(s: Seq<char>) -> Seq<char> {
    seq!['"'] + doubled(s, '"') + seq!['"']
}

/// Quotes an SQL identifier.
pub fn quote_ident(identifier: &str) -> (r: String)
    ensures
        r@ == quoted_ident(identifier@),
{
    let mut out = String::from_str("\"");
    push_doubled(&mut out, identifier, '"');
    out.append("\"");
    proof {
        reveal_strlit("\"");
    }
    out
}

/// A column's definition in `CREATE TABLE` and `ADD COLUMN`.
pub open spec fn column_definition_text(c: ColumnView) -> Seq<char> {
    quoted_ident(c.name) + " "@ + c.sql_type + if c.nullable {
        Seq::<char>::empty()
    } else {
        " NOT NULL"@
    }
}

/// Renders a column definition.
pub fn render_column_definition(column: &ColumnDef) -> (r: String)
    ensures
        r@ == column_definition_text(column@),
{
    let mut out = quote_ident(column.name.as_str());
    out.append(" ");
    out.append(column.sql_type.as_str());
    if !column.nullable {
        out.append(" NOT NULL");
    }
    proof {
        reveal_strlit(" ");
    }
    assert(out@ =~= column_definition_text(column@));
    out
}

/// The definitions of a table's primary key and columns.
pub open spec fn table_definitions(t: TableView) -> Seq<Seq<char>> {
    seq![quoted_ident(t.primary_key.name) + " "@ + t.primary_key.sql_type + " PRIMARY KEY"@]
        + t.columns.map_values(|c: ColumnView| column_definition_text(c))
}

/// `CREATE TABLE` for `t` under the name `name`.
pub open spec fn create_table_text(name: Seq<char>, t: TableView) -> Seq<char> {
    "CREATE TABLE "@ + quoted_ident(name) + " ("@ + joined(table_definitions(t), ", "@) + ")"@
}

/// Renders the `CREATE TABLE` statement of `table` under the name `table_name`.
pub fn render_create_table_sql(table_name: &str, table: &TableDef) -> (r: String)
    ensures
        r@ == create_table_text(table_name@, table@),
{
    let ghost defs = table_definitions(table@);
    let mut key = quote_ident(table.primary_key.name.as_str());
    key.append(" ");
    key.append(table.primary_key.sql_type.as_str());
    key.append(" PRIMARY KEY");
    proof {
        reveal_strlit(" ");
    }
    let mut parts: Vec<String> = Vec::new();
    parts.push(key);
    let mut i: usize = 0;
    while i < table.columns.len()
        invariant
            i <= table.columns@.len(),
            defs == table_definitions(table@),
            strings_view(parts@) =~= defs.take(i + 1),
        decreases table.columns@.len() - i,
    {
        let d = render_column_definition(&table.columns[i]);
        let ghost before = parts@;
        let ghost dv = d@;
        parts.push(d);
        assert(strings_view(parts@) =~= strings_view(before).push(dv));
        assert(defs[i + 1] == column_definition_text(table.columns@[i as int]@));
        assert(strings_view(parts@) =~= defs.take(i + 2));
        i = i + 1;
    }
    assert(defs.take(table.columns@.len() + 1 as int) =~= defs);
    let body = join_strings(&parts, ", ");
    let mut out = String::from_str("CREATE TABLE ");
    out.append(quote_ident(table_name).as_str());
    out.append(" (");
    out.append(body.as_str());
    out.append(")");
    out
}

/// `ALTER TABLE ... ADD COLUMN` for column `c` of table `table`.
pub open spec fn add_column_text(table: Seq<char>, c: ColumnView) -> Seq<char> {
    "ALTER TABLE "@ + quoted_ident(table) + " ADD COLUMN "@ + column_definition_text(c)
}

/// Renders the statement that adds `column` to `table_name`.
pub fn render_add_column_sql(table_name: &str, column: &ColumnDef) -> (r: String)
    ensures
        r@ == add_column_text(table_name@, column@),
{
    let mut out = String::from_str("ALTER TABLE ");
    out.append(quote_ident(table_name).as_str());
    out.append(" ADD COLUMN ");
    out.append(render_column_definition(column).as_str());
    out
}

/// The names of `from`'s columns that `to` also has, in `from`'s order.
pub open spec fn shared_names(from: Seq<ColumnView>, to: Seq<ColumnView>) -> Seq<Seq<char>>
    decreases from.len(),
{
    if from.len() == 0 {
        Seq::empty()
    } else {
        shared_names(from.drop_last(), to) + if lookup_column(to, from.last().name) is Some {
            seq![from.last().name]
        } else {
            Seq::empty()
        }
    }
}

/// The column pairs copied by a rebuild: the primary key (old name to new name), then the
/// columns both tables have.
pub open spec fn retained(from: TableView, to: TableView) -> Seq<(Seq<char>, Seq<char>)> {
    seq![(from.primary_key.name, to.primary_key.name)] + shared_names(from.columns, to.columns).map_values(
        |n: Seq<char>| (n, n),
    )
}

/// The views of a list of column pairs.
pub open spec fn pairs_view(p: Seq<(String, String)>) -> Seq<(Seq<char>, Seq<char>)> {
    p.map_values(|x: (String, String)| (x.0@, x.1@))
}

/// Whether `columns` has a column called `name`.
fn has_column(columns: &Vec<ColumnDef>, name: &String) -> (r: bool)
    ensures
        r == (lookup_column(super::types::columns_view(columns@), name@) is Some),
{
    let ghost cv = super::types::columns_view(columns@);
    let mut i: usize = 0;
    assert(cv.skip(0) =~= cv);
    while i < columns.len()
        invariant
            i <= columns@.len(),
            cv == super::types::columns_view(columns@),
            lookup_column(cv, name@) == lookup_column(cv.skip(i as int), name@),
        decreases columns@.len() - i,
    {
        assert(cv.skip(i as int)[0] == columns@[i as int]@);
        if columns[i].name == *name {
            return true;
        }
        assert(cv.skip(i as int).drop_first() =~= cv.skip(i + 1));
        i = i + 1;
    }
    false
}

/// The column pairs that a rebuild of `from` into `to` copies.
pub fn retained_columns(from: &TableDef, to: &TableDef) -> (r: Vec<(String, String)>)
    ensures
        pairs_view(r@) == retained(from@, to@),
{
    let ghost fc = from@.columns;
    let mut out: Vec<(String, String)> = Vec::new();
    out.push((from.primary_key.name.clone(), to.primary_key.name.clone()));
    let ghost head = pairs_view(out@);
    let mut i: usize = 0;
    while i < from.columns.len()
        invariant
            i <= from.columns@.len(),
            fc == from@.columns,
            head == seq![(from@.primary_key.name, to@.primary_key.name)],
            pairs_view(out@) == head + shared_names(fc.take(i as int), to@.columns).map_values(
                |n: Seq<char>| (n, n),
            ),
        decreases from.columns@.len() - i,
    {
        let c = &from.columns[i];
        assert(fc.take(i + 1).drop_last() =~= fc.take(i as int));
        assert(fc.take(i + 1).last() == c@);
        let ghost prev = shared_names(fc.take(i as int), to@.columns);
        let ghost before = out@;
        if has_column(&to.columns, &c.name) {
            out.push((c.name.clone(), c.name.clone()));
            assert(pairs_view(out@) =~= pairs_view(before).push((c@.name, c@.name)));
            assert(shared_names(fc.take(i + 1), to@.columns) =~= prev.push(c@.name));
            assert(prev.push(c@.name).map_values(|n: Seq<char>| (n, n)) =~= prev.map_values(
                |n: Seq<char>| (n, n),
            ).push((c@.name, c@.name)));
        } else {
            assert(shared_names(fc.take(i + 1), to@.columns) =~= prev);
        }
        assert(pairs_view(out@) =~= head + shared_names(fc.take(i + 1), to@.columns).map_values(
            |n: Seq<char>| (n, n),
        ));
        i = i + 1;
    }
    assert(fc.take(from.columns@.len() as int) =~= fc);
    out
}

/// The quoted target names of column pairs.
pub open spec fn quoted_targets(p: Seq<(Seq<char>, Seq<char>)>) -> Seq<Seq<char>> {
    p.map_values(|x: (Seq<char>, Seq<char>)| quoted_ident(x.1))
}

/// The quoted source names of column pairs.
pub open spec fn quoted_sources(p: Seq<(Seq<char>, Seq<char>)>) -> Seq<Seq<char>> {
    p.map_values(|x: (Seq<char>, Seq<char>)| quoted_ident(x.0))
}

/// The statement that copies the retained columns from one table into another.
pub open spec fn copy_text(from_table: Seq<char>, to_table: Seq<char>, p: Seq<(Seq<char>, Seq<char>)>) -> Seq<char> {
    "INSERT INTO "@ + quoted_ident(to_table) + " ("@ + joined(quoted_targets(p), ", "@)
        + ") SELECT "@ + joined(quoted_sources(p), ", "@) + " FROM "@ + quoted_ident(from_table)
}

/// Renders the statement that copies `retained` columns from `from_table` into `to_table`.
pub fn render_copy_sql(from_table: &str, to_table: &str, retained: &Vec<(String, String)>) -> (r: String)
    ensures
        r@ == copy_text(from_table@, to_table@, pairs_view(retained@)),
{
    let ghost pv = pairs_view(retained@);
    let mut targets: Vec<String> = Vec::new();
    let mut sources: Vec<String> = Vec::new();
    let mut i: usize = 0;
    while i < retained.len()
        invariant
            i <= retained@.len(),
            pv == pairs_view(retained@),
            strings_view(targets@) =~= quoted_targets(pv).take(i as int),
            strings_view(sources@) =~= quoted_sources(pv).take(i as int),
        decreases retained@.len() - i,
    {
        let (a, b) = (&retained[i].0, &retained[i].1);
        let qt = quote_ident(b.as_str());
        let qs = quote_ident(a.as_str());
        let ghost (bt, bs) = (targets@, sources@);
        let ghost (vt, vs) = (qt@, qs@);
        targets.push(qt);
        sources.push(qs);
        assert(strings_view(targets@) =~= strings_view(bt).push(vt));
        assert(strings_view(sources@) =~= strings_view(bs).push(vs));
        assert(strings_view(targets@) =~= quoted_targets(pv).take(i + 1));
        assert(strings_view(sources@) =~= quoted_sources(pv).take(i + 1));
        i = i + 1;
    }
    assert(quoted_targets(pv).take(retained@.len() as int) =~= quoted_targets(pv));
    assert(quoted_sources(pv).take(retained@.len() as int) =~= quoted_sources(pv));
    let mut out = String::from_str("INSERT INTO ");
    out.append(quote_ident(to_table).as_str());
    out.append(" (");
    out.append(join_strings(&targets, ", ").as_str());
    out.append(") SELECT ");
    out.append(join_strings(&sources, ", ").as_str());
    out.append(" FROM ");
    out.append(quote_ident(from_table).as_str());
    out
}

/// `DROP TABLE` for `table`.
pub open spec fn drop_table_text(table: Seq<char>) -> Seq<char> {
    "DROP TABLE "@ + quoted_ident(table)
}

/// Renders the statement that drops `table`.
pub fn render_drop_table_sql(table: &str) -> (r: String)
    ensures
        r@ == drop_table_text(table@),
{
    let mut out = String::from_str("DROP TABLE ");
    out.append(quote_ident(table).as_str());
    out
}

/// The name under which a table is rebuilt before it replaces the live table.
pub open spec fn rebuild_name(table: Seq<char>) -> Seq<char> {
    "__seekwel_rebuild_"@ + table
}

/// Every statement of a table rebuild: create the new table under a temporary name, copy
/// the retained columns, drop the old table, rename the new one, and replay the old
/// table's indexes and triggers.
pub open spec fn rebuild_texts(table: Seq<char>, from: TableView, to: TableView, replay: Seq<Seq<char>>) -> Seq<Seq<char>> {
    let temp = rebuild_name(table);
    seq![
        create_table_text(temp, to),
        copy_text(table, temp, retained(from, to)),
        drop_table_text(table),
        "ALTER TABLE "@ + quoted_ident(temp) + " RENAME TO "@ + quoted_ident(table),
    ] + replay
}

/// The statements that carry out one operation, given the live tables; `None` when a
/// table to rebuild is no longer live.
pub open spec fn op_texts(op: OpView, actual: Seq<ActualView>) -> Option<Seq<Seq<char>>> {
    match op {
        OpView::CreateTable(t) => Some(seq![create_table_text(t.name, t)]),
        OpView::AddColumn(table, c) => Some(seq![add_column_text(table, c)]),
        OpView::RebuildTable(table, from, to, _) => match lookup_actual(actual, table) {
            Some(a) => Some(rebuild_texts(table, from, to, a.replay)),
            None => None,
        },
        OpView::DropTable(t) => Some(seq![drop_table_text(t.name)]),
    }
}

/// The statements of a table rebuild.
fn rebuild_statements(table: &String, from: &TableDef, to: &TableDef, live: &ActualTable) -> (r: Vec<String>)
    ensures
        strings_view(r@) == rebuild_texts(table@, from@, to@, live@.replay),
{
    let mut temp = String::from_str("__seekwel_rebuild_");
    temp.append(table.as_str());
    let mut out: Vec<String> = Vec::new();
    out.push(render_create_table_sql(temp.as_str(), to));
    let kept = retained_columns(from, to);
    out.push(render_copy_sql(table.as_str(), temp.as_str(), &kept));
    out.push(render_drop_table_sql(table.as_str()));
    let mut rename = String::from_str("ALTER TABLE ");
    rename.append(quote_ident(temp.as_str()).as_str());
    rename.append(" RENAME TO ");
    rename.append(quote_ident(table.as_str()).as_str());
    out.push(rename);
    let ghost head = strings_view(out@);
    let mut i: usize = 0;
    while i < live.replay_sql.len()
        invariant
            i <= live.replay_sql@.len(),
            strings_view(out@) =~= head + live@.replay.take(i as int),
        decreases live.replay_sql@.len() - i,
    {
        let ghost before = out@;
        let sql = live.replay_sql[i].sql.clone();
        let ghost v = sql@;
        out.push(sql);
        assert(strings_view(out@) =~= strings_view(before).push(v));
        assert(strings_view(out@) =~= head + live@.replay.take(i + 1));
        i = i + 1;
    }
    assert(live@.replay.take(live.replay_sql@.len() as int) =~= live@.replay);
    out
}

/// The statements that carry out `op` against the live tables `actual`; a rebuild of a
/// table that is no longer live is refused.
pub fn op_statements(op: &PlanOp, actual: &Vec<ActualTable>) -> (r: Result<Vec<String>, Error>)
    ensures
        match op_texts(op@, actuals_view(actual@)) {
            Some(texts) => r is Ok && strings_view(r->Ok_0@) == texts,
            None => r is Err && (r->Err_0 matches Error::SchemaBlocked(m) && m@ == "table `"@
                + op@->RebuildTable_0 + "` disappeared before rebuild could run"@),
        },
{
    match op {
        PlanOp::CreateTable { table } => {
            let mut out: Vec<String> = Vec::new();
            out.push(render_create_table_sql(table.name.as_str(), table));
            assert(strings_view(out@) =~= seq![create_table_text(table@.name, table@)]);
            Ok(out)
        },
        PlanOp::AddColumn { table, column } => {
            let mut out: Vec<String> = Vec::new();
            out.push(render_add_column_sql(table.as_str(), column));
            assert(strings_view(out@) =~= seq![add_column_text(table@, column@)]);
            Ok(out)
        },
        PlanOp::RebuildTable { table, from, to, .. } => {
            match super::diff::find_live(actual, table) {
                Some(i) => Ok(rebuild_statements(table, from, to, &actual[i])),
                None => {
                    let mut m = String::from_str("table `");
                    m.append(table.as_str());
                    m.append("` disappeared before rebuild could run");
                    Err(Error::SchemaBlocked(m))
                },
            }
        },
        PlanOp::DropTable { table } => {
            let mut out: Vec<String> = Vec::new();
            out.push(render_drop_table_sql(table.name.as_str()));
            assert(strings_view(out@) =~= seq![drop_table_text(table@.name)]);
            Ok(out)
        },
    }
}

/// How one blocker is explained when an apply is refused.
pub open spec fn blocker_message(b: BlockerView) -> Seq<char> {
    match b {
        BlockerView::RegistryUncertain(m) => m,
        BlockerView::Uncertain(m) => m,
        BlockerView::RequiredColumnAddition(t, c) => "table `"@ + t + "` needs required column `"@ + c
            + "`, which cannot be added safely"@,
        BlockerView::UnsupportedInlineFeature(t, f) => "table `"@ + t + "` uses unsupported feature: "@
            + f,
        BlockerView::RealForeignKeys(t) => "table `"@ + t + "` participates in real foreign keys"@,
        BlockerView::DependentView(t, v) => "table `"@ + t + "` is referenced by dependent view `"@ + v
            + "`"@,
        BlockerView::DependentTrigger(t, g) => "table `"@ + t + "` is referenced by dependent trigger `"@
            + g + "`"@,
    }
}

/// The explanations of all blockers, separated by `; `.
pub open spec fn blockers_text(bs: Seq<BlockerView>) -> Seq<char> {
    joined(bs.map_values(|b: BlockerView| blocker_message(b)), "; "@)
}

/// Explains one blocker.
fn blocker_explanation(b: &PlanBlocker) -> (r: String)
    ensures
        r@ == blocker_message(b@),
{
    match b {
        PlanBlocker::RegistryUncertain(m) => m.clone(),
        PlanBlocker::Uncertain(m) => m.clone(),
        PlanBlocker::RequiredColumnAddition { table, column } => {
            let mut out = String::from_str("table `");
            out.append(table.as_str());
            out.append("` needs required column `");
            out.append(column.as_str());
            out.append("`, which cannot be added safely");
            out
        },
        PlanBlocker::UnsupportedInlineFeature { table, feature } => {
            let mut out = String::from_str("table `");
            out.append(table.as_str());
            out.append("` uses unsupported feature: ");
            out.append(feature.as_str());
            out
        },
        PlanBlocker::RealForeignKeys { table } => {
            let mut out = String::from_str("table `");
            out.append(table.as_str());
            out.append("` participates in real foreign keys");
            out
        },
        PlanBlocker::DependentView { table, view } => {
            let mut out = String::from_str("table `");
            out.append(table.as_str());
            out.append("` is referenced by dependent view `");
            out.append(view.as_str());
            out.append("`");
            out
        },
        PlanBlocker::DependentTrigger { table, trigger } => {
            let mut out = String::from_str("table `");
            out.append(table.as_str());
            out.append("` is referenced by dependent trigger `");
            out.append(trigger.as_str());
            out.append("`");
            out
        },
    }
}

/// Explains every blocker, separated by `; `.
pub fn format_blockers(blockers: &Vec<PlanBlocker>) -> (r: String)
    ensures
        r@ == blockers_text(blockers_view(blockers@)),
{
    let ghost msgs = blockers_view(blockers@).map_values(|b: BlockerView| blocker_message(b));
    let mut parts: Vec<String> = Vec::new();
    let mut i: usize = 0;
    while i < blockers.len()
        invariant
            i <= blockers@.len(),
            msgs == blockers_view(blockers@).map_values(|b: BlockerView| blocker_message(b)),
            strings_view(parts@) =~= msgs.take(i as int),
        decreases blockers@.len() - i,
    {
        let m = blocker_explanation(&blockers[i]);
        let ghost before = parts@;
        let ghost mv = m@;
        parts.push(m);
        assert(strings_view(parts@) =~= strings_view(before).push(mv));
        assert(msgs.take(i + 1) =~= msgs.take(i as int).push(mv));
        i = i + 1;
    }
    assert(msgs.take(blockers@.len() as int) =~= msgs);
    join_strings(&parts, "; ")
}

/// Whether two lists of strings are equal.
fn same_strings(a: &Vec<String>, b: &Vec<String>) -> (r: bool)
    ensures
        r == (strings_view(a@) == strings_view(b@)),
{
    if a.len() != b.len() {
        return false;
    }
    let mut i: usize = 0;
    while i < a.len()
        invariant
            a@.len() == b@.len(),
            i <= a@.len(),
            forall|k: int| 0 <= k < i ==> a@[k]@ == b@[k]@,
        decreases a@.len() - i,
    {
        if a[i] != b[i] {
            assert(strings_view(a@)[i as int] != strings_view(b@)[i as int]);
            return false;
        }
        i = i + 1;
    }
    assert(strings_view(a@) =~= strings_view(b@));
    true
}

/// Whether two column definitions are equal.
fn same_column(a: &ColumnDef, b: &ColumnDef) -> (r: bool)
    ensures
        r == (a@ == b@),
{
    a.name == b.name && a.sql_type == b.sql_type && a.nullable == b.nullable
}

/// Whether two table definitions are equal.
fn same_table(a: &TableDef, b: &TableDef) -> (r: bool)
    ensures
        r == (a@ == b@),
{
    if a.name != b.name || a.primary_key.name != b.primary_key.name || a.primary_key.sql_type
        != b.primary_key.sql_type {
        return false;
    }
    if a.columns.len() != b.columns.len() {
        assert(a@.columns.len() != b@.columns.len());
        return false;
    }
    let mut i: usize = 0;
    while i < a.columns.len()
        invariant
            a.columns@.len() == b.columns@.len(),
            i <= a.columns@.len(),
            forall|k: int| 0 <= k < i ==> a.columns@[k]@ == b.columns@[k]@,
        decreases a.columns@.len() - i,
    {
        if !same_column(&a.columns[i], &b.columns[i]) {
            assert(a@.columns[i as int] != b@.columns[i as int]);
            return false;
        }
        i = i + 1;
    }
    assert(a@.columns =~= b@.columns);
    true
}

/// Whether two rebuild reasons are equal.
fn same_reason(a: &RebuildReason, b: &RebuildReason) -> (r: bool)
    ensures
        r == (a@ == b@),
{
    match (a, b) {
        (RebuildReason::DropColumns { columns: x }, RebuildReason::DropColumns { columns: y }) =>
            same_strings(x, y),
        (
            RebuildReason::ChangePrimaryKeyName { from: f1, to: t1 },
            RebuildReason::ChangePrimaryKeyName { from: f2, to: t2 },
        ) => *f1 == *f2 && *t1 == *t2,
        (
            RebuildReason::ChangePrimaryKeyType { from: f1, to: t1 },
            RebuildReason::ChangePrimaryKeyType { from: f2, to: t2 },
        ) => *f1 == *f2 && *t1 == *t2,
        (
            RebuildReason::ChangeColumnType { column: c1, from: f1, to: t1 },
            RebuildReason::ChangeColumnType { column: c2, from: f2, to: t2 },
        ) => *c1 == *c2 && *f1 == *f2 && *t1 == *t2,
        (
            RebuildReason::ChangeNullability { column: c1, from_nullable: f1, to_nullable: t1 },
            RebuildReason::ChangeNullability { column: c2, from_nullable: f2, to_nullable: t2 },
        ) => *c1 == *c2 && *f1 == *f2 && *t1 == *t2,
        _ => false,
    }
}

/// Whether two lists of rebuild reasons are equal.
fn same_reasons(a: &Vec<RebuildReason>, b: &Vec<RebuildReason>) -> (r: bool)
    ensures
        r == (reasons_view(a@) == reasons_view(b@)),
{
    if a.len() != b.len() {
        assert(reasons_view(a@).len() != reasons_view(b@).len());
        return false;
    }
    let mut i: usize = 0;
    while i < a.len()
        invariant
            a@.len() == b@.len(),
            i <= a@.len(),
            forall|k: int| 0 <= k < i ==> a@[k]@ == b@[k]@,
        decreases a@.len() - i,
    {
        if !same_reason(&a[i], &b[i]) {
            assert(reasons_view(a@)[i as int] != reasons_view(b@)[i as int]);
            return false;
        }
        i = i + 1;
    }
    assert(reasons_view(a@) =~= reasons_view(b@));
    true
}

/// Whether two operations are equal.
fn same_op(a: &PlanOp, b: &PlanOp) -> (r: bool)
    ensures
        r == (a@ == b@),
{
    match (a, b) {
        (PlanOp::CreateTable { table: x }, PlanOp::CreateTable { table: y }) => same_table(x, y),
        (PlanOp::AddColumn { table: t1, column: c1 }, PlanOp::AddColumn { table: t2, column: c2 }) =>
            *t1 == *t2 && same_column(c1, c2),
        (
            PlanOp::RebuildTable { table: t1, from: f1, to: o1, reasons: r1 },
            PlanOp::RebuildTable { table: t2, from: f2, to: o2, reasons: r2 },
        ) => *t1 == *t2 && same_table(f1, f2) && same_table(o1, o2) && same_reasons(r1, r2),
        (PlanOp::DropTable { table: x }, PlanOp::DropTable { table: y }) => same_table(x, y),
        _ => false,
    }
}

/// Whether two lists of operations are equal.
pub fn same_ops(a: &Vec<PlanOp>, b: &Vec<PlanOp>) -> (r: bool)
    ensures
        r == (ops_view(a@) == ops_view(b@)),
{
    if a.len() != b.len() {
        assert(ops_view(a@).len() != ops_view(b@).len());
        return false;
    }
    let mut i: usize = 0;
    while i < a.len()
        invariant
            a@.len() == b@.len(),
            i <= a@.len(),
            forall|k: int| 0 <= k < i ==> a@[k]@ == b@[k]@,
        decreases a@.len() - i,
    {
        if !same_op(&a[i], &b[i]) {
            assert(ops_view(a@)[i as int] != ops_view(b@)[i as int]);
            return false;
        }
        i = i + 1;
    }
    assert(ops_view(a@) =~= ops_view(b@));
    true
}

/// Why an apply is refused.
pub ghost enum Refusal {
    /// The live schema is no longer the plan's source.
    Drift(Seq<char>),
    /// The plan cannot be applied as it stands.
    Blocked(Seq<char>),
}

/// The message when the live schema still matches but the operations changed.
pub open spec fn changed_ops_text() -> Seq<char> {
    "live schema still matches the same source fingerprint, but the planned operations changed; rebuild a fresh plan before applying"@
}

/// The message when a safe-only apply meets a destructive operation.
pub open spec fn destructive_text() -> Seq<char> {
    "plan contains destructive operations; re-run apply with ApplyMode::AllowDestructive"@
}

/// The checks before an apply, in order: the live source fingerprint must be the
/// plan's, the operations planned now must be the plan's, nothing may block, and a
/// safe-only apply admits no destructive operation.
pub open spec fn apply_refusal(
    planned_fingerprint: Seq<char>,
    planned_ops: Seq<OpView>,
    live_source: Seq<TableView>,
    ops: Seq<OpView>,
    blockers: Seq<BlockerView>,
    mode: ApplyMode,
) -> Option<Refusal> {
    let found = schema_fingerprint(live_source);
    if found != planned_fingerprint {
        Some(
            Refusal::Drift(
                "expected source fingerprint "@ + planned_fingerprint + ", found "@ + found,
            ),
        )
    } else if ops != planned_ops {
        Some(Refusal::Blocked(changed_ops_text()))
    } else if blockers.len() > 0 {
        Some(Refusal::Blocked(blockers_text(blockers)))
    } else if mode == ApplyMode::SafeOnly && exists|i: int|
        0 <= i < ops.len() && op_is_destructive(#[trigger] ops[i]) {
        Some(Refusal::Blocked(destructive_text()))
    } else {
        None
    }
}

/// A safe-only apply never lets a table be rebuilt or dropped: if the operations hold a
/// rebuild or a drop, the apply is refused (as destructive, once the earlier checks pass).
pub proof fn lemma_safe_only_refuses_rewrites(
    planned_fingerprint: Seq<char>,
    planned_ops: Seq<OpView>,
    live_source: Seq<TableView>,
    ops: Seq<OpView>,
    blockers: Seq<BlockerView>,
    i: int,
)
    requires
        0 <= i < ops.len(),
        ops[i] is RebuildTable || ops[i] is DropTable,
    ensures
        apply_refusal(planned_fingerprint, planned_ops, live_source, ops, blockers, ApplyMode::SafeOnly) is Some,
        schema_fingerprint(live_source) == planned_fingerprint && ops == planned_ops && blockers.len() == 0
            ==> apply_refusal(planned_fingerprint, planned_ops, live_source, ops, blockers, ApplyMode::SafeOnly)
            == Some(Refusal::Blocked(destructive_text())),
{
    crate::schema::plan::lemma_destructive_ops(ops[i]);
}

/// Decides whether `plan` may be applied, given a fresh comparison `current` of its
/// target with the live schema.
pub fn check_apply(plan: &Plan, current: &DiffResult, mode: ApplyMode) -> (r: Result<(), Error>)
    ensures
        match apply_refusal(
            plan.source_fingerprint@,
            ops_view(plan.ops@),
            current.source@,
            ops_view(current.ops@),
            blockers_view(current.blockers@),
            mode,
        ) {
            None => r is Ok,
            Some(Refusal::Drift(m)) => r matches Err(Error::SchemaDrift(x)) && x@ == m,
            Some(Refusal::Blocked(m)) => r matches Err(Error::SchemaBlocked(x)) && x@ == m,
        },
{
    let found = current.source.fingerprint();
    if found != plan.source_fingerprint {
        let mut m = String::from_str("expected source fingerprint ");
        m.append(plan.source_fingerprint.as_str());
        m.append(", found ");
        m.append(found.as_str());
        return Err(Error::SchemaDrift(m));
    }
    if !same_ops(&current.ops, &plan.ops) {
        return Err(
            Error::SchemaBlocked(
                String::from_str(
                    "live schema still matches the same source fingerprint, but the planned operations changed; rebuild a fresh plan before applying",
                ),
            ),
        );
    }
    if current.blockers.len() > 0 {
        return Err(Error::SchemaBlocked(format_blockers(&current.blockers)));
    }
    if mode == ApplyMode::SafeOnly && plan_has_destructive(&current.ops) {
        return Err(
            Error::SchemaBlocked(
                String::from_str(
                    "plan contains destructive operations; re-run apply with ApplyMode::AllowDestructive",
                ),
            ),
        );
    }
    Ok(())
}

/// Whether some operation is destructive.
fn plan_has_destructive(ops: &Vec<PlanOp>) -> (r: bool)
    ensures
        r == exists|i: int| 0 <= i < ops@.len() && op_is_destructive(#[trigger] ops_view(ops@)[i]),
{
    let mut i: usize = 0;
    while i < ops.len()
        invariant
            i <= ops@.len(),
            forall|k: int| 0 <= k < i ==> !op_is_destructive(#[trigger] ops_view(ops@)[k]),
        decreases ops@.len() - i,
    {
        if ops[i].is_destructive() {
            assert(op_is_destructive(ops_view(ops@)[i as int]));
            return true;
        }
        i = i + 1;
    }
    false
}

/// The tables an apply must look at: those of the plan's source and of its target, each
/// once, in name order.
pub fn plan_scope(plan: &Plan) -> (r: Vec<String>)
    ensures
        strictly_ascending(strings_view(r@)),
        forall|y: Seq<char>|
            strings_view(r@).contains(y) <==> (exists|i: int| 0 <= i < plan.source@.len() && #[trigger] plan.source@[i].name == y)
                || (exists|i: int| 0 <= i < plan.target@.len() && #[trigger] plan.target@[i].name == y),
{
    let a = plan.source.table_names();
    let b = plan.target.table_names();
    let r = merged_names(&a, &b);
    proof {
        assert forall|y: Seq<char>| strings_view(a@).contains(y) <==> (exists|i: int|
            0 <= i < plan.source@.len() && #[trigger] plan.source@[i].name == y) by {
            if strings_view(a@).contains(y) {
                let k = choose|k: int| 0 <= k < a@.len() && strings_view(a@)[k] == y;
                assert(plan.source@[k].name == y);
            }
            if exists|i: int| 0 <= i < plan.source@.len() && #[trigger] plan.source@[i].name == y {
                let k = choose|k: int| 0 <= k < plan.source@.len() && #[trigger] plan.source@[k].name == y;
                assert(strings_view(a@)[k] == y);
            }
        }
        assert forall|y: Seq<char>| strings_view(b@).contains(y) <==> (exists|i: int|
            0 <= i < plan.target@.len() && #[trigger] plan.target@[i].name == y) by {
            if strings_view(b@).contains(y) {
                let k = choose|k: int| 0 <= k < b@.len() && strings_view(b@)[k] == y;
                assert(plan.target@[k].name == y);
            }
            if exists|i: int| 0 <= i < plan.target@.len() && #[trigger] plan.target@[i].name == y {
                let k = choose|k: int| 0 <= k < plan.target@.len() && #[trigger] plan.target@[k].name == y;
                assert(strings_view(b@)[k] == y);
            }
        }
    }
    r
}

} // verus!
