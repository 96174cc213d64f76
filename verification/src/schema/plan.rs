//! Reviewable schema plans: operations, rebuild reasons, blockers and their JSON form.

use vstd::prelude::*;

use crate::text::{bool_text, decimal, join_strings, joined, push_decimal, strings_view};

use vstd::utf8::encode_utf8;

use super::debug_text::{blocker_debug, blocker_debug_text, op_debug, op_debug_text};
use super::diff::DiffResult;
use super::types::{
    canonical_text, json_escape, json_escaped, schema_fingerprint, stable_hash_hex,
    stable_hash_text, ColumnDef, ColumnView, SchemaDef, TableDef, TableView,
};

verus! {

/// Controls which schema plans may be applied.
#[derive(Debug, Clone, Copy, PartialEq, Eq, Structural)]
pub enum ApplyMode {
    /// Apply only plans that do not contain destructive operations.
    SafeOnly,
    /// Allow both safe and destructive operations, as long as no blockers remain.
    AllowDestructive,
}

/// Why a table rebuild is required.
#[derive(Debug)]
pub enum RebuildReason {
    DropColumns { columns: Vec<String> },
    ChangePrimaryKeyName { from: String, to: String },
    ChangePrimaryKeyType { from: String, to: String },
    ChangeColumnType { column: String, from: String, to: String },
    ChangeNullability { column: String, from_nullable: bool, to_nullable: bool },
}

/// The content of a [`RebuildReason`].
pub ghost enum ReasonView {
    DropColumns(Seq<Seq<char>>),
    ChangePrimaryKeyName(Seq<char>, Seq<char>),
    ChangePrimaryKeyType(Seq<char>, Seq<char>),
    ChangeColumnType(Seq<char>, Seq<char>, Seq<char>),
    ChangeNullability(Seq<char>, bool, bool),
}

impl View for RebuildReason {
    type V = ReasonView;

    open spec fn view(&self) -> ReasonView {
        match self {
            RebuildReason::DropColumns { columns } => ReasonView::DropColumns(strings_view(columns@)),
            RebuildReason::ChangePrimaryKeyName { from, to } => ReasonView::ChangePrimaryKeyName(
                from@,
                to@,
            ),
            RebuildReason::ChangePrimaryKeyType { from, to } => ReasonView::ChangePrimaryKeyType(
                from@,
                to@,
            ),
            RebuildReason::ChangeColumnType { column, from, to } => ReasonView::ChangeColumnType(
                column@,
                from@,
                to@,
            ),
            RebuildReason::ChangeNullability { column, from_nullable, to_nullable } =>
                ReasonView::ChangeNullability(column@, *from_nullable, *to_nullable),
        }
    }
}

/// The views of a sequence of rebuild reasons.
pub open spec fn reasons_view(s: Seq<RebuildReason>) -> Seq<ReasonView> {
    s.map_values(|r: RebuildReason| r@)
}

/// A condition that prevents automatic apply.
#[derive(Debug)]
pub enum PlanBlocker {
    RegistryUncertain(String),
    RequiredColumnAddition { table: String, column: String },
    UnsupportedInlineFeature { table: String, feature: String },
    RealForeignKeys { table: String },
    DependentView { table: String, view: String },
    DependentTrigger { table: String, trigger: String },
    Uncertain(String),
}

/// The content of a [`PlanBlocker`].
pub ghost enum BlockerView {
    RegistryUncertain(Seq<char>),
    RequiredColumnAddition(Seq<char>, Seq<char>),
    UnsupportedInlineFeature(Seq<char>, Seq<char>),
    RealForeignKeys(Seq<char>),
    DependentView(Seq<char>, Seq<char>),
    DependentTrigger(Seq<char>, Seq<char>),
    Uncertain(Seq<char>),
}

impl View for PlanBlocker {
    type V = BlockerView;

    open spec fn view(&self) -> BlockerView {
        match self {
            PlanBlocker::RegistryUncertain(m) => BlockerView::RegistryUncertain(m@),
            PlanBlocker::RequiredColumnAddition { table, column } =>
                BlockerView::RequiredColumnAddition(table@, column@),
            PlanBlocker::UnsupportedInlineFeature { table, feature } =>
                BlockerView::UnsupportedInlineFeature(table@, feature@),
            PlanBlocker::RealForeignKeys { table } => BlockerView::RealForeignKeys(table@),
            PlanBlocker::DependentView { table, view } => BlockerView::DependentView(
                table@,
                view@,
            ),
            PlanBlocker::DependentTrigger { table, trigger } => BlockerView::DependentTrigger(
                table@,
                trigger@,
            ),
            PlanBlocker::Uncertain(m) => BlockerView::Uncertain(m@),
        }
    }
}

/// The views of a sequence of blockers.
pub open spec fn blockers_view(s: Seq<PlanBlocker>) -> Seq<BlockerView> {
    s.map_values(|b: PlanBlocker| b@)
}

/// A planned schema operation.
#[derive(Debug)]
pub enum PlanOp {
    CreateTable { table: TableDef },
    AddColumn { table: String, column: ColumnDef },
    RebuildTable { table: String, from: TableDef, to: TableDef, reasons: Vec<RebuildReason> },
    DropTable { table: TableDef },
}

/// The content of a [`PlanOp`].
pub ghost enum OpView {
    CreateTable(TableView),
    AddColumn(Seq<char>, ColumnView),
    RebuildTable(Seq<char>, TableView, TableView, Seq<ReasonView>),
    DropTable(TableView),
}

impl View for PlanOp {
    type V = OpView;

    open spec fn view(&self) -> OpView {
        match self {
            PlanOp::CreateTable { table } => OpView::CreateTable(table@),
            PlanOp::AddColumn { table, column } => OpView::AddColumn(table@, column@),
            PlanOp::RebuildTable { table, from, to, reasons } => OpView::RebuildTable(
                table@,
                from@,
                to@,
                reasons_view(reasons@),
            ),
            PlanOp::DropTable { table } => OpView::DropTable(table@),
        }
    }
}

/// The views of a sequence of operations.
pub open spec fn ops_view(s: Seq<PlanOp>) -> Seq<OpView> {
    s.map_values(|o: PlanOp| o@)
}

/// Rebuilding and dropping tables lose data; creating tables and adding columns do not.
pub open spec fn op_is_destructive(op: OpView) -> bool {
    op is RebuildTable || op is DropTable
}

/// Exactly the operations that rewrite or remove a live table are destructive: rebuilding
/// and dropping a table are, creating a table and adding a column are not.
pub proof fn lemma_destructive_ops(op: OpView)
    ensures
        op is RebuildTable ==> op_is_destructive(op),
        op is DropTable ==> op_is_destructive(op),
        op is CreateTable ==> !op_is_destructive(op),
        op is AddColumn ==> !op_is_destructive(op),
{
}

impl PlanOp {
    /// Returns `true` for operations that can lose data.
    pub fn is_destructive(&self) -> (r: bool)
        ensures
            r == op_is_destructive(self@),
    {
        match self {
            PlanOp::RebuildTable { .. } | PlanOp::DropTable { .. } => true,
            _ => false,
        }
    }
}

/// A reviewable schema reconciliation plan.
#[derive(Debug)]
pub struct Plan {
    /// Artifact version for deterministic plan serialization.
    pub artifact_version: u32,
    /// The normalized managed source schema read from the live database.
    pub source: SchemaDef,
    /// The normalized managed target schema derived from model metadata.
    pub target: SchemaDef,
    /// Fingerprint of the source schema.
    pub source_fingerprint: String,
    /// Fingerprint of the target schema.
    pub target_fingerprint: String,
    /// Planned schema operations in deterministic order.
    pub ops: Vec<PlanOp>,
    /// Conditions that prevent automatic apply.
    pub blockers: Vec<PlanBlocker>,
    /// Deterministic plan identity.
    pub plan_id: String,
}

impl Plan {
    /// Returns `true` when automatic apply must refuse the plan.
    pub fn is_blocked(&self) -> (r: bool)
        ensures
            r == (self.blockers@.len() > 0),
    {
        self.blockers.len() > 0
    }

    /// Returns `true` when the plan contains any destructive operation.
    pub fn is_destructive(&self) -> (r: bool)
        ensures
            r == exists|i: int| 0 <= i < self.ops@.len() && op_is_destructive(#[trigger] self.ops@[i]@),
    {
        let mut i: usize = 0;
        while i < self.ops.len()
            invariant
                i <= self.ops@.len(),
                forall|k: int| 0 <= k < i ==> !op_is_destructive(#[trigger] self.ops@[k]@),
            decreases self.ops@.len() - i,
        {
            if self.ops[i].is_destructive() {
                return true;
            }
            i = i + 1;
        }
        false
    }
}

/// A JSON string literal.
pub open spec fn json_string(s: Seq<char>) -> Seq<char> {
    "\""@ + json_escaped(s) + "\""@
}

fn push_json_string(out: &mut String, s: &str)
    ensures
        final(out)@ == old(out)@ + json_string(s@),
{
    out.append("\"");
    let e = json_escape(s);
    out.append(e.as_str());
    out.append("\"");
}

/// The JSON object of a column.
pub open spec fn column_json_text(c: ColumnView) -> Seq<char> {
    "{\"name\":"@ + json_string(c.name) + ",\"sql_type\":"@ + json_string(c.sql_type)
        + ",\"nullable\":"@ + bool_text(c.nullable) + "}"@
}

/// The JSON object of a table.
pub open spec fn table_json_text(t: TableView) -> Seq<char> {
    "{\"name\":"@ + json_string(t.name) + ",\"primary_key\":{\"name\":"@ + json_string(
        t.primary_key.name,
    ) + ",\"sql_type\":"@ + json_string(t.primary_key.sql_type) + "},\"columns\":["@ + joined(
        t.columns.map_values(|c: ColumnView| column_json_text(c)),
        ","@,
    ) + "]}"@
}

/// Renders a column as a JSON object.
pub fn column_json(column: &ColumnDef) -> (r: String)
    ensures
        r@ == column_json_text(column@),
{
    let mut out = String::from_str("{\"name\":");
    push_json_string(&mut out, column.name.as_str());
    out.append(",\"sql_type\":");
    push_json_string(&mut out, column.sql_type.as_str());
    out.append(",\"nullable\":");
    out.append(if column.nullable { "true" } else { "false" });
    out.append("}");
    out
}

/// Renders a table as a JSON object.
pub fn table_json(table: &TableDef) -> (r: String)
    ensures
        r@ == table_json_text(table@),
{
    let ghost cv = table@.columns;
    let mut items: Vec<String> = Vec::new();
    let mut i: usize = 0;
    while i < table.columns.len()
        invariant
            i <= table.columns@.len(),
            cv == table@.columns,
            items@.len() == i,
            forall|k: int| 0 <= k < i ==> (#[trigger] items@[k])@ == column_json_text(cv[k]),
        decreases table.columns@.len() - i,
    {
        items.push(column_json(&table.columns[i]));
        i = i + 1;
    }
    assert(strings_view(items@) =~= cv.map_values(|c: ColumnView| column_json_text(c)));
    let columns = join_strings(&items, ",");
    let mut out = String::from_str("{\"name\":");
    push_json_string(&mut out, table.name.as_str());
    out.append(",\"primary_key\":{\"name\":");
    push_json_string(&mut out, table.primary_key.name.as_str());
    out.append(",\"sql_type\":");
    push_json_string(&mut out, table.primary_key.sql_type.as_str());
    out.append("},\"columns\":[");
    out.append(columns.as_str());
    out.append("]}");
    out
}

/// The JSON object of a rebuild reason.
pub open spec fn reason_json_text(r: ReasonView) -> Seq<char> {
    match r {
        ReasonView::DropColumns(columns) => "{\"kind\":\"drop_columns\",\"columns\":["@ + joined(
            columns.map_values(|c: Seq<char>| json_string(c)),
            ","@,
        ) + "]}"@,
        ReasonView::ChangePrimaryKeyName(from, to) =>
            "{\"kind\":\"change_primary_key_name\",\"from\":"@ + json_string(from) + ",\"to\":"@
                + json_string(to) + "}"@,
        ReasonView::ChangePrimaryKeyType(from, to) =>
            "{\"kind\":\"change_primary_key_type\",\"from\":"@ + json_string(from) + ",\"to\":"@
                + json_string(to) + "}"@,
        ReasonView::ChangeColumnType(column, from, to) =>
            "{\"kind\":\"change_column_type\",\"column\":"@ + json_string(column) + ",\"from\":"@
                + json_string(from) + ",\"to\":"@ + json_string(to) + "}"@,
        ReasonView::ChangeNullability(column, from_nullable, to_nullable) =>
            "{\"kind\":\"change_nullability\",\"column\":"@ + json_string(column)
                + ",\"from_nullable\":"@ + bool_text(from_nullable) + ",\"to_nullable\":"@
                + bool_text(to_nullable) + "}"@,
    }
}

impl RebuildReason {
    /// Renders this reason as a JSON object.
    pub fn to_json(&self) -> (r: String)
        ensures
            r@ == reason_json_text(self@),
    {
        match self {
            RebuildReason::DropColumns { columns } => {
                let mut items: Vec<String> = Vec::new();
                let mut i: usize = 0;
                while i < columns.len()
                    invariant
                        i <= columns@.len(),
                        items@.len() == i,
                        forall|k: int|
                            0 <= k < i ==> (#[trigger] items@[k])@ == json_string(columns@[k]@),
                    decreases columns@.len() - i,
                {
                    let mut item = String::new();
                    push_json_string(&mut item, columns[i].as_str());
                    items.push(item);
                    i = i + 1;
                }
                assert(strings_view(items@) =~= strings_view(columns@).map_values(
                    |c: Seq<char>| json_string(c),
                ));
                let list = join_strings(&items, ",");
                let mut out = String::from_str("{\"kind\":\"drop_columns\",\"columns\":[");
                out.append(list.as_str());
                out.append("]}");
                out
            },
            RebuildReason::ChangePrimaryKeyName { from, to } => {
                let mut out = String::from_str("{\"kind\":\"change_primary_key_name\",\"from\":");
                push_json_string(&mut out, from.as_str());
                out.append(",\"to\":");
                push_json_string(&mut out, to.as_str());
                out.append("}");
                out
            },
            RebuildReason::ChangePrimaryKeyType { from, to } => {
                let mut out = String::from_str("{\"kind\":\"change_primary_key_type\",\"from\":");
                push_json_string(&mut out, from.as_str());
                out.append(",\"to\":");
                push_json_string(&mut out, to.as_str());
                out.append("}");
                out
            },
            RebuildReason::ChangeColumnType { column, from, to } => {
                let mut out = String::from_str("{\"kind\":\"change_column_type\",\"column\":");
                push_json_string(&mut out, column.as_str());
                out.append(",\"from\":");
                push_json_string(&mut out, from.as_str());
                out.append(",\"to\":");
                push_json_string(&mut out, to.as_str());
                out.append("}");
                out
            },
            RebuildReason::ChangeNullability { column, from_nullable, to_nullable } => {
                let mut out = String::from_str("{\"kind\":\"change_nullability\",\"column\":");
                push_json_string(&mut out, column.as_str());
                out.append(",\"from_nullable\":");
                out.append(if *from_nullable { "true" } else { "false" });
                out.append(",\"to_nullable\":");
                out.append(if *to_nullable { "true" } else { "false" });
                out.append("}");
                out
            },
        }
    }
}

/// The JSON object of a blocker.
pub open spec fn blocker_json_text(b: BlockerView) -> Seq<char> {
    match b {
        BlockerView::RegistryUncertain(m) => "{\"kind\":\"registry_uncertain\",\"message\":"@
            + json_string(m) + "}"@,
        BlockerView::RequiredColumnAddition(table, column) =>
            "{\"kind\":\"required_column_addition\",\"table\":"@ + json_string(table)
                + ",\"column\":"@ + json_string(column) + "}"@,
        BlockerView::UnsupportedInlineFeature(table, feature) =>
            "{\"kind\":\"unsupported_inline_feature\",\"table\":"@ + json_string(table)
                + ",\"feature\":"@ + json_string(feature) + "}"@,
        BlockerView::RealForeignKeys(table) => "{\"kind\":\"real_foreign_keys\",\"table\":"@
            + json_string(table) + "}"@,
        BlockerView::DependentView(table, view) => "{\"kind\":\"dependent_view\",\"table\":"@
            + json_string(table) + ",\"view\":"@ + json_string(view) + "}"@,
        BlockerView::DependentTrigger(table, trigger) =>
            "{\"kind\":\"dependent_trigger\",\"table\":"@ + json_string(table) + ",\"trigger\":"@
                + json_string(trigger) + "}"@,
        BlockerView::Uncertain(m) => "{\"kind\":\"uncertain\",\"message\":"@ + json_string(m)
            + "}"@,
    }
}

fn kind_pair_json(kind: &str, first_key: &str, first: &str, second_key: &str, second: &str) -> (r:
    String)
    ensures
        r@ == "{\"kind\":\""@ + kind@ + "\",\""@ + first_key@ + "\":"@ + json_string(first@)
            + ",\""@ + second_key@ + "\":"@ + json_string(second@) + "}"@,
{
    let mut out = String::from_str("{\"kind\":\"");
    out.append(kind);
    out.append("\",\"");
    out.append(first_key);
    out.append("\":");
    push_json_string(&mut out, first);
    out.append(",\"");
    out.append(second_key);
    out.append("\":");
    push_json_string(&mut out, second);
    out.append("}");
    out
}

fn kind_single_json(kind: &str, key: &str, value: &str) -> (r: String)
    ensures
        r@ == "{\"kind\":\""@ + kind@ + "\",\""@ + key@ + "\":"@ + json_string(value@) + "}"@,
{
    let mut out = String::from_str("{\"kind\":\"");
    out.append(kind);
    out.append("\",\"");
    out.append(key);
    out.append("\":");
    push_json_string(&mut out, value);
    out.append("}");
    out
}

impl PlanBlocker {
    /// Renders this blocker as a JSON object.
    pub fn to_json(&self) -> (r: String)
        ensures
            r@ == blocker_json_text(self@),
    {
        proof {
            reveal_strlit("{\"kind\":\"");
            reveal_strlit("\",\"");
            reveal_strlit("\":");
            reveal_strlit(",\"");
            reveal_strlit("}");
        }
        match self {
            PlanBlocker::RegistryUncertain(m) => {
                let r = kind_single_json("registry_uncertain", "message", m.as_str());
                proof {
                    reveal_strlit("registry_uncertain");
                    reveal_strlit("message");
                    reveal_strlit("{\"kind\":\"registry_uncertain\",\"message\":");
                    assert(r@ =~= blocker_json_text(self@));
                }
                r
            },
            PlanBlocker::RequiredColumnAddition { table, column } => {
                let r = kind_pair_json("required_column_addition", "table", table.as_str(), "column", column.as_str());
                proof {
                    reveal_strlit("required_column_addition");
                    reveal_strlit("table");
                    reveal_strlit("column");
                    reveal_strlit("{\"kind\":\"required_column_addition\",\"table\":");
                    reveal_strlit(",\"column\":");
                    assert(r@ =~= blocker_json_text(self@));
                }
                r
            },
            PlanBlocker::UnsupportedInlineFeature { table, feature } => {
                let r = kind_pair_json("unsupported_inline_feature", "table", table.as_str(), "feature", feature.as_str());
                proof {
                    reveal_strlit("unsupported_inline_feature");
                    reveal_strlit("table");
                    reveal_strlit("feature");
                    reveal_strlit("{\"kind\":\"unsupported_inline_feature\",\"table\":");
                    reveal_strlit(",\"feature\":");
                    assert(r@ =~= blocker_json_text(self@));
                }
                r
            },
            PlanBlocker::RealForeignKeys { table } => {
                let r = kind_single_json("real_foreign_keys", "table", table.as_str());
                proof {
                    reveal_strlit("real_foreign_keys");
                    reveal_strlit("table");
                    reveal_strlit("{\"kind\":\"real_foreign_keys\",\"table\":");
                    assert(r@ =~= blocker_json_text(self@));
                }
                r
            },
            PlanBlocker::DependentView { table, view } => {
                let r = kind_pair_json("dependent_view", "table", table.as_str(), "view", view.as_str());
                proof {
                    reveal_strlit("dependent_view");
                    reveal_strlit("table");
                    reveal_strlit("view");
                    reveal_strlit("{\"kind\":\"dependent_view\",\"table\":");
                    reveal_strlit(",\"view\":");
                    assert(r@ =~= blocker_json_text(self@));
                }
                r
            },
            PlanBlocker::DependentTrigger { table, trigger } => {
                let r = kind_pair_json("dependent_trigger", "table", table.as_str(), "trigger", trigger.as_str());
                proof {
                    reveal_strlit("dependent_trigger");
                    reveal_strlit("table");
                    reveal_strlit("trigger");
                    reveal_strlit("{\"kind\":\"dependent_trigger\",\"table\":");
                    reveal_strlit(",\"trigger\":");
                    assert(r@ =~= blocker_json_text(self@));
                }
                r
            },
            PlanBlocker::Uncertain(m) => {
                let r = kind_single_json("uncertain", "message", m.as_str());
                proof {
                    reveal_strlit("uncertain");
                    reveal_strlit("message");
                    reveal_strlit("{\"kind\":\"uncertain\",\"message\":");
                    assert(r@ =~= blocker_json_text(self@));
                }
                r
            },
        }
    }
}

/// The JSON object of an operation.
pub open spec fn op_json_text(op: OpView) -> Seq<char> {
    match op {
        OpView::CreateTable(t) => "{\"kind\":\"create_table\",\"table\":"@ + table_json_text(t)
            + "}"@,
        OpView::AddColumn(table, column) => "{\"kind\":\"add_column\",\"table\":"@ + json_string(
            table,
        ) + ",\"column\":"@ + column_json_text(column) + "}"@,
        OpView::RebuildTable(table, _, _, reasons) => "{\"kind\":\"rebuild_table\",\"table\":"@
            + json_string(table) + ",\"reasons\":["@ + joined(
            reasons.map_values(|r: ReasonView| reason_json_text(r)),
            ","@,
        ) + "]}"@,
        OpView::DropTable(t) => "{\"kind\":\"drop_table\",\"table\":"@ + table_json_text(t)
            + "}"@,
    }
}

impl PlanOp {
    /// Renders this operation as a JSON object.
    pub fn to_json(&self) -> (r: String)
        ensures
            r@ == op_json_text(self@),
    {
        match self {
            PlanOp::CreateTable { table } => {
                let mut out = String::from_str("{\"kind\":\"create_table\",\"table\":");
                let t = table_json(table);
                out.append(t.as_str());
                out.append("}");
                out
            },
            PlanOp::AddColumn { table, column } => {
                let mut out = String::from_str("{\"kind\":\"add_column\",\"table\":");
                push_json_string(&mut out, table.as_str());
                out.append(",\"column\":");
                let c = column_json(column);
                out.append(c.as_str());
                out.append("}");
                out
            },
            PlanOp::RebuildTable { table, reasons, .. } => {
                let ghost rv = reasons_view(reasons@);
                let mut items: Vec<String> = Vec::new();
                let mut i: usize = 0;
                while i < reasons.len()
                    invariant
                        i <= reasons@.len(),
                        rv == reasons_view(reasons@),
                        items@.len() == i,
                        forall|k: int|
                            0 <= k < i ==> (#[trigger] items@[k])@ == reason_json_text(rv[k]),
                    decreases reasons@.len() - i,
                {
                    items.push(reasons[i].to_json());
                    i = i + 1;
                }
                assert(strings_view(items@) =~= rv.map_values(|r: ReasonView| reason_json_text(r)));
                let list = join_strings(&items, ",");
                let mut out = String::from_str("{\"kind\":\"rebuild_table\",\"table\":");
                push_json_string(&mut out, table.as_str());
                out.append(",\"reasons\":[");
                out.append(list.as_str());
                out.append("]}");
                out
            },
            PlanOp::DropTable { table } => {
                let mut out = String::from_str("{\"kind\":\"drop_table\",\"table\":");
                let t = table_json(table);
                out.append(t.as_str());
                out.append("}");
                out
            },
        }
    }
}

/// The JSON objects of a schema's tables, separated by commas.
pub open spec fn schema_tables_json_text(tables: Seq<TableView>) -> Seq<char> {
    joined(tables.map_values(|t: TableView| table_json_text(t)), ","@)
}

/// Renders a schema's tables as comma-separated JSON objects.
pub fn schema_tables_json(schema: &SchemaDef) -> (r: String)
    ensures
        r@ == schema_tables_json_text(schema@),
{
    let ghost tv = schema@;
    let mut items: Vec<String> = Vec::new();
    let mut i: usize = 0;
    while i < schema.tables.len()
        invariant
            i <= schema.tables@.len(),
            tv == schema@,
            items@.len() == i,
            forall|k: int| 0 <= k < i ==> (#[trigger] items@[k])@ == table_json_text(tv[k]),
        decreases schema.tables@.len() - i,
    {
        items.push(table_json(&schema.tables[i]));
        i = i + 1;
    }
    assert(strings_view(items@) =~= tv.map_values(|t: TableView| table_json_text(t)));
    join_strings(&items, ",")
}

/// The deterministic JSON form of a plan.
pub open spec fn plan_json_text(p: Plan) -> Seq<char> {
    "{\"artifact_version\":"@ + decimal(p.artifact_version as nat) + ",\"plan_id\":\""@
        + json_escaped(p.plan_id@) + "\",\"source_fingerprint\":\""@ + json_escaped(
        p.source_fingerprint@,
    ) + "\",\"target_fingerprint\":\""@ + json_escaped(p.target_fingerprint@)
        + "\",\"source\":{\"tables\":["@ + schema_tables_json_text(p.source@)
        + "]},\"target\":{\"tables\":["@ + schema_tables_json_text(p.target@) + "]},\"ops\":["@
        + joined(ops_view(p.ops@).map_values(|o: OpView| op_json_text(o)), ","@)
        + "],\"blockers\":["@ + joined(
        blockers_view(p.blockers@).map_values(|b: BlockerView| blocker_json_text(b)),
        ","@,
    ) + "]}"@
}

impl Plan {
    /// Renders the plan as deterministic JSON for inspection or storage.
    pub fn to_json_string(&self) -> (r: String)
        ensures
            r@ == plan_json_text(*self),
    {
        let source_tables = schema_tables_json(&self.source);
        let target_tables = schema_tables_json(&self.target);
        let ghost ov = ops_view(self.ops@);
        let mut op_items: Vec<String> = Vec::new();
        let mut i: usize = 0;
        while i < self.ops.len()
            invariant
                i <= self.ops@.len(),
                ov == ops_view(self.ops@),
                op_items@.len() == i,
                forall|k: int| 0 <= k < i ==> (#[trigger] op_items@[k])@ == op_json_text(ov[k]),
            decreases self.ops@.len() - i,
        {
            op_items.push(self.ops[i].to_json());
            i = i + 1;
        }
        assert(strings_view(op_items@) =~= ov.map_values(|o: OpView| op_json_text(o)));
        let ops = join_strings(&op_items, ",");
        let ghost bv = blockers_view(self.blockers@);
        let mut blocker_items: Vec<String> = Vec::new();
        let mut j: usize = 0;
        while j < self.blockers.len()
            invariant
                j <= self.blockers@.len(),
                bv == blockers_view(self.blockers@),
                blocker_items@.len() == j,
                forall|k: int|
                    0 <= k < j ==> (#[trigger] blocker_items@[k])@ == blocker_json_text(bv[k]),
            decreases self.blockers@.len() - j,
        {
            blocker_items.push(self.blockers[j].to_json());
            j = j + 1;
        }
        assert(strings_view(blocker_items@) =~= bv.map_values(|b: BlockerView| blocker_json_text(b)));
        let blockers = join_strings(&blocker_items, ",");
        let mut out = String::from_str("{\"artifact_version\":");
        push_decimal(&mut out, self.artifact_version as u128);
        out.append(",\"plan_id\":\"");
        let e = json_escape(self.plan_id.as_str());
        out.append(e.as_str());
        out.append("\",\"source_fingerprint\":\"");
        let e = json_escape(self.source_fingerprint.as_str());
        out.append(e.as_str());
        out.append("\",\"target_fingerprint\":\"");
        let e = json_escape(self.target_fingerprint.as_str());
        out.append(e.as_str());
        out.append("\",\"source\":{\"tables\":[");
        out.append(source_tables.as_str());
        out.append("]},\"target\":{\"tables\":[");
        out.append(target_tables.as_str());
        out.append("]},\"ops\":[");
        out.append(ops.as_str());
        out.append("],\"blockers\":[");
        out.append(blockers.as_str());
        out.append("]}");
        out
    }
}

/// One `op=` line per operation.
pub open spec fn op_identity_lines(ops: Seq<OpView>) -> Seq<char>
    decreases ops.len(),
{
    if ops.len() == 0 {
        Seq::empty()
    } else {
        op_identity_lines(ops.drop_last()) + "op="@ + op_debug_text(ops.last()) + "\n"@
    }
}

/// One `blocker=` line per blocker.
pub open spec fn blocker_identity_lines(bs: Seq<BlockerView>) -> Seq<char>
    decreases bs.len(),
{
    if bs.len() == 0 {
        Seq::empty()
    } else {
        blocker_identity_lines(bs.drop_last()) + "blocker="@ + blocker_debug_text(bs.last()) + "\n"@
    }
}

/// The text whose stable hash identifies a plan: its artifact version, the canonical
/// source and target schemas, then its operations and blockers.
pub open spec fn plan_identity_text(
    version: nat,
    source: Seq<TableView>,
    target: Seq<TableView>,
    ops: Seq<OpView>,
    blockers: Seq<BlockerView>,
) -> Seq<char> {
    "artifact_version="@ + decimal(version) + "\n"@ + "source\n"@ + canonical_text(source)
        + "target\n"@ + canonical_text(target) + op_identity_lines(ops) + blocker_identity_lines(
        blockers,
    )
}

/// The artifact version of plans built by this library.
pub const ARTIFACT_VERSION: u32 = 1;

impl Plan {
    /// The deterministic identity of this plan: the stable hash of its identity text.
    pub fn compute_plan_id(&self) -> (r: String)
        ensures
            r@ == stable_hash_text(
                encode_utf8(
                    plan_identity_text(
                        self.artifact_version as nat,
                        self.source@,
                        self.target@,
                        ops_view(self.ops@),
                        blockers_view(self.blockers@),
                    ),
                ),
            ),
    {
        let mut data = String::from_str("artifact_version=");
        push_decimal(&mut data, self.artifact_version as u128);
        data.append("\n");
        data.append("source\n");
        data.append(self.source.canonical_string().as_str());
        data.append("target\n");
        data.append(self.target.canonical_string().as_str());
        let ghost head = data@;
        let ghost ov = ops_view(self.ops@);
        let mut i: usize = 0;
        while i < self.ops.len()
            invariant
                i <= self.ops@.len(),
                ov == ops_view(self.ops@),
                data@ == head + op_identity_lines(ov.take(i as int)),
            decreases self.ops@.len() - i,
        {
            data.append("op=");
            data.append(op_debug(&self.ops[i]).as_str());
            data.append("\n");
            assert(ov.take(i + 1).drop_last() =~= ov.take(i as int));
            assert(data@ =~= head + op_identity_lines(ov.take(i + 1)));
            i = i + 1;
        }
        assert(ov.take(self.ops@.len() as int) =~= ov);
        let ghost mid = data@;
        let ghost bv = blockers_view(self.blockers@);
        let mut j: usize = 0;
        while j < self.blockers.len()
            invariant
                j <= self.blockers@.len(),
                bv == blockers_view(self.blockers@),
                data@ == mid + blocker_identity_lines(bv.take(j as int)),
            decreases self.blockers@.len() - j,
        {
            data.append("blocker=");
            data.append(blocker_debug(&self.blockers[j]).as_str());
            data.append("\n");
            assert(bv.take(j + 1).drop_last() =~= bv.take(j as int));
            assert(data@ =~= mid + blocker_identity_lines(bv.take(j + 1)));
            j = j + 1;
        }
        assert(bv.take(self.blockers@.len() as int) =~= bv);
        assert(data@ =~= plan_identity_text(
            self.artifact_version as nat,
            self.source@,
            self.target@,
            ov,
            bv,
        ));
        stable_hash_hex(data.as_str().as_bytes())
    }

    /// Assembles the plan that reconciles the live schema with `target`, from their
    /// comparison: the normalized live schema as the source, both fingerprints, the
    /// comparison's operations and blockers, and the plan's identity.
    pub fn from_comparison(target: SchemaDef, diff: DiffResult) -> (r: Plan)
        ensures
            r.artifact_version == ARTIFACT_VERSION,
            r.source@ == diff.source@,
            r.target@ == target@,
            r.source_fingerprint@ == schema_fingerprint(diff.source@),
            r.target_fingerprint@ == schema_fingerprint(target@),
            ops_view(r.ops@) == ops_view(diff.ops@),
            blockers_view(r.blockers@) == blockers_view(diff.blockers@),
            r.plan_id@ == stable_hash_text(
                encode_utf8(
                    plan_identity_text(
                        ARTIFACT_VERSION as nat,
                        diff.source@,
                        target@,
                        ops_view(diff.ops@),
                        blockers_view(diff.blockers@),
                    ),
                ),
            ),
    {
        let DiffResult { source, ops, blockers } = diff;
        let source_fingerprint = source.fingerprint();
        let target_fingerprint = target.fingerprint();
        let mut plan = Plan {
            artifact_version: ARTIFACT_VERSION,
            source,
            target,
            source_fingerprint,
            target_fingerprint,
            ops,
            blockers,
            plan_id: String::new(),
        };
        plan.plan_id = plan.compute_plan_id();
        plan
    }
}

} // verus!
