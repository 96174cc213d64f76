//! Comparing a desired schema with the live one: the operations that reconcile them and
//! the conditions that block applying them.

use vstd::prelude::*;
use vstd::utf8::encode_utf8;

use crate::error::Error;
use crate::text::strings_view;

use super::introspect::{actual_tables, actuals_view, ActualTable, ActualView};
use super::plan::{
    blockers_view, ops_view, BlockerView, OpView, PlanBlocker, PlanOp, ReasonView, RebuildReason,
    reasons_view,
};
use super::sorting::{
    bytes_less, key_before, lemma_map_same_elements, sort_by_key, sorted_by_key, str_less, text_before, Keyed,
    SortKey,
};
use super::types::{
    affinity_of, lemma_normalization_unique, strictly_sorted, columns_view, duplicate_tables, is_normalization, schema_problem, tables_view,
    ColumnDef, ColumnView, SchemaDef, TableDef, TableView,
};

verus! {

/// Names strictly increasing in `str` order (a map keyed by name, in key order).
pub open spec fn names_ascending(s: Seq<TableView>) -> bool {
    forall|i: int, j: int| 0 <= i < j < s.len() ==> text_before(#[trigger] s[i].name, #[trigger] s[j].name)
}

/// The column called `name`, if any.
pub open spec fn lookup_column(cols: Seq<ColumnView>, name: Seq<char>) -> Option<ColumnView>
    decreases cols.len(),
{
    if cols.len() == 0 {
        None
    } else if cols[0].name == name {
        Some(cols[0])
    } else {
        lookup_column(cols.drop_first(), name)
    }
}

/// The table called `name`, if any.
pub open spec fn lookup_table(tables: Seq<TableView>, name: Seq<char>) -> Option<TableView>
    decreases tables.len(),
{
    if tables.len() == 0 {
        None
    } else if tables[0].name == name {
        Some(tables[0])
    } else {
        lookup_table(tables.drop_first(), name)
    }
}

/// The live table called `name`, if any.
pub open spec fn lookup_actual(actual: Seq<ActualView>, name: Seq<char>) -> Option<ActualView>
    decreases actual.len(),
{
    if actual.len() == 0 {
        None
    } else if actual[0].table.name == name {
        Some(actual[0])
    } else {
        lookup_actual(actual.drop_first(), name)
    }
}

/// Reasons from the primary key: a new name, then a new type.
pub open spec fn key_reasons(desired: TableView, live: TableView) -> Seq<ReasonView> {
    (if desired.primary_key.name != live.primary_key.name {
        seq![ReasonView::ChangePrimaryKeyName(live.primary_key.name, desired.primary_key.name)]
    } else {
        Seq::empty()
    }) + (if affinity_of(desired.primary_key.sql_type) != affinity_of(live.primary_key.sql_type)
        || desired.primary_key.sql_type != live.primary_key.sql_type {
        seq![ReasonView::ChangePrimaryKeyType(live.primary_key.sql_type, desired.primary_key.sql_type)]
    } else {
        Seq::empty()
    })
}

/// Reasons from one desired column kept in the live table: a different type affinity,
/// then a different nullability.
pub open spec fn column_reasons(d: ColumnView, live: Seq<ColumnView>) -> Seq<ReasonView> {
    match lookup_column(live, d.name) {
        None => Seq::empty(),
        Some(a) => (if affinity_of(d.sql_type) != affinity_of(a.sql_type) {
            seq![ReasonView::ChangeColumnType(d.name, a.sql_type, d.sql_type)]
        } else {
            Seq::empty()
        }) + (if d.nullable != a.nullable {
            seq![ReasonView::ChangeNullability(d.name, a.nullable, d.nullable)]
        } else {
            Seq::empty()
        }),
    }
}

/// Reasons from the desired columns, in order.
pub open spec fn columns_reasons(desired: Seq<ColumnView>, live: Seq<ColumnView>) -> Seq<ReasonView>
    decreases desired.len(),
{
    if desired.len() == 0 {
        Seq::empty()
    } else {
        columns_reasons(desired.drop_last(), live) + column_reasons(desired.last(), live)
    }
}

/// The names of live columns that the desired table does not have, in order.
pub open spec fn removed_names(live: Seq<ColumnView>, desired: Seq<ColumnView>) -> Seq<Seq<char>>
    decreases live.len(),
{
    if live.len() == 0 {
        Seq::empty()
    } else {
        removed_names(live.drop_last(), desired) + if lookup_column(desired, live.last().name) is None {
            seq![live.last().name]
        } else {
            Seq::empty()
        }
    }
}

/// `c` put into columns held in strictly increasing name order, in place of the column
/// of the same name if there is one.
pub open spec fn insert_column(s: Seq<ColumnView>, c: ColumnView) -> Seq<ColumnView>
    decreases s.len(),
{
    if s.len() == 0 {
        seq![c]
    } else if s[0].name == c.name {
        seq![c] + s.drop_first()
    } else if text_before(c.name, s[0].name) {
        seq![c] + s
    } else {
        seq![s[0]] + insert_column(s.drop_first(), c)
    }
}

/// The columns as a map from names holds them: one per name (the last one given), in name
/// order.
pub open spec fn keyed_columns(cols: Seq<ColumnView>) -> Seq<ColumnView>
    decreases cols.len(),
{
    if cols.len() == 0 {
        Seq::empty()
    } else {
        insert_column(keyed_columns(cols.drop_last()), cols.last())
    }
}

/// A desired table with its columns keyed by name.
pub open spec fn keyed_table(t: TableView) -> TableView {
    TableView { name: t.name, primary_key: t.primary_key, columns: keyed_columns(t.columns) }
}

/// Whether a table after position `i` has the same name as the one at `i`.
pub open spec fn named_later(ts: Seq<TableView>, i: int) -> bool {
    exists|j: int| i < j < ts.len() && #[trigger] ts[j].name == ts[i].name
}

/// The first `k` tables, without those whose name a later table repeats.
pub open spec fn kept_tables(ts: Seq<TableView>, k: nat) -> Seq<TableView>
    decreases k,
{
    if k == 0 {
        Seq::empty()
    } else {
        kept_tables(ts, (k - 1) as nat) + if named_later(ts, k - 1) {
            Seq::empty()
        } else {
            seq![ts[k - 1]]
        }
    }
}

/// The desired tables as a map from names holds them: the last one given of each name.
pub open spec fn keyed_tables(ts: Seq<TableView>) -> Seq<TableView> {
    kept_tables(ts, ts.len())
}

/// Every reason to rebuild a live table into the desired one.
pub open spec fn table_reasons(desired: TableView, live: TableView) -> Seq<ReasonView> {
    let removed = removed_names(live.columns, desired.columns);
    key_reasons(desired, live) + columns_reasons(desired.columns, live.columns) + if removed.len()
        > 0 {
        seq![ReasonView::DropColumns(removed)]
    } else {
        Seq::empty()
    }
}

/// Desired columns missing from the live table that may be `NULL`, in order.
pub open spec fn added_columns(desired: Seq<ColumnView>, live: Seq<ColumnView>) -> Seq<ColumnView>
    decreases desired.len(),
{
    if desired.len() == 0 {
        Seq::empty()
    } else {
        added_columns(desired.drop_last(), live) + if lookup_column(live, desired.last().name) is None
            && desired.last().nullable {
            seq![desired.last()]
        } else {
            Seq::empty()
        }
    }
}

/// Required desired columns missing from the live table, as blockers.
pub open spec fn required_blockers(table: Seq<char>, desired: Seq<ColumnView>, live: Seq<ColumnView>) -> Seq<BlockerView>
    decreases desired.len(),
{
    if desired.len() == 0 {
        Seq::empty()
    } else {
        required_blockers(table, desired.drop_last(), live) + if lookup_column(live, desired.last().name) is None
            && !desired.last().nullable {
            seq![BlockerView::RequiredColumnAddition(table, desired.last().name)]
        } else {
            Seq::empty()
        }
    }
}

/// One blocker per unsupported feature of a live table.
pub open spec fn feature_blockers(table: Seq<char>, features: Seq<Seq<char>>) -> Seq<BlockerView> {
    features.map_values(|f: Seq<char>| BlockerView::UnsupportedInlineFeature(table, f))
}

/// One blocker per view that depends on a live table.
pub open spec fn view_blockers(table: Seq<char>, views: Seq<Seq<char>>) -> Seq<BlockerView> {
    views.map_values(|v: Seq<char>| BlockerView::DependentView(table, v))
}

/// One blocker per trigger of another table that depends on a live table.
pub open spec fn trigger_blockers(table: Seq<char>, triggers: Seq<Seq<char>>) -> Seq<BlockerView> {
    triggers.map_values(|t: Seq<char>| BlockerView::DependentTrigger(table, t))
}

/// What blocks dropping a live table: real foreign keys and dependent views and triggers.
pub open spec fn drop_blockers(table: Seq<char>, a: ActualView) -> Seq<BlockerView> {
    (if a.has_real_foreign_keys {
        seq![BlockerView::RealForeignKeys(table)]
    } else {
        Seq::empty()
    }) + view_blockers(table, a.views) + trigger_blockers(table, a.triggers)
}

/// What blocks rewriting a live table: its unsupported features, then what blocks dropping
/// it.
pub open spec fn rewrite_blockers(table: Seq<char>, a: ActualView) -> Seq<BlockerView> {
    feature_blockers(table, a.features) + drop_blockers(table, a)
}

/// One column addition per column.
pub open spec fn add_column_ops(table: Seq<char>, columns: Seq<ColumnView>) -> Seq<OpView> {
    columns.map_values(|c: ColumnView| OpView::AddColumn(table, c))
}

/// The operations for one desired table: create it when it is missing; rebuild it when
/// anything beyond nullable additions changed; otherwise add the missing nullable columns.
pub open spec fn table_ops(desired: TableView, actual: Seq<ActualView>, source: Seq<TableView>) -> Seq<OpView> {
    match (lookup_actual(actual, desired.name), lookup_table(source, desired.name)) {
        (Some(a), Some(live)) => {
            let reasons = table_reasons(keyed_table(desired), live);
            if reasons.len() > 0 {
                seq![OpView::RebuildTable(desired.name, a.table, desired, reasons)]
            } else {
                add_column_ops(desired.name, added_columns(keyed_columns(desired.columns), live.columns))
            }
        },
        _ => seq![OpView::CreateTable(desired)],
    }
}

/// The blockers for one desired table.
pub open spec fn table_blockers(desired: TableView, actual: Seq<ActualView>, source: Seq<TableView>) -> Seq<BlockerView> {
    match (lookup_actual(actual, desired.name), lookup_table(source, desired.name)) {
        (Some(a), Some(live)) => required_blockers(desired.name, keyed_columns(desired.columns), live.columns)
            + if table_reasons(keyed_table(desired), live).len() > 0 {
            rewrite_blockers(desired.name, a)
        } else {
            Seq::empty()
        },
        _ => Seq::empty(),
    }
}

/// The operations for the desired tables, in order.
pub open spec fn target_ops(target: Seq<TableView>, actual: Seq<ActualView>, source: Seq<TableView>) -> Seq<OpView>
    decreases target.len(),
{
    if target.len() == 0 {
        Seq::empty()
    } else {
        target_ops(target.drop_last(), actual, source) + table_ops(target.last(), actual, source)
    }
}

/// The blockers for the desired tables, in order.
pub open spec fn target_blockers(target: Seq<TableView>, actual: Seq<ActualView>, source: Seq<TableView>) -> Seq<BlockerView>
    decreases target.len(),
{
    if target.len() == 0 {
        Seq::empty()
    } else {
        target_blockers(target.drop_last(), actual, source) + table_blockers(target.last(), actual, source)
    }
}

/// Drops of live tables that the target does not name, in order.
pub open spec fn drop_ops(actual: Seq<ActualView>, target: Seq<TableView>) -> Seq<OpView>
    decreases actual.len(),
{
    if actual.len() == 0 {
        Seq::empty()
    } else {
        drop_ops(actual.drop_last(), target) + if lookup_table(target, actual.last().table.name) is None {
            seq![OpView::DropTable(actual.last().table)]
        } else {
            Seq::empty()
        }
    }
}

/// Blockers of the drops, in order.
pub open spec fn drops_blockers(actual: Seq<ActualView>, target: Seq<TableView>) -> Seq<BlockerView>
    decreases actual.len(),
{
    if actual.len() == 0 {
        Seq::empty()
    } else {
        drops_blockers(actual.drop_last(), target) + if lookup_table(target, actual.last().table.name) is None {
            drop_blockers(actual.last().table.name, actual.last())
        } else {
            Seq::empty()
        }
    }
}

/// The order of operations: creations, additions, rebuilds, drops; then by table and
/// column name.
pub open spec fn op_key(op: OpView) -> SortKey {
    match op {
        OpView::CreateTable(t) => SortKey { rank: 0, first: encode_utf8(t.name), second: Seq::empty() },
        OpView::AddColumn(t, c) => SortKey { rank: 1, first: encode_utf8(t), second: encode_utf8(c.name) },
        OpView::RebuildTable(t, _, _, _) => SortKey { rank: 2, first: encode_utf8(t), second: Seq::empty() },
        OpView::DropTable(t) => SortKey { rank: 3, first: encode_utf8(t.name), second: Seq::empty() },
    }
}

/// The order of blockers: by kind, then by their names.
pub open spec fn blocker_key(b: BlockerView) -> SortKey {
    match b {
        BlockerView::RegistryUncertain(m) => SortKey { rank: 0, first: encode_utf8(m), second: Seq::empty() },
        BlockerView::RequiredColumnAddition(t, c) => SortKey { rank: 1, first: encode_utf8(t), second: encode_utf8(c) },
        BlockerView::UnsupportedInlineFeature(t, f) => SortKey { rank: 2, first: encode_utf8(t), second: encode_utf8(f) },
        BlockerView::RealForeignKeys(t) => SortKey { rank: 3, first: encode_utf8(t), second: Seq::empty() },
        BlockerView::DependentView(t, v) => SortKey { rank: 4, first: encode_utf8(t), second: encode_utf8(v) },
        BlockerView::DependentTrigger(t, g) => SortKey { rank: 5, first: encode_utf8(t), second: encode_utf8(g) },
        BlockerView::Uncertain(m) => SortKey { rank: 6, first: encode_utf8(m), second: Seq::empty() },
    }
}

fn key_pair_less(rank_a: u8, a1: &str, a2: &str, rank_b: u8, b1: &str, b2: &str) -> (r: bool)
    ensures
        r == key_before(
            SortKey { rank: rank_a as nat, first: encode_utf8(a1@), second: encode_utf8(a2@) },
            SortKey { rank: rank_b as nat, first: encode_utf8(b1@), second: encode_utf8(b2@) },
        ),
{
    if rank_a != rank_b {
        return rank_a < rank_b;
    }
    let x = a1.as_bytes();
    let y = b1.as_bytes();
    if bytes_less(x, y) {
        return true;
    }
    if bytes_less(y, x) {
        proof { super::sorting::lemma_bytes_asymmetric(y@, x@); }
        return false;
    }
    proof {
        if x@ != y@ {
            super::sorting::lemma_bytes_total(x@, y@);
        }
    }
    str_less(a2, b2)
}

impl Keyed for PlanOp {
    open spec fn sort_key(&self) -> SortKey {
        op_key(self@)
    }

    fn key_less(&self, other: &Self) -> (r: bool) {
        let (ra, a1, a2) = op_key_parts(self);
        let (rb, b1, b2) = op_key_parts(other);
        proof {
            reveal_strlit("");
        }
        key_pair_less(ra, a1, a2, rb, b1, b2)
    }
}

fn op_key_parts(op: &PlanOp) -> (r: (u8, &str, &str))
    ensures
        op_key(op@) == (SortKey { rank: r.0 as nat, first: encode_utf8(r.1@), second: encode_utf8(r.2@) }),
{
    proof {
        reveal_strlit("");
        assert(encode_utf8(""@) =~= Seq::<u8>::empty());
    }
    match op {
        PlanOp::CreateTable { table } => (0, table.name.as_str(), ""),
        PlanOp::AddColumn { table, column } => (1, table.as_str(), column.name.as_str()),
        PlanOp::RebuildTable { table, .. } => (2, table.as_str(), ""),
        PlanOp::DropTable { table } => (3, table.name.as_str(), ""),
    }
}

fn blocker_key_parts(b: &PlanBlocker) -> (r: (u8, &str, &str))
    ensures
        blocker_key(b@) == (SortKey { rank: r.0 as nat, first: encode_utf8(r.1@), second: encode_utf8(r.2@) }),
{
    proof {
        reveal_strlit("");
        assert(encode_utf8(""@) =~= Seq::<u8>::empty());
    }
    match b {
        PlanBlocker::RegistryUncertain(m) => (0, m.as_str(), ""),
        PlanBlocker::RequiredColumnAddition { table, column } => (1, table.as_str(), column.as_str()),
        PlanBlocker::UnsupportedInlineFeature { table, feature } => (2, table.as_str(), feature.as_str()),
        PlanBlocker::RealForeignKeys { table } => (3, table.as_str(), ""),
        PlanBlocker::DependentView { table, view } => (4, table.as_str(), view.as_str()),
        PlanBlocker::DependentTrigger { table, trigger } => (5, table.as_str(), trigger.as_str()),
        PlanBlocker::Uncertain(m) => (6, m.as_str(), ""),
    }
}

impl Keyed for PlanBlocker {
    open spec fn sort_key(&self) -> SortKey {
        blocker_key(self@)
    }

    fn key_less(&self, other: &Self) -> (r: bool) {
        let (ra, a1, a2) = blocker_key_parts(self);
        let (rb, b1, b2) = blocker_key_parts(other);
        key_pair_less(ra, a1, a2, rb, b1, b2)
    }
}

/// The position of the column called `name`, if any.
fn find_column(cols: &Vec<ColumnDef>, name: &String) -> (r: Option<usize>)
    ensures
        match lookup_column(columns_view(cols@), name@) {
            None => r is None,
            Some(c) => r matches Some(i) && i < cols@.len() && cols@[i as int]@ == c,
        },
{
    let ghost cv = columns_view(cols@);
    let mut i: usize = 0;
    assert(cv.skip(0) =~= cv);
    while i < cols.len()
        invariant
            i <= cols@.len(),
            cv == columns_view(cols@),
            lookup_column(cv, name@) == lookup_column(cv.skip(i as int), name@),
        decreases cols@.len() - i,
    {
        assert(cv.skip(i as int)[0] == cols@[i as int]@);
        if cols[i].name == *name {
            return Some(i);
        }
        assert(cv.skip(i as int).drop_first() =~= cv.skip(i + 1));
        i = i + 1;
    }
    None
}

/// The position of the table called `name`, if any.
fn find_table(tables: &Vec<TableDef>, name: &String) -> (r: Option<usize>)
    ensures
        match lookup_table(tables_view(tables@), name@) {
            None => r is None,
            Some(t) => r matches Some(i) && i < tables@.len() && tables@[i as int]@ == t,
        },
{
    let ghost tv = tables_view(tables@);
    let mut i: usize = 0;
    assert(tv.skip(0) =~= tv);
    while i < tables.len()
        invariant
            i <= tables@.len(),
            tv == tables_view(tables@),
            lookup_table(tv, name@) == lookup_table(tv.skip(i as int), name@),
        decreases tables@.len() - i,
    {
        assert(tv.skip(i as int)[0] == tables@[i as int]@);
        if tables[i].name == *name {
            return Some(i);
        }
        assert(tv.skip(i as int).drop_first() =~= tv.skip(i + 1));
        i = i + 1;
    }
    None
}

/// The position of the live table called `name`, if any.
pub fn find_live(actual: &Vec<ActualTable>, name: &String) -> (r: Option<usize>)
    ensures
        match lookup_actual(actuals_view(actual@), name@) {
            None => r is None,
            Some(a) => r matches Some(i) && i < actual@.len() && actual@[i as int]@ == a,
        },
{
    let ghost av = actuals_view(actual@);
    let mut i: usize = 0;
    assert(av.skip(0) =~= av);
    while i < actual.len()
        invariant
            i <= actual@.len(),
            av == actuals_view(actual@),
            lookup_actual(av, name@) == lookup_actual(av.skip(i as int), name@),
        decreases actual@.len() - i,
    {
        assert(av.skip(i as int)[0] == actual@[i as int]@);
        if actual[i].table.name == *name {
            return Some(i);
        }
        assert(av.skip(i as int).drop_first() =~= av.skip(i + 1));
        i = i + 1;
    }
    None
}

fn push_reason(out: &mut Vec<RebuildReason>, r: RebuildReason)
    ensures
        reasons_view(final(out)@) == reasons_view(old(out)@).push(r@),
{
    let ghost g = r;
    out.push(r);
    assert(reasons_view(out@) =~= reasons_view(old(out)@).push(g@));
}

fn push_blocker(out: &mut Vec<PlanBlocker>, b: PlanBlocker)
    ensures
        blockers_view(final(out)@) == blockers_view(old(out)@).push(b@),
{
    let ghost g = b;
    out.push(b);
    assert(blockers_view(out@) =~= blockers_view(old(out)@).push(g@));
}

fn push_op(out: &mut Vec<PlanOp>, op: PlanOp)
    ensures
        ops_view(final(out)@) == ops_view(old(out)@).push(op@),
{
    let ghost g = op;
    out.push(op);
    assert(ops_view(out@) =~= ops_view(old(out)@).push(g@));
}

/// All reasons to rebuild `live` into `desired`.
fn rebuild_reasons(desired: &TableDef, live: &TableDef) -> (r: Vec<RebuildReason>)
    ensures
        reasons_view(r@) == table_reasons(desired@, live@),
{
    let mut out: Vec<RebuildReason> = Vec::new();
    if desired.primary_key.name != live.primary_key.name {
        push_reason(&mut out, RebuildReason::ChangePrimaryKeyName {
            from: live.primary_key.name.clone(),
            to: desired.primary_key.name.clone(),
        });
    }
    if desired.primary_key.affinity() != live.primary_key.affinity()
        || desired.primary_key.sql_type != live.primary_key.sql_type {
        push_reason(&mut out, RebuildReason::ChangePrimaryKeyType {
            from: live.primary_key.sql_type.clone(),
            to: desired.primary_key.sql_type.clone(),
        });
    }
    assert(reasons_view(out@) =~= key_reasons(desired@, live@));
    let ghost dv = desired@.columns;
    let ghost lv = live@.columns;
    let ghost base = reasons_view(out@);
    let mut i: usize = 0;
    while i < desired.columns.len()
        invariant
            i <= desired.columns@.len(),
            dv == desired@.columns,
            lv == live@.columns,
            base == key_reasons(desired@, live@),
            reasons_view(out@) == base + columns_reasons(dv.take(i as int), lv),
        decreases desired.columns@.len() - i,
    {
        let d = &desired.columns[i];
        let ghost before = reasons_view(out@);
        match find_column(&live.columns, &d.name) {
            None => {},
            Some(k) => {
                let a = &live.columns[k];
                if d.affinity() != a.affinity() {
                    push_reason(&mut out, RebuildReason::ChangeColumnType {
                        column: d.name.clone(),
                        from: a.sql_type.clone(),
                        to: d.sql_type.clone(),
                    });
                }
                if d.nullable != a.nullable {
                    push_reason(&mut out, RebuildReason::ChangeNullability {
                        column: d.name.clone(),
                        from_nullable: a.nullable,
                        to_nullable: d.nullable,
                    });
                }
            },
        }
        assert(reasons_view(out@) =~= before + column_reasons(d@, lv));
        assert(dv.take(i + 1).drop_last() =~= dv.take(i as int));
        assert(dv.take(i + 1).last() == d@);
        assert(reasons_view(out@) =~= base + columns_reasons(dv.take(i + 1), lv));
        i = i + 1;
    }
    assert(dv.take(desired.columns@.len() as int) =~= dv);
    let mut removed: Vec<String> = Vec::new();
    let mut j: usize = 0;
    while j < live.columns.len()
        invariant
            j <= live.columns@.len(),
            dv == desired@.columns,
            lv == live@.columns,
            strings_view(removed@) == removed_names(lv.take(j as int), dv),
        decreases live.columns@.len() - j,
    {
        let c = &live.columns[j];
        let ghost before = removed@;
        if find_column(&desired.columns, &c.name).is_none() {
            removed.push(c.name.clone());
        }
        assert(lv.take(j + 1).drop_last() =~= lv.take(j as int));
        assert(lv.take(j + 1).last() == c@);
        assert(strings_view(removed@) =~= removed_names(lv.take(j + 1), dv));
        j = j + 1;
    }
    assert(lv.take(live.columns@.len() as int) =~= lv);
    if removed.len() > 0 {
        push_reason(&mut out, RebuildReason::DropColumns { columns: removed });
    }
    assert(reasons_view(out@) =~= table_reasons(desired@, live@));
    out
}

/// Appends one blocker per unsupported feature of `table`.
fn push_feature_blockers(table: &String, features: &Vec<String>, out: &mut Vec<PlanBlocker>)
    ensures
        blockers_view(final(out)@) == blockers_view(old(out)@) + feature_blockers(
            table@,
            strings_view(features@),
        ),
{
    let ghost base = blockers_view(out@);
    let ghost fs = strings_view(features@);
    let mut i: usize = 0;
    while i < features.len()
        invariant
            i <= features@.len(),
            fs == strings_view(features@),
            blockers_view(out@) == base + feature_blockers(table@, fs.take(i as int)),
        decreases features@.len() - i,
    {
        push_blocker(
            out,
            PlanBlocker::UnsupportedInlineFeature { table: table.clone(), feature: features[i].clone() },
        );
        assert(fs.take(i + 1) =~= fs.take(i as int).push(fs[i as int]));
        assert(feature_blockers(table@, fs.take(i + 1)) =~= feature_blockers(table@, fs.take(i as int)).push(
            BlockerView::UnsupportedInlineFeature(table@, fs[i as int]),
        ));
        i = i + 1;
    }
    assert(fs.take(features@.len() as int) =~= fs);
}

/// Appends one blocker per view that depends on `table`.
fn push_view_blockers(table: &String, views: &Vec<String>, out: &mut Vec<PlanBlocker>)
    ensures
        blockers_view(final(out)@) == blockers_view(old(out)@) + view_blockers(
            table@,
            strings_view(views@),
        ),
{
    let ghost base = blockers_view(out@);
    let ghost vs = strings_view(views@);
    let mut i: usize = 0;
    while i < views.len()
        invariant
            i <= views@.len(),
            vs == strings_view(views@),
            blockers_view(out@) == base + view_blockers(table@, vs.take(i as int)),
        decreases views@.len() - i,
    {
        push_blocker(out, PlanBlocker::DependentView { table: table.clone(), view: views[i].clone() });
        assert(vs.take(i + 1) =~= vs.take(i as int).push(vs[i as int]));
        assert(view_blockers(table@, vs.take(i + 1)) =~= view_blockers(table@, vs.take(i as int)).push(
            BlockerView::DependentView(table@, vs[i as int]),
        ));
        i = i + 1;
    }
    assert(vs.take(views@.len() as int) =~= vs);
}

/// Appends one blocker per trigger that depends on `table`.
fn push_trigger_blockers(table: &String, triggers: &Vec<String>, out: &mut Vec<PlanBlocker>)
    ensures
        blockers_view(final(out)@) == blockers_view(old(out)@) + trigger_blockers(
            table@,
            strings_view(triggers@),
        ),
{
    let ghost base = blockers_view(out@);
    let ghost ts = strings_view(triggers@);
    let mut i: usize = 0;
    while i < triggers.len()
        invariant
            i <= triggers@.len(),
            ts == strings_view(triggers@),
            blockers_view(out@) == base + trigger_blockers(table@, ts.take(i as int)),
        decreases triggers@.len() - i,
    {
        push_blocker(
            out,
            PlanBlocker::DependentTrigger { table: table.clone(), trigger: triggers[i].clone() },
        );
        assert(ts.take(i + 1) =~= ts.take(i as int).push(ts[i as int]));
        assert(trigger_blockers(table@, ts.take(i + 1)) =~= trigger_blockers(table@, ts.take(i as int)).push(
            BlockerView::DependentTrigger(table@, ts[i as int]),
        ));
        i = i + 1;
    }
    assert(ts.take(triggers@.len() as int) =~= ts);
}

/// Appends what blocks dropping the live table `a`, named `table`.
fn push_drop_blockers(table: &String, a: &ActualTable, out: &mut Vec<PlanBlocker>)
    ensures
        blockers_view(final(out)@) == blockers_view(old(out)@) + drop_blockers(table@, a@),
{
    let ghost base = blockers_view(out@);
    if a.has_real_foreign_keys {
        push_blocker(out, PlanBlocker::RealForeignKeys { table: table.clone() });
    }
    let ghost mid = blockers_view(out@);
    push_view_blockers(table, &a.dependent_views, out);
    push_trigger_blockers(table, &a.dependent_external_triggers, out);
    assert(blockers_view(out@) =~= base + drop_blockers(table@, a@));
}

/// Appends a blocker for each required desired column that the live table lacks.
fn push_required_blockers(desired: &TableDef, live: &TableDef, out: &mut Vec<PlanBlocker>)
    ensures
        blockers_view(final(out)@) == blockers_view(old(out)@) + required_blockers(
            desired@.name,
            desired@.columns,
            live@.columns,
        ),
{
    let ghost base = blockers_view(out@);
    let ghost dv = desired@.columns;
    let ghost lv = live@.columns;
    let mut i: usize = 0;
    while i < desired.columns.len()
        invariant
            i <= desired.columns@.len(),
            dv == desired@.columns,
            lv == live@.columns,
            blockers_view(out@) == base + required_blockers(desired@.name, dv.take(i as int), lv),
        decreases desired.columns@.len() - i,
    {
        let d = &desired.columns[i];
        let ghost before = blockers_view(out@);
        if find_column(&live.columns, &d.name).is_none() && !d.nullable {
            push_blocker(
                out,
                PlanBlocker::RequiredColumnAddition { table: desired.name.clone(), column: d.name.clone() },
            );
        }
        assert(dv.take(i + 1).drop_last() =~= dv.take(i as int));
        assert(dv.take(i + 1).last() == d@);
        assert(blockers_view(out@) =~= base + required_blockers(desired@.name, dv.take(i + 1), lv));
        i = i + 1;
    }
    assert(dv.take(desired.columns@.len() as int) =~= dv);
}

/// Appends an addition for each nullable desired column that the live table lacks.
fn push_added_columns(desired: &TableDef, live: &TableDef, out: &mut Vec<PlanOp>)
    ensures
        ops_view(final(out)@) == ops_view(old(out)@) + add_column_ops(
            desired@.name,
            added_columns(desired@.columns, live@.columns),
        ),
{
    let ghost base = ops_view(out@);
    let ghost dv = desired@.columns;
    let ghost lv = live@.columns;
    let mut i: usize = 0;
    while i < desired.columns.len()
        invariant
            i <= desired.columns@.len(),
            dv == desired@.columns,
            lv == live@.columns,
            ops_view(out@) == base + add_column_ops(desired@.name, added_columns(dv.take(i as int), lv)),
        decreases desired.columns@.len() - i,
    {
        let d = &desired.columns[i];
        assert(dv.take(i + 1).drop_last() =~= dv.take(i as int));
        assert(dv.take(i + 1).last() == d@);
        let ghost prev = added_columns(dv.take(i as int), lv);
        if find_column(&live.columns, &d.name).is_none() && d.nullable {
            push_op(out, PlanOp::AddColumn { table: desired.name.clone(), column: d.duplicate() });
            assert(added_columns(dv.take(i + 1), lv) =~= prev.push(d@));
        } else {
            assert(added_columns(dv.take(i + 1), lv) =~= prev);
        }
        assert(ops_view(out@) =~= base + add_column_ops(desired@.name, added_columns(dv.take(i + 1), lv)));
        i = i + 1;
    }
    assert(dv.take(desired.columns@.len() as int) =~= dv);
}

/// Whether column `a` stays before `c` when `c` is put into name order: another name that
/// `c`'s does not precede.
fn stays_before(a: &ColumnDef, c: &ColumnDef) -> (r: bool)
    ensures
        r == (a@.name != c@.name && !text_before(c@.name, a@.name)),
{
    a.name != c.name && !str_less(c.name.as_str(), a.name.as_str())
}

/// Columns passed over before `c`'s place leave the rest of the insertion unchanged.
proof fn lemma_insert_skips(s: Seq<ColumnView>, c: ColumnView, p: int)
    requires
        0 <= p < s.len(),
        s[p].name != c.name,
        !text_before(c.name, s[p].name),
    ensures
        insert_column(s.skip(p), c) == seq![s[p]] + insert_column(s.skip(p + 1), c),
{
    let t = s.skip(p);
    assert(t[0] == s[p]);
    assert(t.drop_first() =~= s.skip(p + 1));
}

/// Puts a column into columns kept in strictly increasing name order, in place of the one
/// of the same name if there is one.
fn insert_keyed(out: &mut Vec<ColumnDef>, c: ColumnDef)
    ensures
        columns_view(final(out)@) == insert_column(columns_view(old(out)@), c@),
{
    let ghost s = columns_view(out@);
    let mut p: usize = 0;
    assert(s.take(0) + insert_column(s.skip(0), c@) =~= insert_column(s, c@)) by {
        assert(s.skip(0) =~= s);
    }
    while p < out.len() && stays_before(&out[p], &c)
        invariant
            p <= out@.len(),
            s == columns_view(out@),
            out@ == old(out)@,
            insert_column(s, c@) == s.take(p as int) + insert_column(s.skip(p as int), c@),
        decreases out@.len() - p,
    {
        proof {
            assert(s[p as int] == out@[p as int]@);
            lemma_insert_skips(s, c@, p as int);
            assert(s.take(p as int) + (seq![s[p as int]] + insert_column(s.skip(p + 1), c@)) =~= s.take(p + 1)
                + insert_column(s.skip(p + 1), c@));
        }
        p = p + 1;
    }
    if p < out.len() && out[p].name == c.name {
        proof {
            let t = s.skip(p as int);
            assert(t[0] == out@[p as int]@);
            assert(t.drop_first() =~= s.skip(p + 1));
        }
        out.set(p, c);
        proof {
            assert(columns_view(out@) =~= s.take(p as int) + (seq![c@] + s.skip(p + 1)));
        }
    } else {
        proof {
            if p < s.len() {
                let t = s.skip(p as int);
                assert(t[0] == out@[p as int]@);
                assert(text_before(c@.name, t[0].name));
            } else {
                assert(s.skip(p as int) =~= Seq::<ColumnView>::empty());
            }
        }
        out.insert(p, c);
        proof {
            assert(columns_view(out@) =~= s.take(p as int) + (seq![c@] + s.skip(p as int)));
        }
    }
}

/// The columns keyed by name (see [`keyed_columns`]).
fn keyed_columns_of(cols: &Vec<ColumnDef>) -> (r: Vec<ColumnDef>)
    ensures
        columns_view(r@) == keyed_columns(columns_view(cols@)),
{
    let ghost cv = columns_view(cols@);
    let mut out: Vec<ColumnDef> = Vec::new();
    let mut i: usize = 0;
    while i < cols.len()
        invariant
            i <= cols@.len(),
            cv == columns_view(cols@),
            columns_view(out@) == keyed_columns(cv.take(i as int)),
        decreases cols@.len() - i,
    {
        assert(cv.take(i + 1).drop_last() =~= cv.take(i as int));
        assert(cv.take(i + 1).last() == cols@[i as int]@);
        insert_keyed(&mut out, cols[i].duplicate());
        i = i + 1;
    }
    assert(cv.take(cols@.len() as int) =~= cv);
    out
}

/// Whether a table after position `i` has the same name as the one at `i`.
fn is_named_later(tables: &Vec<TableDef>, i: usize) -> (r: bool)
    requires
        i < tables@.len(),
    ensures
        r == named_later(tables_view(tables@), i as int),
{
    let ghost tv = tables_view(tables@);
    let n = tables.len();
    let mut j: usize = i + 1;
    while j < tables.len()
        invariant
            i < j <= tables@.len(),
            tv == tables_view(tables@),
            forall|k: int| i < k < j ==> #[trigger] tv[k].name != tv[i as int].name,
        decreases tables@.len() - j,
    {
        if tables[j].name == tables[i].name {
            assert(tv[j as int].name == tv[i as int].name);
            return true;
        }
        j = j + 1;
    }
    false
}

/// Plans one desired table against the live tables and their normalized form.
fn plan_table(
    desired: &TableDef,
    actual: &Vec<ActualTable>,
    source: &Vec<TableDef>,
    ops: &mut Vec<PlanOp>,
    blockers: &mut Vec<PlanBlocker>,
)
    ensures
        ops_view(final(ops)@) == ops_view(old(ops)@) + table_ops(
            desired@,
            actuals_view(actual@),
            tables_view(source@),
        ),
        blockers_view(final(blockers)@) == blockers_view(old(blockers)@) + table_blockers(
            desired@,
            actuals_view(actual@),
            tables_view(source@),
        ),
{
    let ghost ops0 = ops_view(ops@);
    let ghost blockers0 = blockers_view(blockers@);
    match (find_live(actual, &desired.name), find_table(source, &desired.name)) {
        (Some(ai), Some(si)) => {
            let a = &actual[ai];
            let live = &source[si];
            let keyed = TableDef {
                name: desired.name.clone(),
                primary_key: desired.primary_key.duplicate(),
                columns: keyed_columns_of(&desired.columns),
            };
            assert(keyed@ == keyed_table(desired@));
            push_required_blockers(&keyed, live, blockers);
            let reasons = rebuild_reasons(&keyed, live);
            if reasons.len() > 0 {
                push_feature_blockers(&desired.name, &a.unsupported_inline_features, blockers);
                push_drop_blockers(&desired.name, a, blockers);
                push_op(
                    ops,
                    PlanOp::RebuildTable {
                        table: desired.name.clone(),
                        from: a.table.duplicate(),
                        to: desired.duplicate(),
                        reasons,
                    },
                );
                assert(ops_view(ops@) =~= ops0 + table_ops(desired@, actuals_view(actual@), tables_view(source@)));
            } else {
                push_added_columns(&keyed, live, ops);
            }
            assert(blockers_view(blockers@) =~= blockers0 + table_blockers(
                desired@,
                actuals_view(actual@),
                tables_view(source@),
            ));
        },
        _ => {
            push_op(ops, PlanOp::CreateTable { table: desired.duplicate() });
            assert(ops_view(ops@) =~= ops0 + table_ops(desired@, actuals_view(actual@), tables_view(source@)));
            assert(blockers_view(blockers@) =~= blockers0 + table_blockers(
                desired@,
                actuals_view(actual@),
                tables_view(source@),
            ));
        },
    }
}

/// The outcome of comparing a desired schema with the live tables.
pub struct DiffResult {
    /// The normalized live schema.
    pub source: SchemaDef,
    /// The operations, in deterministic order.
    pub ops: Vec<PlanOp>,
    /// The blockers, in deterministic order.
    pub blockers: Vec<PlanBlocker>,
}

/// Every operation the comparison yields, before ordering: the desired tables' (the last
/// one given of each name, each read through its columns keyed by name), then the drops.
pub open spec fn diff_ops(target: Seq<TableView>, actual: Seq<ActualView>, source: Seq<TableView>) -> Seq<OpView> {
    target_ops(keyed_tables(target), actual, source) + drop_ops(actual, target)
}

/// Every blocker the comparison yields, before ordering.
pub open spec fn diff_blockers(target: Seq<TableView>, actual: Seq<ActualView>, source: Seq<TableView>) -> Seq<BlockerView> {
    target_blockers(keyed_tables(target), actual, source) + drops_blockers(actual, target)
}

/// Sorts operations into their deterministic order.
fn sort_ops(ops: Vec<PlanOp>) -> (r: Vec<PlanOp>)
    ensures
        ops_view(r@).to_multiset() == ops_view(ops@).to_multiset(),
        sorted_by_key(r@),
{
    let ghost before = ops@;
    let sorted = sort_by_key(ops);
    proof {
        lemma_map_same_elements(sorted@, before, |o: PlanOp| o@);
        assert(ops_view(sorted@) =~= sorted@.map_values(|o: PlanOp| o@));
        assert(ops_view(before) =~= before.map_values(|o: PlanOp| o@));
    }
    sorted
}

/// Sorts blockers into their deterministic order.
fn sort_blockers(blockers: Vec<PlanBlocker>) -> (r: Vec<PlanBlocker>)
    ensures
        blockers_view(r@).to_multiset() == blockers_view(blockers@).to_multiset(),
        sorted_by_key(r@),
{
    let ghost before = blockers@;
    let sorted = sort_by_key(blockers);
    proof {
        lemma_map_same_elements(sorted@, before, |b: PlanBlocker| b@);
        assert(blockers_view(sorted@) =~= sorted@.map_values(|b: PlanBlocker| b@));
        assert(blockers_view(before) =~= before.map_values(|b: PlanBlocker| b@));
    }
    sorted
}

/// Compares the desired schema `target` with the live tables `actual` (in name order):
/// the live schema is normalized first, and a problem with it is the error; otherwise each
/// desired table is created, extended with nullable columns or rebuilt, each live table
/// that the target does not name is dropped, and what blocks an automatic apply is listed.
/// The target's tables may come in any order; of tables (or columns of one table) that
/// share a name, the last one counts.
pub fn diff(target: &SchemaDef, actual: &Vec<ActualTable>) -> (r: Result<DiffResult, Error>)
    requires
        names_ascending(actual_tables(actuals_view(actual@))),
    ensures
        exists|n: Seq<TableView>|
            {
                &&& is_normalization(n, actual_tables(actuals_view(actual@)))
                &&& match schema_problem(n) {
                    Some(m) => r is Err && (r->Err_0 matches Error::InvalidSchema(x) && x@ == m),
                    None => r is Ok && r->Ok_0.source@ == n,
                }
            },
        r matches Ok(d) ==> {
            &&& ops_view(d.ops@).to_multiset() == diff_ops(target@, actuals_view(actual@), d.source@).to_multiset()
            &&& sorted_by_key(d.ops@)
            &&& blockers_view(d.blockers@).to_multiset() == diff_blockers(
                target@,
                actuals_view(actual@),
                d.source@,
            ).to_multiset()
            &&& sorted_by_key(d.blockers@)
        },
{
    let ghost av = actuals_view(actual@);
    let mut live: Vec<TableDef> = Vec::new();
    let mut i: usize = 0;
    while i < actual.len()
        invariant
            i <= actual@.len(),
            av == actuals_view(actual@),
            tables_view(live@) =~= actual_tables(av).take(i as int),
        decreases actual@.len() - i,
    {
        let ghost before = live@;
        live.push(actual[i].table.duplicate());
        assert(tables_view(live@) =~= tables_view(before).push(av[i as int].table));
        assert(actual_tables(av).take(i + 1) =~= actual_tables(av).take(i as int).push(av[i as int].table));
        i = i + 1;
    }
    assert(actual_tables(av).take(actual@.len() as int) =~= actual_tables(av));
    let source = match (SchemaDef { tables: live }).normalized() {
        Ok(s) => s,
        Err(e) => {
            return Err(e);
        },
    };
    let ghost sv = source@;
    let mut ops: Vec<PlanOp> = Vec::new();
    let mut blockers: Vec<PlanBlocker> = Vec::new();
    let ghost tv = target@;
    let mut t: usize = 0;
    while t < target.tables.len()
        invariant
            t <= target.tables@.len(),
            tv == target@,
            av == actuals_view(actual@),
            sv == source@,
            ops_view(ops@) == target_ops(kept_tables(tv, t as nat), av, sv),
            blockers_view(blockers@) == target_blockers(kept_tables(tv, t as nat), av, sv),
        decreases target.tables@.len() - t,
    {
        let ghost kept = kept_tables(tv, t as nat);
        assert(tv == tables_view(target.tables@));
        if !is_named_later(&target.tables, t) {
            plan_table(&target.tables[t], actual, &source.tables, &mut ops, &mut blockers);
            assert(kept_tables(tv, (t + 1) as nat) == kept.push(tv[t as int]));
            assert(kept.push(tv[t as int]).drop_last() =~= kept);
            assert(tv[t as int] == target.tables@[t as int]@);
        } else {
            assert(kept_tables(tv, (t + 1) as nat) =~= kept);
        }
        t = t + 1;
    }
    let ghost ops_t = ops_view(ops@);
    let ghost blockers_t = blockers_view(blockers@);
    let mut k: usize = 0;
    while k < actual.len()
        invariant
            k <= actual@.len(),
            tv == target@,
            av == actuals_view(actual@),
            ops_view(ops@) == ops_t + drop_ops(av.take(k as int), tv),
            blockers_view(blockers@) == blockers_t + drops_blockers(av.take(k as int), tv),
        decreases actual@.len() - k,
    {
        let a = &actual[k];
        assert(av.take(k + 1).drop_last() =~= av.take(k as int));
        assert(av.take(k + 1).last() == a@);
        if find_table(&target.tables, &a.table.name).is_none() {
            push_drop_blockers(&a.table.name, a, &mut blockers);
            push_op(&mut ops, PlanOp::DropTable { table: a.table.duplicate() });
        }
        assert(ops_view(ops@) =~= ops_t + drop_ops(av.take(k + 1), tv));
        assert(blockers_view(blockers@) =~= blockers_t + drops_blockers(av.take(k + 1), tv));
        k = k + 1;
    }
    assert(av.take(actual@.len() as int) =~= av);
    let ops = sort_ops(ops);
    let blockers = sort_blockers(blockers);
    Ok(DiffResult { source, ops, blockers })
}

/// In columns with distinct names, each column is the one found under its name.
proof fn lemma_lookup_own_column(cols: Seq<ColumnView>, k: int)
    requires
        0 <= k < cols.len(),
        forall|p: int, q: int| 0 <= p < q < cols.len() ==> text_before(#[trigger] cols[p].name, #[trigger] cols[q].name),
    ensures
        lookup_column(cols, cols[k].name) == Some(cols[k]),
    decreases k,
{
    if k > 0 {
        assert(text_before(cols[0].name, cols[k].name));
        super::sorting::lemma_text_strict(cols[k].name, cols[k].name);
        let rest = cols.drop_first();
        assert forall|p: int, q: int| 0 <= p < q < rest.len() implies text_before(
            #[trigger] rest[p].name,
            #[trigger] rest[q].name,
        ) by {
            assert(rest[p] == cols[p + 1] && rest[q] == cols[q + 1]);
        }
        lemma_lookup_own_column(rest, k - 1);
        assert(rest[k - 1] == cols[k]);
    }
}

/// In tables with distinct names, each table is the one found under its name.
proof fn lemma_lookup_own_table(tables: Seq<TableView>, k: int)
    requires
        0 <= k < tables.len(),
        forall|p: int, q: int| 0 <= p < q < tables.len() ==> text_before(#[trigger] tables[p].name, #[trigger] tables[q].name),
    ensures
        lookup_table(tables, tables[k].name) == Some(tables[k]),
    decreases k,
{
    if k > 0 {
        assert(text_before(tables[0].name, tables[k].name));
        super::sorting::lemma_text_strict(tables[k].name, tables[k].name);
        let rest = tables.drop_first();
        assert forall|p: int, q: int| 0 <= p < q < rest.len() implies text_before(
            #[trigger] rest[p].name,
            #[trigger] rest[q].name,
        ) by {
            assert(rest[p] == tables[p + 1] && rest[q] == tables[q + 1]);
        }
        lemma_lookup_own_table(rest, k - 1);
        assert(rest[k - 1] == tables[k]);
    }
}

/// Among live tables with distinct names, each is the one found under its name.
proof fn lemma_lookup_own_actual(actual: Seq<ActualView>, k: int)
    requires
        0 <= k < actual.len(),
        forall|p: int, q: int| 0 <= p < q < actual.len() ==> text_before(#[trigger] actual[p].table.name, #[trigger] actual[q].table.name),
    ensures
        lookup_actual(actual, actual[k].table.name) == Some(actual[k]),
    decreases k,
{
    if k > 0 {
        assert(text_before(actual[0].table.name, actual[k].table.name));
        super::sorting::lemma_text_strict(actual[k].table.name, actual[k].table.name);
        let rest = actual.drop_first();
        assert forall|p: int, q: int| 0 <= p < q < rest.len() implies text_before(
            #[trigger] rest[p].table.name,
            #[trigger] rest[q].table.name,
        ) by {
            assert(rest[p] == actual[p + 1] && rest[q] == actual[q + 1]);
        }
        lemma_lookup_own_actual(rest, k - 1);
        assert(rest[k - 1] == actual[k]);
    }
}

/// A table compared with itself gives no reason to rebuild, no column to add and no
/// required column to block on.
proof fn lemma_table_matches_itself(t: TableView, j: int)
    requires
        0 <= j <= t.columns.len(),
        forall|p: int, q: int| 0 <= p < q < t.columns.len() ==> text_before(#[trigger] t.columns[p].name, #[trigger] t.columns[q].name),
    ensures
        columns_reasons(t.columns.take(j), t.columns).len() == 0,
        removed_names(t.columns.take(j), t.columns).len() == 0,
        added_columns(t.columns.take(j), t.columns).len() == 0,
        required_blockers(t.name, t.columns.take(j), t.columns).len() == 0,
    decreases j,
{
    if j > 0 {
        lemma_table_matches_itself(t, j - 1);
        let c = t.columns.take(j);
        assert(c.drop_last() =~= t.columns.take(j - 1));
        assert(c.last() == t.columns[j - 1]);
        lemma_lookup_own_column(t.columns, j - 1);
    }
}

/// Comparing a desired table with itself as the live table gives no reason to rebuild it.
proof fn lemma_no_reasons(t: TableView)
    requires
        forall|p: int, q: int| 0 <= p < q < t.columns.len() ==> text_before(#[trigger] t.columns[p].name, #[trigger] t.columns[q].name),
    ensures
        table_reasons(t, t).len() == 0,
        added_columns(t.columns, t.columns).len() == 0,
        required_blockers(t.name, t.columns, t.columns).len() == 0,
{
    lemma_table_matches_itself(t, t.columns.len() as int);
    assert(t.columns.take(t.columns.len() as int) =~= t.columns);
    assert(key_reasons(t, t) =~= Seq::<ReasonView>::empty());
}

/// Comparing a target with live tables that already match it plans nothing: every
/// normalization of the live tables is the target, and there is no operation and no
/// blocker.
pub proof fn lemma_matching_schema_plans_nothing(target: Seq<TableView>, actual: Seq<ActualView>)
    requires
        strictly_sorted(target),
        actual_tables(actual) == target,
    ensures
        forall|n: Seq<TableView>| is_normalization(n, actual_tables(actual)) ==> n == target,
        diff_ops(target, actual, target).len() == 0,
        diff_blockers(target, actual, target).len() == 0,
{
    assert forall|n: Seq<TableView>| is_normalization(n, actual_tables(actual)) implies n == target by {
        lemma_normalization_unique(n, target);
    }
    assert(actual.len() == target.len()) by {
        assert(actual_tables(actual).len() == actual.len());
    }
    assert forall|p: int, q: int| 0 <= p < q < actual.len() implies text_before(
        #[trigger] actual[p].table.name,
        #[trigger] actual[q].table.name,
    ) by {
        assert(actual[p].table == target[p]);
        assert(actual[q].table == target[q]);
    }
    lemma_keyed_sorted_tables(target);
    lemma_target_plans_nothing(target, actual, target.len() as int);
    lemma_drops_nothing(target, actual, actual.len() as int);
    assert(target.take(target.len() as int) =~= target);
    assert(actual.take(actual.len() as int) =~= actual);
}

/// A column whose name follows every name of strictly ascending columns goes last.
proof fn lemma_insert_last(s: Seq<ColumnView>, c: ColumnView)
    requires
        forall|p: int, q: int| 0 <= p < q < s.len() ==> text_before(#[trigger] s[p].name, #[trigger] s[q].name),
        forall|p: int| 0 <= p < s.len() ==> text_before(#[trigger] s[p].name, c.name),
    ensures
        insert_column(s, c) == s.push(c),
    decreases s.len(),
{
    if s.len() > 0 {
        super::sorting::lemma_text_strict(s[0].name, c.name);
        super::sorting::lemma_text_strict(c.name, c.name);
        let rest = s.drop_first();
        assert forall|p: int, q: int| 0 <= p < q < rest.len() implies text_before(
            #[trigger] rest[p].name,
            #[trigger] rest[q].name,
        ) by {
            assert(rest[p] == s[p + 1] && rest[q] == s[q + 1]);
        }
        assert forall|p: int| 0 <= p < rest.len() implies text_before(#[trigger] rest[p].name, c.name) by {
            assert(rest[p] == s[p + 1]);
        }
        lemma_insert_last(rest, c);
        assert(seq![s[0]] + rest.push(c) =~= s.push(c));
    }
}

/// Columns already in strictly ascending name order are their own keyed form.
pub proof fn lemma_keyed_sorted_columns(cols: Seq<ColumnView>)
    requires
        forall|p: int, q: int| 0 <= p < q < cols.len() ==> text_before(#[trigger] cols[p].name, #[trigger] cols[q].name),
    ensures
        keyed_columns(cols) == cols,
    decreases cols.len(),
{
    if cols.len() > 0 {
        let init = cols.drop_last();
        assert forall|p: int, q: int| 0 <= p < q < init.len() implies text_before(
            #[trigger] init[p].name,
            #[trigger] init[q].name,
        ) by {
            assert(init[p] == cols[p] && init[q] == cols[q]);
        }
        lemma_keyed_sorted_columns(init);
        assert forall|p: int| 0 <= p < init.len() implies text_before(#[trigger] init[p].name, cols.last().name) by {
            assert(init[p] == cols[p]);
        }
        lemma_insert_last(init, cols.last());
        assert(init.push(cols.last()) =~= cols);
    }
}

/// Tables with strictly ascending names are their own keyed form.
pub proof fn lemma_keyed_sorted_tables(ts: Seq<TableView>)
    requires
        forall|p: int, q: int| 0 <= p < q < ts.len() ==> text_before(#[trigger] ts[p].name, #[trigger] ts[q].name),
    ensures
        keyed_tables(ts) == ts,
{
    assert forall|k: nat| k <= ts.len() implies #[trigger] kept_tables(ts, k) == ts.take(k as int) by {
        lemma_kept_all(ts, k);
    }
    assert(ts.take(ts.len() as int) =~= ts);
}

proof fn lemma_kept_all(ts: Seq<TableView>, k: nat)
    requires
        k <= ts.len(),
        forall|p: int, q: int| 0 <= p < q < ts.len() ==> text_before(#[trigger] ts[p].name, #[trigger] ts[q].name),
    ensures
        kept_tables(ts, k) == ts.take(k as int),
    decreases k,
{
    if k > 0 {
        lemma_kept_all(ts, (k - 1) as nat);
        assert(!named_later(ts, k - 1)) by {
            assert forall|j: int| k - 1 < j < ts.len() implies #[trigger] ts[j].name != ts[k - 1].name by {
                super::sorting::lemma_text_strict(ts[k - 1].name, ts[j].name);
                assert(text_before(ts[k - 1].name, ts[j].name));
            }
        }
        assert(ts.take(k - 1).push(ts[k - 1]) =~= ts.take(k as int));
    }
}

proof fn lemma_target_plans_nothing(target: Seq<TableView>, actual: Seq<ActualView>, j: int)
    requires
        strictly_sorted(target),
        actual_tables(actual) == target,
        0 <= j <= target.len(),
        forall|p: int, q: int| 0 <= p < q < actual.len() ==> text_before(#[trigger] actual[p].table.name, #[trigger] actual[q].table.name),
    ensures
        target_ops(target.take(j), actual, target).len() == 0,
        target_blockers(target.take(j), actual, target).len() == 0,
    decreases j,
{
    if j > 0 {
        lemma_target_plans_nothing(target, actual, j - 1);
        let tk = target.take(j);
        assert(tk.drop_last() =~= target.take(j - 1));
        let t = target[j - 1];
        assert(tk.last() == t);
        assert(actual_tables(actual).len() == actual.len());
        assert(actual[j - 1].table == t);
        lemma_lookup_own_actual(actual, j - 1);
        lemma_lookup_own_table(target, j - 1);
        assert forall|p: int, q: int| 0 <= p < q < t.columns.len() implies text_before(
            #[trigger] t.columns[p].name,
            #[trigger] t.columns[q].name,
        ) by {
            assert(text_before(target[j - 1].columns[p].name, target[j - 1].columns[q].name));
        }
        lemma_keyed_sorted_columns(t.columns);
        assert(keyed_table(t) == t);
        lemma_no_reasons(t);
        assert(table_ops(t, actual, target) =~= Seq::<OpView>::empty());
        assert(table_blockers(t, actual, target) =~= Seq::<BlockerView>::empty());
    }
}

proof fn lemma_drops_nothing(target: Seq<TableView>, actual: Seq<ActualView>, j: int)
    requires
        strictly_sorted(target),
        actual_tables(actual) == target,
        0 <= j <= actual.len(),
    ensures
        drop_ops(actual.take(j), target).len() == 0,
        drops_blockers(actual.take(j), target).len() == 0,
    decreases j,
{
    if j > 0 {
        lemma_drops_nothing(target, actual, j - 1);
        let ak = actual.take(j);
        assert(ak.drop_last() =~= actual.take(j - 1));
        assert(ak.last() == actual[j - 1]);
        assert(actual_tables(actual).len() == actual.len());
        assert(actual[j - 1].table == target[j - 1]);
        lemma_lookup_own_table(target, j - 1);
    }
}


/// Each desired column that the live table holds with the other nullability gives the
/// reason to change it: the column's name with the live and the desired nullability.
proof fn lemma_columns_reasons_nullability(cols: Seq<ColumnView>, live: Seq<ColumnView>, c: ColumnView, lc: ColumnView)
    requires
        cols.contains(c),
        lookup_column(live, c.name) == Some(lc),
        lc.nullable != c.nullable,
    ensures
        columns_reasons(cols, live).contains(ReasonView::ChangeNullability(c.name, lc.nullable, c.nullable)),
    decreases cols.len(),
{
    let x = ReasonView::ChangeNullability(c.name, lc.nullable, c.nullable);
    let init = cols.drop_last();
    let here = column_reasons(cols.last(), live);
    assert(columns_reasons(cols, live) == columns_reasons(init, live) + here);
    if cols.last() == c {
        let t = if affinity_of(c.sql_type) != affinity_of(lc.sql_type) {
            seq![ReasonView::ChangeColumnType(c.name, lc.sql_type, c.sql_type)]
        } else {
            Seq::empty()
        };
        assert(here == t + seq![x]);
        assert(here[t.len() as int] == x);
        assert((columns_reasons(init, live) + here)[(columns_reasons(init, live).len() + t.len()) as int] == x);
    } else {
        let i = choose|i: int| 0 <= i < cols.len() && cols[i] == c;
        assert(i < cols.len() - 1);
        assert(init[i] == c);
        lemma_columns_reasons_nullability(init, live, c, lc);
        let k = choose|k: int| 0 <= k < columns_reasons(init, live).len() && columns_reasons(init, live)[k] == x;
        assert((columns_reasons(init, live) + here)[k] == x);
    }
}

/// A desired table that holds a column the live table has with the other nullability must
/// be rebuilt: its rebuild reasons include changing that column's nullability from the
/// live one to the desired one.
pub proof fn lemma_nullability_change_is_a_reason(desired: TableView, live: TableView, c: ColumnView, lc: ColumnView)
    requires
        desired.columns.contains(c),
        lookup_column(live.columns, c.name) == Some(lc),
        lc.nullable != c.nullable,
    ensures
        table_reasons(desired, live).contains(ReasonView::ChangeNullability(c.name, lc.nullable, c.nullable)),
{
    let x = ReasonView::ChangeNullability(c.name, lc.nullable, c.nullable);
    lemma_columns_reasons_nullability(desired.columns, live.columns, c, lc);
    let k = key_reasons(desired, live);
    let cr = columns_reasons(desired.columns, live.columns);
    let j = choose|j: int| 0 <= j < cr.len() && cr[j] == x;
    let removed = removed_names(live.columns, desired.columns);
    let tail = if removed.len() > 0 {
        seq![ReasonView::DropColumns(removed)]
    } else {
        Seq::empty()
    };
    assert(table_reasons(desired, live) == k + cr + tail);
    assert((k + cr + tail)[k.len() + j] == x);
}

/// Comparing a desired table with a live one that holds one of its columns (as keyed by
/// name) with the other nullability plans exactly one operation: rebuilding the live
/// table into the desired one, for reasons that include that nullability change.
pub proof fn lemma_nullability_change_plans_rebuild(
    desired: TableView,
    actual: Seq<ActualView>,
    source: Seq<TableView>,
    a: ActualView,
    live: TableView,
    c: ColumnView,
    lc: ColumnView,
)
    requires
        lookup_actual(actual, desired.name) == Some(a),
        lookup_table(source, desired.name) == Some(live),
        keyed_columns(desired.columns).contains(c),
        lookup_column(live.columns, c.name) == Some(lc),
        lc.nullable != c.nullable,
    ensures
        table_ops(desired, actual, source).len() == 1,
        table_ops(desired, actual, source)[0] matches OpView::RebuildTable(name, from, to, reasons) && name
            == desired.name && from == a.table && to == desired && reasons.contains(
            ReasonView::ChangeNullability(c.name, lc.nullable, c.nullable),
        ),
{
    lemma_nullability_change_is_a_reason(keyed_table(desired), live, c, lc);
}

/// Every operation planned for a table that the keyed target holds is among the
/// operations of the whole comparison.
pub proof fn lemma_table_ops_in_diff(
    target: Seq<TableView>,
    t: TableView,
    actual: Seq<ActualView>,
    source: Seq<TableView>,
    op: OpView,
)
    requires
        keyed_tables(target).contains(t),
        table_ops(t, actual, source).contains(op),
    ensures
        diff_ops(target, actual, source).contains(op),
{
    let kt = keyed_tables(target);
    lemma_target_ops_contains(kt, t, actual, source, op);
    let ops = target_ops(kt, actual, source);
    let i = choose|i: int| 0 <= i < ops.len() && ops[i] == op;
    assert((ops + drop_ops(actual, target))[i] == op);
}

proof fn lemma_target_ops_contains(ts: Seq<TableView>, t: TableView, actual: Seq<ActualView>, source: Seq<TableView>, op: OpView)
    requires
        ts.contains(t),
        table_ops(t, actual, source).contains(op),
    ensures
        target_ops(ts, actual, source).contains(op),
    decreases ts.len(),
{
    let init = ts.drop_last();
    let before = target_ops(init, actual, source);
    let here = table_ops(ts.last(), actual, source);
    assert(target_ops(ts, actual, source) == before + here);
    if ts.last() == t {
        let i = choose|i: int| 0 <= i < here.len() && here[i] == op;
        assert((before + here)[before.len() + i] == op);
    } else {
        let i = choose|i: int| 0 <= i < ts.len() && ts[i] == t;
        assert(i < ts.len() - 1);
        assert(init[i] == t);
        lemma_target_ops_contains(init, t, actual, source, op);
        let k = choose|k: int| 0 <= k < before.len() && before[k] == op;
        assert((before + here)[k] == op);
    }
}


/// A reason that one desired column gives is among the reasons of all of them.
proof fn lemma_columns_reasons_has(cols: Seq<ColumnView>, live: Seq<ColumnView>, c: ColumnView, x: ReasonView)
    requires
        cols.contains(c),
        column_reasons(c, live).contains(x),
    ensures
        columns_reasons(cols, live).contains(x),
    decreases cols.len(),
{
    let init = cols.drop_last();
    let before = columns_reasons(init, live);
    let here = column_reasons(cols.last(), live);
    assert(columns_reasons(cols, live) == before + here);
    if cols.last() == c {
        let i = choose|i: int| 0 <= i < here.len() && here[i] == x;
        assert((before + here)[before.len() + i] == x);
    } else {
        let i = choose|i: int| 0 <= i < cols.len() && cols[i] == c;
        assert(i < cols.len() - 1);
        assert(init[i] == c);
        lemma_columns_reasons_has(init, live, c, x);
        let k = choose|k: int| 0 <= k < before.len() && before[k] == x;
        assert((before + here)[k] == x);
    }
}

/// The reasons of the columns are among the table's rebuild reasons.
proof fn lemma_table_reasons_has_column_reason(desired: TableView, live: TableView, x: ReasonView)
    requires
        columns_reasons(desired.columns, live.columns).contains(x),
    ensures
        table_reasons(desired, live).contains(x),
{
    let k = key_reasons(desired, live);
    let cr = columns_reasons(desired.columns, live.columns);
    let j = choose|j: int| 0 <= j < cr.len() && cr[j] == x;
    let removed = removed_names(live.columns, desired.columns);
    let tail = if removed.len() > 0 {
        seq![ReasonView::DropColumns(removed)]
    } else {
        Seq::empty()
    };
    assert(table_reasons(desired, live) == k + cr + tail);
    assert((k + cr + tail)[k.len() + j] == x);
}

/// A desired column that the live table holds with a type of another affinity must be
/// rebuilt: the table's reasons include changing that column from the live type to the
/// desired one.
pub proof fn lemma_type_change_is_a_reason(desired: TableView, live: TableView, c: ColumnView, lc: ColumnView)
    requires
        desired.columns.contains(c),
        lookup_column(live.columns, c.name) == Some(lc),
        affinity_of(c.sql_type) != affinity_of(lc.sql_type),
    ensures
        table_reasons(desired, live).contains(ReasonView::ChangeColumnType(c.name, lc.sql_type, c.sql_type)),
{
    let x = ReasonView::ChangeColumnType(c.name, lc.sql_type, c.sql_type);
    let here = column_reasons(c, live.columns);
    assert(here[0] == x);
    lemma_columns_reasons_has(desired.columns, live.columns, c, x);
    lemma_table_reasons_has_column_reason(desired, live, x);
}

/// The names of live columns that the desired table lacks include each such column.
proof fn lemma_removed_names_has(live: Seq<ColumnView>, desired: Seq<ColumnView>, lc: ColumnView)
    requires
        live.contains(lc),
        lookup_column(desired, lc.name) is None,
    ensures
        removed_names(live, desired).contains(lc.name),
    decreases live.len(),
{
    let init = live.drop_last();
    let before = removed_names(init, desired);
    if live.last() == lc {
        assert(removed_names(live, desired) == before.push(lc.name));
        assert(before.push(lc.name)[before.len() as int] == lc.name);
    } else {
        let i = choose|i: int| 0 <= i < live.len() && live[i] == lc;
        assert(i < live.len() - 1);
        assert(init[i] == lc);
        lemma_removed_names_has(init, desired, lc);
        let k = choose|k: int| 0 <= k < before.len() && before[k] == lc.name;
        let here = if lookup_column(desired, live.last().name) is None {
            seq![live.last().name]
        } else {
            Seq::empty()
        };
        assert(removed_names(live, desired) == before + here);
        assert((before + here)[k] == lc.name);
    }
}

/// A live column that the desired table does not name must be dropped: the table's last
/// rebuild reason drops columns, that one among them.
pub proof fn lemma_dropped_column_is_a_reason(desired: TableView, live: TableView, lc: ColumnView)
    requires
        live.columns.contains(lc),
        lookup_column(desired.columns, lc.name) is None,
    ensures
        table_reasons(desired, live).len() > 0,
        table_reasons(desired, live).last() matches ReasonView::DropColumns(names) && names.contains(lc.name),
{
    lemma_removed_names_has(live.columns, desired.columns, lc);
    let removed = removed_names(live.columns, desired.columns);
    assert(removed.len() > 0);
    let k = key_reasons(desired, live);
    let cr = columns_reasons(desired.columns, live.columns);
    assert(table_reasons(desired, live) == k + cr + seq![ReasonView::DropColumns(removed)]);
}

/// A change of the primary key's name or declared type must be rebuilt, with the live and
/// the desired value.
pub proof fn lemma_key_change_is_a_reason(desired: TableView, live: TableView)
    ensures
        desired.primary_key.name != live.primary_key.name ==> table_reasons(desired, live).contains(
            ReasonView::ChangePrimaryKeyName(live.primary_key.name, desired.primary_key.name),
        ),
        desired.primary_key.sql_type != live.primary_key.sql_type ==> table_reasons(desired, live).contains(
            ReasonView::ChangePrimaryKeyType(live.primary_key.sql_type, desired.primary_key.sql_type),
        ),
{
    let k = key_reasons(desired, live);
    let cr = columns_reasons(desired.columns, live.columns);
    let removed = removed_names(live.columns, desired.columns);
    let tail = if removed.len() > 0 {
        seq![ReasonView::DropColumns(removed)]
    } else {
        Seq::empty()
    };
    assert(table_reasons(desired, live) == k + cr + tail);
    let n = if desired.primary_key.name != live.primary_key.name {
        seq![ReasonView::ChangePrimaryKeyName(live.primary_key.name, desired.primary_key.name)]
    } else {
        Seq::empty()
    };
    if desired.primary_key.name != live.primary_key.name {
        assert((k + cr + tail)[0] == ReasonView::ChangePrimaryKeyName(live.primary_key.name, desired.primary_key.name));
    }
    if desired.primary_key.sql_type != live.primary_key.sql_type {
        assert((k + cr + tail)[n.len() as int] == ReasonView::ChangePrimaryKeyType(
            live.primary_key.sql_type,
            desired.primary_key.sql_type,
        ));
    }
}

/// A desired column that the live table lacks is added when it may be `NULL`, and blocks
/// the plan as a required addition otherwise.
pub proof fn lemma_missing_column_added_or_blocked(table: Seq<char>, cols: Seq<ColumnView>, live: Seq<ColumnView>, c: ColumnView)
    requires
        cols.contains(c),
        lookup_column(live, c.name) is None,
    ensures
        c.nullable ==> added_columns(cols, live).contains(c),
        !c.nullable ==> required_blockers(table, cols, live).contains(BlockerView::RequiredColumnAddition(table, c.name)),
    decreases cols.len(),
{
    let init = cols.drop_last();
    let x = BlockerView::RequiredColumnAddition(table, c.name);
    if cols.last() == c {
        if c.nullable {
            let before = added_columns(init, live);
            assert(added_columns(cols, live) == before + seq![c]);
            assert((before + seq![c])[before.len() as int] == c);
        } else {
            let before = required_blockers(table, init, live);
            assert(required_blockers(table, cols, live) == before + seq![x]);
            assert((before + seq![x])[before.len() as int] == x);
        }
    } else {
        let i = choose|i: int| 0 <= i < cols.len() && cols[i] == c;
        assert(i < cols.len() - 1);
        assert(init[i] == c);
        lemma_missing_column_added_or_blocked(table, init, live, c);
        let last = cols.last();
        if c.nullable {
            let before = added_columns(init, live);
            let here = if lookup_column(live, last.name) is None && last.nullable {
                seq![last]
            } else {
                Seq::empty()
            };
            assert(added_columns(cols, live) == before + here);
            let k = choose|k: int| 0 <= k < before.len() && before[k] == c;
            assert((before + here)[k] == c);
        } else {
            let before = required_blockers(table, init, live);
            let here = if lookup_column(live, last.name) is None && !last.nullable {
                seq![BlockerView::RequiredColumnAddition(table, last.name)]
            } else {
                Seq::empty()
            };
            assert(required_blockers(table, cols, live) == before + here);
            let k = choose|k: int| 0 <= k < before.len() && before[k] == x;
            assert((before + here)[k] == x);
        }
    }
}

/// A live table that the target does not name is dropped.
pub proof fn lemma_unnamed_table_dropped(actual: Seq<ActualView>, target: Seq<TableView>, a: ActualView)
    requires
        actual.contains(a),
        lookup_table(target, a.table.name) is None,
    ensures
        drop_ops(actual, target).contains(OpView::DropTable(a.table)),
    decreases actual.len(),
{
    let init = actual.drop_last();
    let before = drop_ops(init, target);
    let x = OpView::DropTable(a.table);
    if actual.last() == a {
        assert(drop_ops(actual, target) == before + seq![x]);
        assert((before + seq![x])[before.len() as int] == x);
    } else {
        let i = choose|i: int| 0 <= i < actual.len() && actual[i] == a;
        assert(i < actual.len() - 1);
        assert(init[i] == a);
        lemma_unnamed_table_dropped(init, target, a);
        let here = if lookup_table(target, actual.last().table.name) is None {
            seq![OpView::DropTable(actual.last().table)]
        } else {
            Seq::empty()
        };
        assert(drop_ops(actual, target) == before + here);
        let k = choose|k: int| 0 <= k < before.len() && before[k] == x;
        assert((before + here)[k] == x);
    }
}

} // verus!
