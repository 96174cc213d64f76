use seekwel::schema::diff::diff;
use seekwel::schema::introspect::ActualTable;
use seekwel::schema::{ColumnDef, PrimaryKeyDef, SchemaDef, TableDef};
use seekwel::Error;

fn empty_actual(table: TableDef) -> ActualTable {
    ActualTable {
        table,
        unsupported_inline_features: Vec::new(),
        has_real_foreign_keys: false,
        dependent_views: Vec::new(),
        dependent_external_triggers: Vec::new(),
        replay_sql: Vec::new(),
    }
}

fn column(name: &str, sql_type: &str, nullable: bool) -> ColumnDef {
    ColumnDef {
        name: name.to_string(),
        sql_type: sql_type.to_string(),
        nullable,
    }
}

fn table(name: &str, columns: Vec<ColumnDef>) -> TableDef {
    TableDef {
        name: name.to_string(),
        primary_key: PrimaryKeyDef {
            name: "id".to_string(),
            sql_type: "INTEGER".to_string(),
        },
        columns,
    }
}

#[test]
fn diff_propagates_invalid_actual_schema() {
    let actual = vec![empty_actual(TableDef {
        name: "thing".to_string(),
        primary_key: PrimaryKeyDef {
            name: "id".to_string(),
            sql_type: "INTEGER".to_string(),
        },
        columns: vec![
            ColumnDef {
                name: "label".to_string(),
                sql_type: "TEXT".to_string(),
                nullable: true,
            },
            ColumnDef {
                name: "label".to_string(),
                sql_type: "TEXT".to_string(),
                nullable: true,
            },
        ],
    })];

    let target = SchemaDef { tables: Vec::new() };
    let result = diff(&target, &actual);

    match result {
        Err(Error::InvalidSchema(message)) => {
            assert!(
                message.contains("duplicate column"),
                "expected duplicate-column error, got: {message}"
            );
        }
        Err(other) => panic!("expected InvalidSchema error, got: {}", other.message()),
        Ok(_) => panic!("expected InvalidSchema error, got Ok(_)"),
    }
}

#[test]
fn diff_of_matching_schemas_plans_nothing() {
    let target = SchemaDef {
        tables: vec![table("person", vec![column("name", "TEXT", false)])],
    };
    let actual = vec![empty_actual(table("person", vec![column("name", "TEXT", false)]))];
    let result = diff(&target, &actual).expect("diff");
    assert!(result.ops.is_empty());
    assert!(result.blockers.is_empty());
    assert_eq!(result.source.tables.len(), 1);
}

#[test]
fn diff_creates_missing_tables_and_drops_unmanaged_ones() {
    let target = SchemaDef {
        tables: vec![table("pet", Vec::new())],
    };
    let actual = vec![empty_actual(table("old", Vec::new()))];
    let result = diff(&target, &actual).expect("diff");
    assert_eq!(result.ops.len(), 2);
    assert!(matches!(&result.ops[0], seekwel::schema::PlanOp::CreateTable { table } if table.name == "pet"));
    assert!(matches!(&result.ops[1], seekwel::schema::PlanOp::DropTable { table } if table.name == "old"));
}

#[test]
fn diff_adds_nullable_columns_in_name_order() {
    let target = SchemaDef {
        tables: vec![table(
            "person",
            vec![column("age", "INTEGER", true), column("nick", "TEXT", true)],
        )],
    };
    let actual = vec![empty_actual(table("person", Vec::new()))];
    let result = diff(&target, &actual).expect("diff");
    assert_eq!(result.ops.len(), 2);
    match (&result.ops[0], &result.ops[1]) {
        (
            seekwel::schema::PlanOp::AddColumn { column: a, .. },
            seekwel::schema::PlanOp::AddColumn { column: b, .. },
        ) => {
            assert_eq!(a.name, "age");
            assert_eq!(b.name, "nick");
        }
        _ => panic!("expected two column additions"),
    }
}

#[test]
fn diff_blocks_required_column_additions() {
    let target = SchemaDef {
        tables: vec![table("person", vec![column("name", "TEXT", false)])],
    };
    let actual = vec![empty_actual(table("person", Vec::new()))];
    let result = diff(&target, &actual).expect("diff");
    assert!(result.ops.is_empty());
    assert_eq!(result.blockers.len(), 1);
    assert!(matches!(
        &result.blockers[0],
        seekwel::schema::PlanBlocker::RequiredColumnAddition { table, column }
            if table == "person" && column == "name"
    ));
}

#[test]
fn diff_rebuilds_on_type_changes() {
    let target = SchemaDef {
        tables: vec![table("person", vec![column("age", "INTEGER", true)])],
    };
    let actual = vec![empty_actual(table("person", vec![column("age", "TEXT", true)]))];
    let result = diff(&target, &actual).expect("diff");
    assert_eq!(result.ops.len(), 1);
    match &result.ops[0] {
        seekwel::schema::PlanOp::RebuildTable { reasons, .. } => {
            assert_eq!(reasons.len(), 1);
            assert!(matches!(
                &reasons[0],
                seekwel::schema::RebuildReason::ChangeColumnType { column, from, to }
                    if column == "age" && from == "TEXT" && to == "INTEGER"
            ));
        }
        _ => panic!("expected a rebuild"),
    }
}

#[test]
fn diff_accepts_targets_in_any_order() {
    let target = SchemaDef {
        tables: vec![
            table("zoo", Vec::new()),
            table("person", vec![column("nick", "TEXT", true), column("age", "INTEGER", true)]),
        ],
    };
    let actual = vec![empty_actual(table("person", Vec::new()))];
    let result = diff(&target, &actual).expect("diff");
    assert_eq!(result.ops.len(), 3);
    assert!(matches!(&result.ops[0], seekwel::schema::PlanOp::CreateTable { table } if table.name == "zoo"));
    assert!(matches!(&result.ops[1], seekwel::schema::PlanOp::AddColumn { column, .. } if column.name == "age"));
    assert!(matches!(&result.ops[2], seekwel::schema::PlanOp::AddColumn { column, .. } if column.name == "nick"));
}

#[test]
fn diff_keeps_the_last_of_repeated_names() {
    let target = SchemaDef {
        tables: vec![
            table("person", vec![column("age", "TEXT", false)]),
            table("person", vec![column("age", "TEXT", true), column("age", "INTEGER", true)]),
        ],
    };
    let actual = vec![empty_actual(table("person", vec![column("age", "TEXT", true)]))];
    let result = diff(&target, &actual).expect("diff");
    assert!(result.blockers.is_empty());
    assert_eq!(result.ops.len(), 1);
    match &result.ops[0] {
        seekwel::schema::PlanOp::RebuildTable { to, reasons, .. } => {
            assert_eq!(to.columns.len(), 2);
            assert_eq!(reasons.len(), 1);
            assert!(matches!(
                &reasons[0],
                seekwel::schema::RebuildReason::ChangeColumnType { column, from, to }
                    if column == "age" && from == "TEXT" && to == "INTEGER"
            ));
        }
        _ => panic!("expected a rebuild"),
    }
}

#[test]
fn diff_orders_column_reasons_by_name() {
    let target = SchemaDef {
        tables: vec![table("person", vec![column("b", "INTEGER", true), column("a", "INTEGER", true)])],
    };
    let actual = vec![empty_actual(table("person", vec![column("a", "TEXT", true), column("b", "TEXT", true)]))];
    let result = diff(&target, &actual).expect("diff");
    match &result.ops[0] {
        seekwel::schema::PlanOp::RebuildTable { reasons, .. } => {
            assert_eq!(reasons.len(), 2);
            assert!(matches!(&reasons[0], seekwel::schema::RebuildReason::ChangeColumnType { column, .. } if column == "a"));
            assert!(matches!(&reasons[1], seekwel::schema::RebuildReason::ChangeColumnType { column, .. } if column == "b"));
        }
        _ => panic!("expected a rebuild"),
    }
}
