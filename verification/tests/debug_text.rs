use seekwel::schema::debug_text::{blocker_debug, op_debug};
use seekwel::schema::{ColumnDef, PlanBlocker, PlanOp, PrimaryKeyDef, RebuildReason, TableDef};

fn column(name: &str, sql_type: &str, nullable: bool) -> ColumnDef {
    ColumnDef { name: name.to_string(), sql_type: sql_type.to_string(), nullable }
}

fn table(name: &str, columns: Vec<ColumnDef>) -> TableDef {
    TableDef {
        name: name.to_string(),
        primary_key: PrimaryKeyDef { name: "id".to_string(), sql_type: "INTEGER".to_string() },
        columns,
    }
}

#[test]
fn operation_text_matches_the_derived_debug_output() {
    let ops = vec![
        PlanOp::CreateTable { table: table("people", vec![column("name", "TEXT", false), column("age", "INTEGER", true)]) },
        PlanOp::CreateTable { table: table("empty", Vec::new()) },
        PlanOp::AddColumn { table: "pets".to_string(), column: column("nick\"name", "TEXT", true) },
        PlanOp::RebuildTable {
            table: "pets".to_string(),
            from: table("pets", vec![column("age", "TEXT", true)]),
            to: table("pets", vec![column("age", "INTEGER", false)]),
            reasons: vec![
                RebuildReason::DropColumns { columns: vec!["a".to_string(), "b\nc".to_string()] },
                RebuildReason::DropColumns { columns: Vec::new() },
                RebuildReason::ChangePrimaryKeyName { from: "id".to_string(), to: "pet_id".to_string() },
                RebuildReason::ChangePrimaryKeyType { from: "INTEGER".to_string(), to: "TEXT".to_string() },
                RebuildReason::ChangeColumnType { column: "age".to_string(), from: "TEXT".to_string(), to: "INTEGER".to_string() },
                RebuildReason::ChangeNullability { column: "age".to_string(), from_nullable: true, to_nullable: false },
            ],
        },
        PlanOp::RebuildTable { table: "t".to_string(), from: table("t", Vec::new()), to: table("t", Vec::new()), reasons: Vec::new() },
        PlanOp::DropTable { table: table("old\\table", vec![column("é", "TEXT", true)]) },
    ];
    for op in &ops {
        assert_eq!(op_debug(op), format!("{:?}", op));
    }
}

#[test]
fn blocker_text_matches_the_derived_debug_output() {
    let blockers = vec![
        PlanBlocker::RegistryUncertain("registry 'x'".to_string()),
        PlanBlocker::RequiredColumnAddition { table: "t".to_string(), column: "c".to_string() },
        PlanBlocker::UnsupportedInlineFeature { table: "t".to_string(), feature: "CHECK constraints are not supported".to_string() },
        PlanBlocker::RealForeignKeys { table: "t".to_string() },
        PlanBlocker::DependentView { table: "t".to_string(), view: "v".to_string() },
        PlanBlocker::DependentTrigger { table: "t".to_string(), trigger: "tr\t1".to_string() },
        PlanBlocker::Uncertain(String::new()),
    ];
    for blocker in &blockers {
        assert_eq!(blocker_debug(blocker), format!("{:?}", blocker));
    }
}

#[test]
fn create_table_text_is_spelled_out() {
    let op = PlanOp::CreateTable { table: table("people", vec![column("name", "TEXT", false)]) };
    assert_eq!(
        op_debug(&op),
        "CreateTable { table: TableDef { name: \"people\", primary_key: PrimaryKeyDef { name: \"id\", sql_type: \"INTEGER\" }, columns: [ColumnDef { name: \"name\", sql_type: \"TEXT\", nullable: false }] } }"
    );
}
