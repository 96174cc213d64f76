use seekwel::schema::apply::{
    check_apply, format_blockers, op_statements, plan_scope, quote_ident, render_add_column_sql,
    render_copy_sql, render_create_table_sql, retained_columns,
};
use seekwel::schema::diff::{diff, DiffResult};
use seekwel::schema::introspect::{ActualTable, ReplaySql};
use seekwel::schema::{
    ApplyMode, ColumnDef, Plan, PlanBlocker, PlanOp, PrimaryKeyDef, SchemaDef, TableDef,
};
use seekwel::Error;

fn column(name: &str, sql_type: &str, nullable: bool) -> ColumnDef {
    ColumnDef {
        name: name.to_string(),
        sql_type: sql_type.to_string(),
        nullable,
    }
}

fn table(name: &str, columns: Vec<ColumnDef>) -> TableDef {
    TableDef {
        name: name.to_string(),
        primary_key: PrimaryKeyDef {
            name: "id".to_string(),
            sql_type: "INTEGER".to_string(),
        },
        columns,
    }
}

fn live(table: TableDef) -> ActualTable {
    ActualTable {
        table,
        unsupported_inline_features: Vec::new(),
        has_real_foreign_keys: false,
        dependent_views: Vec::new(),
        dependent_external_triggers: Vec::new(),
        replay_sql: Vec::new(),
    }
}

#[test]
fn identifiers_are_double_quoted() {
    assert_eq!(quote_ident("person"), "\"person\"");
    assert_eq!(quote_ident("we\"ird"), "\"we\"\"ird\"");
}

#[test]
fn create_and_add_column_statements() {
    let t = table("person", vec![column("name", "TEXT", false), column("age", "INTEGER", true)]);
    assert_eq!(
        render_create_table_sql("person", &t),
        "CREATE TABLE \"person\" (\"id\" INTEGER PRIMARY KEY, \"name\" TEXT NOT NULL, \"age\" INTEGER)"
    );
    assert_eq!(
        render_add_column_sql("person", &column("nick", "TEXT", true)),
        "ALTER TABLE \"person\" ADD COLUMN \"nick\" TEXT"
    );
}

#[test]
fn rebuild_copies_the_key_and_shared_columns() {
    let from = table("person", vec![column("age", "TEXT", true), column("old", "TEXT", true)]);
    let mut to = table("person", vec![column("age", "INTEGER", true)]);
    to.primary_key.name = "pk".to_string();
    let kept = retained_columns(&from, &to);
    assert_eq!(
        kept,
        vec![("id".to_string(), "pk".to_string()), ("age".to_string(), "age".to_string())]
    );
    assert_eq!(
        render_copy_sql("person", "tmp", &kept),
        "INSERT INTO \"tmp\" (\"pk\", \"age\") SELECT \"id\", \"age\" FROM \"person\""
    );
}

#[test]
fn rebuild_statements_replay_indexes() {
    let from = table("person", vec![column("age", "TEXT", true)]);
    let to = table("person", vec![column("age", "INTEGER", true)]);
    let mut actual = live(from.duplicate());
    actual.replay_sql.push(ReplaySql {
        sql: "CREATE INDEX person_age ON person(age)".to_string(),
    });
    let op = PlanOp::RebuildTable {
        table: "person".to_string(),
        from,
        to,
        reasons: Vec::new(),
    };
    let statements = op_statements(&op, &vec![actual]).ok().expect("statements");
    assert_eq!(
        statements,
        vec![
            "CREATE TABLE \"__seekwel_rebuild_person\" (\"id\" INTEGER PRIMARY KEY, \"age\" INTEGER)"
                .to_string(),
            "INSERT INTO \"__seekwel_rebuild_person\" (\"id\", \"age\") SELECT \"id\", \"age\" FROM \"person\""
                .to_string(),
            "DROP TABLE \"person\"".to_string(),
            "ALTER TABLE \"__seekwel_rebuild_person\" RENAME TO \"person\"".to_string(),
            "CREATE INDEX person_age ON person(age)".to_string(),
        ]
    );
    match op_statements(&op, &Vec::new()) {
        Err(Error::SchemaBlocked(m)) => {
            assert_eq!(m, "table `person` disappeared before rebuild could run")
        }
        _ => panic!("expected a blocked rebuild"),
    }
}

#[test]
fn blockers_are_explained_in_order() {
    let blockers = vec![
        PlanBlocker::RequiredColumnAddition {
            table: "person".to_string(),
            column: "name".to_string(),
        },
        PlanBlocker::DependentView {
            table: "person".to_string(),
            view: "adults".to_string(),
        },
        PlanBlocker::Uncertain("registry is stale".to_string()),
    ];
    assert_eq!(
        format_blockers(&blockers),
        "table `person` needs required column `name`, which cannot be added safely; table `person` is referenced by dependent view `adults`; registry is stale"
    );
}

fn plan_for(target: &SchemaDef, actual: &Vec<ActualTable>) -> Plan {
    let d = diff(target, actual).ok().expect("diff");
    Plan::from_comparison(target.duplicate(), d)
}

#[test]
fn apply_checks_drift_blockers_and_destructive_operations() {
    let target = SchemaDef {
        tables: vec![table("person", vec![column("age", "INTEGER", true)])],
    };
    let actual = vec![live(table("person", Vec::new()))];
    let plan = plan_for(&target, &actual);
    assert_eq!(plan.artifact_version, 1);
    assert!(!plan.is_blocked());
    assert!(!plan.is_destructive());
    let current: DiffResult = diff(&plan.target, &actual).ok().expect("diff");
    assert!(check_apply(&plan, &current, ApplyMode::SafeOnly).is_ok());

    let drifted = vec![live(table("person", vec![column("x", "TEXT", true)]))];
    let current = diff(&plan.target, &drifted).ok().expect("diff");
    match check_apply(&plan, &current, ApplyMode::AllowDestructive) {
        Err(Error::SchemaDrift(m)) => assert!(m.starts_with("expected source fingerprint ")),
        _ => panic!("expected drift"),
    }

    let dropping = plan_for(&SchemaDef { tables: Vec::new() }, &actual);
    assert!(dropping.is_destructive());
    let current = diff(&dropping.target, &actual).ok().expect("diff");
    match check_apply(&dropping, &current, ApplyMode::SafeOnly) {
        Err(Error::SchemaBlocked(m)) => assert_eq!(
            m,
            "plan contains destructive operations; re-run apply with ApplyMode::AllowDestructive"
        ),
        _ => panic!("expected a destructive refusal"),
    }
    assert!(check_apply(&dropping, &current, ApplyMode::AllowDestructive).is_ok());

    let required = SchemaDef {
        tables: vec![table("person", vec![column("name", "TEXT", false)])],
    };
    let blocked = plan_for(&required, &actual);
    assert!(blocked.is_blocked());
    let current = diff(&blocked.target, &actual).ok().expect("diff");
    match check_apply(&blocked, &current, ApplyMode::AllowDestructive) {
        Err(Error::SchemaBlocked(m)) => assert_eq!(
            m,
            "table `person` needs required column `name`, which cannot be added safely"
        ),
        _ => panic!("expected blockers"),
    }
}

#[test]
fn plan_scope_merges_source_and_target_names() {
    let target = SchemaDef {
        tables: vec![table("b", Vec::new()), table("c", Vec::new())],
    };
    let actual = vec![live(table("a", Vec::new())), live(table("b", Vec::new()))];
    let plan = plan_for(&target, &actual);
    assert_eq!(plan_scope(&plan), vec!["a".to_string(), "b".to_string(), "c".to_string()]);
}

#[test]
fn plan_ids_are_stable_and_json_is_deterministic() {
    let target = SchemaDef {
        tables: vec![table("person", vec![column("age", "INTEGER", true)])],
    };
    let actual = vec![live(table("person", Vec::new()))];
    let a = plan_for(&target, &actual);
    let b = plan_for(&target, &actual);
    assert_eq!(a.plan_id, b.plan_id);
    assert_eq!(a.plan_id.len(), 16);
    assert_eq!(a.plan_id, a.compute_plan_id());
    assert_eq!(a.to_json_string(), b.to_json_string());
    assert!(a.to_json_string().starts_with("{\"artifact_version\":1,\"plan_id\":\""));
    let other = plan_for(&SchemaDef { tables: Vec::new() }, &actual);
    assert_ne!(a.plan_id, other.plan_id);
}
