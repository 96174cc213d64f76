use seekwel::schema::introspect::{
    LiveTables,
    actual_table, has_real_foreign_keys, managed_scope, pragma_string_arg,
    sql_references_identifier, ColumnRow, DependencyCandidate, ForeignKeyList, ReplayKind,
    ReplaySql,
};
use seekwel::schema::{PrimaryKeyDef, SchemaDef, TableDef};

fn row(name: &str, sql_type: &str, not_null: bool, pk: i64) -> ColumnRow {
    ColumnRow {
        name: name.to_string(),
        sql_type: sql_type.to_string(),
        not_null,
        default_sql: None,
        pk,
        hidden: 0,
    }
}

#[test]
fn references_are_found_quoted_or_as_whole_tokens() {
    assert!(sql_references_identifier("CREATE VIEW v AS SELECT * FROM person", "person"));
    assert!(sql_references_identifier("select * from \"Person\"", "PERSON"));
    assert!(sql_references_identifier("select * from [person]", "person"));
    assert!(sql_references_identifier("select * from `person`", "person"));
    assert!(sql_references_identifier("SELECT * FROM person", "person"));
    assert!(!sql_references_identifier("SELECT * FROM persons", "person"));
    assert!(!sql_references_identifier("SELECT * FROM person_log", "person"));
    assert!(sql_references_identifier("x,person;", "person"));
}

#[test]
fn exact_integer_keys_have_no_unsupported_features() {
    let rows = vec![row("id", "integer", false, 1), row("name", "TEXT", false, 0)];
    let t = actual_table(
        &"person".to_string(),
        "CREATE TABLE person (id integer PRIMARY KEY, name TEXT)",
        &rows,
        &Vec::new(),
        Vec::new(),
        false,
    );
    assert_eq!(t.table.primary_key.name, "id");
    assert_eq!(t.table.columns.len(), 1);
    assert_eq!(t.table.columns[0].name, "name");
    assert!(t.table.columns[0].nullable);
    assert!(t.unsupported_inline_features.is_empty());
}

#[test]
fn unsupported_features_are_listed_in_order() {
    let mut rows = vec![
        row("a", "TEXT", true, 1),
        row("b", "INTEGER", true, 2),
        row("c", "TEXT", false, 0),
    ];
    rows[2].default_sql = Some("'x'".to_string());
    rows[2].hidden = 2;
    let t = actual_table(
        &"odd".to_string(),
        "create table odd (a, b, c check (c > 0)) without rowid",
        &rows,
        &Vec::new(),
        vec![ReplaySql { sql: "CREATE INDEX i ON odd(a)".to_string() }],
        true,
    );
    assert_eq!(
        t.unsupported_inline_features,
        vec![
            "managed tables must use a single `<name> INTEGER PRIMARY KEY` column".to_string(),
            "composite primary keys are not supported".to_string(),
            "generated or hidden columns are not supported".to_string(),
            "default column values are not supported".to_string(),
            "CHECK constraints are not supported".to_string(),
            "WITHOUT ROWID tables are not supported".to_string(),
        ]
    );
    assert_eq!(t.table.primary_key.name, "a");
    assert_eq!(t.table.columns.len(), 1);
    assert_eq!(t.table.columns[0].name, "b");
    assert!(t.has_real_foreign_keys);
    assert_eq!(t.replay_sql.len(), 1);
}

#[test]
fn tables_without_a_key_default_to_id_integer() {
    let rows = vec![row("name", "TEXT", true, 0)];
    let t = actual_table(&"t".to_string(), "CREATE TABLE t (name TEXT)", &rows, &Vec::new(), Vec::new(), false);
    assert_eq!(t.table.primary_key.name, "id");
    assert_eq!(t.table.primary_key.sql_type, "INTEGER");
    assert_eq!(
        t.unsupported_inline_features,
        vec!["managed tables must use a single `<name> INTEGER PRIMARY KEY` column".to_string()]
    );
}

#[test]
fn dependents_come_from_other_tables_only() {
    let candidates = vec![
        DependencyCandidate {
            name: "adults".to_string(),
            kind: ReplayKind::View,
            tbl_name: "adults".to_string(),
            sql: "CREATE VIEW adults AS SELECT * FROM person".to_string(),
        },
        DependencyCandidate {
            name: "own_trigger".to_string(),
            kind: ReplayKind::Trigger,
            tbl_name: "person".to_string(),
            sql: "CREATE TRIGGER own_trigger AFTER INSERT ON person BEGIN SELECT 1; END".to_string(),
        },
        DependencyCandidate {
            name: "audit".to_string(),
            kind: ReplayKind::Trigger,
            tbl_name: "pet".to_string(),
            sql: "CREATE TRIGGER audit AFTER INSERT ON pet BEGIN INSERT INTO person DEFAULT VALUES; END"
                .to_string(),
        },
    ];
    let rows = vec![row("id", "INTEGER", false, 1)];
    let t = actual_table(&"person".to_string(), "CREATE TABLE person (id INTEGER PRIMARY KEY)", &rows, &candidates, Vec::new(), false);
    assert_eq!(t.dependent_views, vec!["adults".to_string()]);
    assert_eq!(t.dependent_external_triggers, vec!["audit".to_string()]);
}

#[test]
fn pragma_arguments_double_single_quotes() {
    assert_eq!(pragma_string_arg("person"), "'person'");
    assert_eq!(pragma_string_arg("o'neil"), "'o''neil'");
}

#[test]
fn foreign_keys_are_found_on_either_side() {
    assert!(has_real_foreign_keys(1, "person", &Vec::new()));
    let others = vec![
        ForeignKeyList { table: "person".to_string(), targets: vec!["person".to_string()] },
        ForeignKeyList { table: "pet".to_string(), targets: vec!["PERSON".to_string()] },
    ];
    assert!(has_real_foreign_keys(0, "person", &others));
    assert!(!has_real_foreign_keys(0, "person", &others[..1].iter().map(|o| ForeignKeyList { table: o.table.clone(), targets: o.targets.clone() }).collect()));
    assert!(!has_real_foreign_keys(0, "toy", &others));
}

fn table(name: &str) -> TableDef {
    TableDef {
        name: name.to_string(),
        primary_key: PrimaryKeyDef { name: "id".to_string(), sql_type: "INTEGER".to_string() },
        columns: Vec::new(),
    }
}

#[test]
fn managed_scope_merges_target_and_previous_names() {
    let target = SchemaDef { tables: vec![table("pet"), table("person")] };
    let previous = SchemaDef { tables: vec![table("old"), table("pet")] };
    assert_eq!(
        managed_scope(&target, Some(&previous)),
        vec!["old".to_string(), "person".to_string(), "pet".to_string()]
    );
    assert_eq!(managed_scope(&target, None), vec!["person".to_string(), "pet".to_string()]);
}

#[test]
fn live_tables_keep_name_order_and_one_entry_per_name() {
    let rows = vec![row("id", "INTEGER", false, 1)];
    let read = |name: &str, sql: &str| actual_table(&name.to_string(), sql, &rows, &Vec::new(), Vec::new(), false);
    let mut live = LiveTables::new();
    live.insert(read("pet", "CREATE TABLE pet (id INTEGER PRIMARY KEY)"));
    live.insert(read("author", "CREATE TABLE author (id INTEGER PRIMARY KEY)"));
    live.insert(read("zoo", "CREATE TABLE zoo (id INTEGER PRIMARY KEY)"));
    live.insert(read("pet", "CREATE TABLE pet (id INTEGER PRIMARY KEY, x INT CHECK (x > 0))"));
    let names: Vec<&str> = live.tables().iter().map(|t| t.table.name.as_str()).collect();
    assert_eq!(names, vec!["author", "pet", "zoo"]);
    assert_eq!(
        live.tables()[1].unsupported_inline_features,
        vec!["CHECK constraints are not supported".to_string()]
    );
}
