use seekwel::schema::{ColumnDef, PrimaryKeyDef, SchemaDef, TableDef};
use seekwel::Error;

fn table(name: &str, columns: Vec<(&str, &str, bool)>) -> TableDef {
    TableDef {
        name: name.to_string(),
        primary_key: PrimaryKeyDef {
            name: "id".to_string(),
            sql_type: "INTEGER".to_string(),
        },
        columns: columns
            .into_iter()
            .map(|(n, t, nullable)| ColumnDef {
                name: n.to_string(),
                sql_type: t.to_string(),
                nullable,
            })
            .collect(),
    }
}

fn invalid_message(r: Result<SchemaDef, Error>) -> String {
    match r {
        Err(Error::InvalidSchema(m)) => m,
        Err(other) => panic!("unexpected error {}", other.message()),
        Ok(_) => panic!("expected an error"),
    }
}

#[test]
fn canonical_text_lists_tables_then_columns() {
    let schema = SchemaDef {
        tables: vec![table("person", vec![("age", "INTEGER", true), ("name", "TEXT", false)])],
    };
    assert_eq!(
        schema.canonical_string(),
        "table\tperson\tid\tINTEGER\ncolumn\tperson\tage\tINTEGER\t1\ncolumn\tperson\tname\tTEXT\t0\n"
    );
}

#[test]
fn canonical_text_reads_back_as_the_same_schema() {
    let schema = SchemaDef {
        tables: vec![
            table("person", vec![("age", "INTEGER", true), ("name", "TEXT", false)]),
            table("pet", vec![("owner_id", "INTEGER", false)]),
        ],
    }
    .normalized()
    .ok()
    .expect("normalized");
    let text = schema.canonical_string();
    let back = SchemaDef::from_canonical(&text).ok().expect("parsed");
    assert_eq!(back.canonical_string(), text);
    assert_eq!(back.fingerprint(), schema.fingerprint());
    assert_eq!(back.tables.len(), 2);
    assert_eq!(back.tables[1].columns[0].name, "owner_id");
}

#[test]
fn reading_normalizes_and_accepts_crlf_and_blank_lines() {
    let text = "table\tzoo\r\n\ncolumn\tzoo\tb\tTEXT\t1\r\ncolumn\tzoo\ta\tTEXT\t0\ntable\tant\tkey\tBIGINT\n";
    let s = SchemaDef::from_canonical(text).ok().expect("parsed");
    assert_eq!(s.tables[0].name, "ant");
    assert_eq!(s.tables[0].primary_key.name, "key");
    assert_eq!(s.tables[0].primary_key.sql_type, "BIGINT");
    assert_eq!(s.tables[1].name, "zoo");
    assert_eq!(s.tables[1].primary_key.name, "id");
    assert_eq!(s.tables[1].primary_key.sql_type, "INTEGER");
    assert_eq!(s.tables[1].columns[0].name, "a");
    assert!(!s.tables[1].columns[0].nullable);
    assert!(s.tables[1].columns[1].nullable);
}

#[test]
fn malformed_history_rows_are_refused() {
    assert_eq!(
        invalid_message(SchemaDef::from_canonical("view\tx\n")),
        "history row has unknown record kind `view`"
    );
    assert_eq!(
        invalid_message(SchemaDef::from_canonical("table\n")),
        "history row is missing table name"
    );
    assert_eq!(
        invalid_message(SchemaDef::from_canonical("table\tt\tid\tINTEGER\textra\n")),
        "history table row for `t` has trailing data"
    );
    assert_eq!(
        invalid_message(SchemaDef::from_canonical("column\tt\tc\tTEXT\t1\n")),
        "history column row references unknown table `t`"
    );
    assert_eq!(
        invalid_message(SchemaDef::from_canonical("table\tt\ncolumn\tt\tc\tTEXT\tyes\n")),
        "history column `t.c` has invalid nullability flag `yes`"
    );
    assert_eq!(
        invalid_message(SchemaDef::from_canonical("table\tt\ncolumn\tt\tc\tTEXT\n")),
        "history row is missing column nullability"
    );
    assert_eq!(
        invalid_message(SchemaDef::from_canonical("table\tt\ncolumn\tt\tc\tTEXT\t1\t2\n")),
        "history column row for `t.c` has trailing data"
    );
}

#[test]
fn normalization_refuses_repeated_names() {
    let dup_tables = SchemaDef {
        tables: vec![table("a", Vec::new()), table("a", Vec::new())],
    };
    assert_eq!(invalid_message(dup_tables.normalized()), "duplicate managed table `a`");
    let key_column = SchemaDef {
        tables: vec![table("a", vec![("id", "INTEGER", false)])],
    };
    assert_eq!(
        invalid_message(key_column.normalized()),
        "table `a` duplicates primary key column `id` in managed columns"
    );
}

#[test]
fn normalizing_twice_changes_nothing() {
    let once = SchemaDef {
        tables: vec![
            table("b", vec![("z", "TEXT", true), ("y", "TEXT", true)]),
            table("a", Vec::new()),
        ],
    }
    .normalized()
    .ok()
    .expect("normalized");
    let text = once.canonical_string();
    let twice = once.normalized().ok().expect("normalized again");
    assert_eq!(twice.canonical_string(), text);
}

#[test]
fn fingerprints_are_sixteen_hex_digits() {
    let schema = SchemaDef { tables: Vec::new() };
    assert_eq!(schema.fingerprint(), "cbf29ce484222325");
    let other = SchemaDef {
        tables: vec![table("a", Vec::new())],
    };
    assert_eq!(other.fingerprint().len(), 16);
    assert_ne!(other.fingerprint(), schema.fingerprint());
}

#[test]
fn default_schema_is_empty_and_copies_compare_equal() {
    let empty = SchemaDef::default();
    assert!(empty.tables.is_empty());
    let copy = empty.clone();
    assert_eq!(copy, empty);
}
