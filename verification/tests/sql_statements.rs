use seekwel::model::{ColumnDef, PrimaryKeyDef};
use seekwel::sql::{
    append_limit_offset, create_table, delete_by_primary_key, insert, order_by_clause, select,
    select_by_id, select_by_primary_key, select_where, select_with_options, update_by_primary_key, Count,
    OrderDirection, OrderTerm, Projection, Select,
};

fn test_columns() -> &'static [ColumnDef] {
    &[
        ColumnDef {
            name: "name",
            sql_type: "TEXT",
            nullable: false,
        },
        ColumnDef {
            name: "age",
            sql_type: "INTEGER",
            nullable: true,
        },
    ]
}

fn primary_key(name: &'static str) -> PrimaryKeyDef {
    PrimaryKeyDef {
        name,
        sql_type: "INTEGER",
        auto_increment: true,
    }
}

#[test]
fn insert_renders_placeholders() {
    assert_eq!(
        insert("person", test_columns()),
        "INSERT INTO person (name, age) VALUES (?1, ?2)"
    );
}

#[test]
fn insert_handles_empty_models() {
    assert_eq!(insert("person", &[]), "INSERT INTO person DEFAULT VALUES");
}

#[test]
fn update_by_primary_key_renders_assignments() {
    assert_eq!(
        update_by_primary_key("person", primary_key("id"), test_columns()),
        "UPDATE person SET name = ?1, age = ?2 WHERE id = ?3"
    );
}

#[test]
fn update_by_primary_key_handles_empty_models() {
    assert_eq!(
        update_by_primary_key("empty", primary_key("hyperlink_id"), &[]),
        "UPDATE empty SET hyperlink_id = hyperlink_id WHERE hyperlink_id = ?1"
    );
}

#[test]
fn delete_by_primary_key_renders_statement() {
    assert_eq!(
        delete_by_primary_key("person", primary_key("id")),
        "DELETE FROM person WHERE id = ?1"
    );
}

#[test]
fn create_table_renders_columns() {
    assert_eq!(
        create_table("person", primary_key("id"), test_columns()),
        "CREATE TABLE IF NOT EXISTS person (id INTEGER PRIMARY KEY, name TEXT NOT NULL, age INTEGER)"
    );
}

#[test]
fn create_table_handles_empty_models() {
    assert_eq!(
        create_table("empty", primary_key("hyperlink_id"), &[]),
        "CREATE TABLE IF NOT EXISTS empty (hyperlink_id INTEGER PRIMARY KEY)"
    );
}

#[test]
fn select_by_id_renders_lookup() {
    assert_eq!(
        select_by_id("person", test_columns()),
        "SELECT id, name, age FROM person WHERE id = ?1"
    );
}

#[test]
fn select_where_renders_required_clause() {
    assert_eq!(
        select_where("person", test_columns(), "age >= ?1", false),
        "SELECT id, name, age FROM person WHERE age >= ?1"
    );
}

#[test]
fn select_renders_unfiltered_queries() {
    assert_eq!(
        select("person", test_columns(), None, false),
        "SELECT id, name, age FROM person"
    );
}

#[test]
fn select_where_applies_limit_one() {
    assert_eq!(
        select_where("person", test_columns(), "name = ?1", true),
        "SELECT id, name, age FROM person WHERE name = ?1 LIMIT 1"
    );
}

#[test]
fn select_applies_limit_one() {
    assert_eq!(
        select("person", test_columns(), None, true),
        "SELECT id, name, age FROM person LIMIT 1"
    );
}

#[test]
fn select_with_options_renders_order_and_paging() {
    assert_eq!(
        select_with_options(
            "person",
            test_columns(),
            Some("age >= ?1"),
            Some("name ASC, age DESC"),
            Some(10),
            Some(20),
        ),
        "SELECT id, name, age FROM person WHERE age >= ?1 ORDER BY name ASC, age DESC LIMIT 10 OFFSET 20"
    );
}

#[test]
fn count_without_paging_ignores_ordering() {
    assert_eq!(
        Count {
            select: Select {
                projection: Projection::One,
                table_name: "person",
                clause: Some("age >= ?1"),
                order_clause: Some("name DESC"),
                limit: None,
                offset: None,
            },
        }
        .to_sql(),
        "SELECT COUNT(*) FROM person WHERE age >= ?1"
    );
}

#[test]
fn count_with_paging_wraps_the_query() {
    assert_eq!(
        Count {
            select: Select {
                projection: Projection::One,
                table_name: "person",
                clause: Some("age >= ?1"),
                order_clause: Some("name DESC"),
                limit: Some(10),
                offset: Some(20),
            },
        }
        .to_sql(),
        "SELECT COUNT(*) FROM (SELECT 1 FROM person WHERE age >= ?1 ORDER BY name DESC LIMIT 10 OFFSET 20) AS seekwel_count"
    );
}

#[test]
fn append_limit_offset_handles_offset_only() {
    assert_eq!(
        append_limit_offset("SELECT id FROM person", None, Some(20)),
        "SELECT id FROM person LIMIT -1 OFFSET 20"
    );
}

#[test]
fn order_by_clause_joins_terms() {
    let ordering = vec![
        OrderTerm::Column {
            name: "name",
            direction: OrderDirection::Asc,
        },
        OrderTerm::Raw("age DESC".to_string()),
    ];

    assert_eq!(
        order_by_clause(&ordering),
        Some("name ASC, age DESC".to_string())
    );
}

#[test]
fn order_by_clause_is_absent_without_terms() {
    assert_eq!(order_by_clause(&[]), None);
}

#[test]
fn placeholders_count_from_the_given_start() {
    assert_eq!(seekwel::sql::render::placeholders(3, 4), "?4, ?5, ?6");
    assert_eq!(seekwel::sql::render::placeholders(0, 1), "");
}

#[test]
fn large_limits_render_in_decimal() {
    assert_eq!(
        append_limit_offset("SELECT 1", Some(1234567), None),
        "SELECT 1 LIMIT 1234567"
    );
}

#[test]
fn select_by_primary_key_uses_the_key_column() {
    assert_eq!(
        select_by_primary_key("pet", primary_key("pet_id"), test_columns()),
        "SELECT pet_id, name, age FROM pet WHERE pet_id = ?1"
    );
}
