use seekwel::schema::{table_for_model, SchemaBuilder, SchemaDef};
use seekwel::model::comparison::Comparison;
use seekwel::model::query::{Order, Query};
use seekwel::model::{Column, ColumnDef, Model, PrimaryKeyDef, SqlValue};

#[derive(Debug, Clone, Copy, PartialEq, Eq)]
enum PersonColumns {
    Name,
    Age,
}

impl Column for PersonColumns {
    fn as_str(self) -> &'static str {
        match self {
            PersonColumns::Name => "name",
            PersonColumns::Age => "age",
        }
    }
}

struct Person {
    name: String,
    age: Option<i64>,
}

static PERSON_COLUMNS: [ColumnDef; 2] = [
    ColumnDef { name: "name", sql_type: "TEXT", nullable: false },
    ColumnDef { name: "age", sql_type: "INTEGER", nullable: true },
];

impl Model for Person {
    type Column = PersonColumns;

    fn table_name() -> &'static str {
        "person"
    }

    fn primary_key() -> PrimaryKeyDef {
        PrimaryKeyDef { name: "id", sql_type: "INTEGER", auto_increment: true }
    }

    fn columns() -> &'static [ColumnDef] {
        &PERSON_COLUMNS
    }

    fn insert_columns() -> &'static [ColumnDef] {
        &PERSON_COLUMNS
    }

    fn params(&self) -> Vec<SqlValue> {
        vec![
            SqlValue::Text(self.name.clone()),
            match self.age {
                Some(a) => SqlValue::Integer(a),
                None => SqlValue::Null,
            },
        ]
    }

    fn insert_params(&self) -> Vec<SqlValue> {
        self.params()
    }
}

#[test]
fn person_params_follow_column_order() {
    let p = Person { name: "Pat".to_string(), age: None };
    assert_eq!(p.params(), vec![SqlValue::Text("Pat".to_string()), SqlValue::Null]);
}

#[test]
fn unfiltered_query_selects_every_column() {
    let plan = Query::<Person>::root().into_query_plan().expect("plan");
    assert_eq!(plan.all_query(), "SELECT id, name, age FROM person");
}

#[test]
fn chained_predicates_are_joined_with_and() {
    let plan = Query::<Person>::new(PersonColumns::Age, Comparison::Gte(21_i64))
        .q(PersonColumns::Name, Comparison::Eq("Pat"))
        .into_query_plan()
        .expect("plan");
    assert_eq!(
        plan.all_query(),
        "SELECT id, name, age FROM person WHERE (age >= ?1) AND (name = ?2)"
    );
    assert_eq!(
        plan.params,
        vec![SqlValue::Integer(21), SqlValue::Text("Pat".to_string())]
    );
}

#[test]
fn ordering_and_paging_render_in_order() {
    let plan = Query::<Person>::root()
        .order(Order::desc(PersonColumns::Age).then(Order::asc(PersonColumns::Name)))
        .limit(10)
        .offset(20)
        .into_query_plan()
        .expect("plan");
    assert_eq!(
        plan.all_query(),
        "SELECT id, name, age FROM person ORDER BY age DESC, name ASC LIMIT 10 OFFSET 20"
    );
}

#[test]
fn first_query_limits_to_one_row() {
    let plan = Query::<Person>::new(PersonColumns::Name, Comparison::Eq("Pat"))
        .into_query_plan()
        .expect("plan");
    assert_eq!(
        plan.first_query(),
        "SELECT id, name, age FROM person WHERE name = ?1 LIMIT 1"
    );
    assert_eq!(plan.count_query(), "SELECT COUNT(*) FROM person WHERE name = ?1");
}

#[test]
fn or_groups_render_with_parentheses() {
    let plan = Query::<Person>::new(PersonColumns::Age, Comparison::Gte(21_i64))
        .and(
            Query::<Person>::new(PersonColumns::Name, Comparison::Eq("Pat"))
                .or(Query::<Person>::new(PersonColumns::Name, Comparison::Eq("Sam"))),
        )
        .into_query_plan()
        .expect("plan");
    assert_eq!(
        plan.all_query(),
        "SELECT id, name, age FROM person WHERE (age >= ?1) AND ((name = ?2) OR (name = ?3))"
    );
}

#[test]
fn default_order_has_no_terms_and_chains_as_identity() {
    assert!(Order::default().into_terms().is_empty());
    let chained = Order::default().then(Order::asc(PersonColumns::Name)).then(Order::default());
    assert_eq!(chained.into_terms(), Order::asc(PersonColumns::Name).into_terms());
}

#[test]
fn chunks_concatenate_to_the_query_rows() {
    let all: Vec<u32> = (0..10).collect();
    let mut cursor = Query::<Person>::root().limit(5).offset(1).chunked(2).cursor().expect("cursor");
    let mut chunks: Vec<Vec<u32>> = Vec::new();
    let mut statements: Vec<String> = Vec::new();
    while let Some((statement, asked)) = cursor.next_query() {
        statements.push(statement);
        let start = (1 + cursor.consumed).min(all.len());
        let end = (start + asked).min(all.len());
        let page = all[start..end].to_vec();
        if cursor.record(page.len(), asked) {
            chunks.push(page);
        }
    }
    assert_eq!(chunks, vec![vec![1, 2], vec![3, 4], vec![5]]);
    assert_eq!(chunks.concat(), all[1..6].to_vec());
    assert_eq!(statements[0], "SELECT id, name, age FROM person LIMIT 2 OFFSET 1");
    assert_eq!(statements[2], "SELECT id, name, age FROM person LIMIT 1 OFFSET 5");
    assert!(cursor.next_query().is_none());
}

#[test]
fn building_after_adding_a_model_normalizes_the_tables() {
    let built = SchemaBuilder::new().model::<Person>().build().expect("schema");
    let normalized = SchemaDef { tables: vec![table_for_model::<Person>()] }.normalized().expect("schema");
    assert_eq!(built.canonical_string(), normalized.canonical_string());
    assert_eq!(built.tables[0].name, "person");
    let twice = SchemaBuilder::new().model::<Person>().model::<Person>().build();
    match twice {
        Err(seekwel::Error::InvalidSchema(message)) => {
            assert_eq!(message, "duplicate managed table `person`")
        }
        _ => panic!("expected a duplicate table error"),
    }
}
