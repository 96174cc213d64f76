use seekwel::model::comparison::Comparison;
use seekwel::model::SqlValue;

#[test]
fn in_clause_with_all_none_operands_matches_no_rows() {
    let values: Vec<Option<i64>> = vec![None, None];
    let mut params: Vec<SqlValue> = Vec::new();
    let clause = Comparison::In(values)
        .into_prepared()
        .into_clause("col", &mut params)
        .expect("IN with all-None operands should render a clause");

    assert_eq!(clause, "0 = 1");
    assert!(
        params.is_empty(),
        "no placeholders should be bound when every operand was filtered out",
    );
}

#[test]
fn eq_none_renders_is_null_without_binding() {
    let mut params: Vec<SqlValue> = Vec::new();
    let clause = Comparison::Eq(None::<i64>)
        .into_clause("age", &mut params)
        .expect("clause");
    assert_eq!(clause, "age IS NULL");
    assert!(params.is_empty());
}

#[test]
fn ne_none_renders_is_not_null() {
    let mut params: Vec<SqlValue> = Vec::new();
    let clause = Comparison::Ne(None::<i64>)
        .into_clause("age", &mut params)
        .expect("clause");
    assert_eq!(clause, "age IS NOT NULL");
    assert!(params.is_empty());
}

#[test]
fn gte_binds_the_next_placeholder() {
    let mut params: Vec<SqlValue> = vec![SqlValue::Integer(7)];
    let clause = Comparison::Gte(21_i64)
        .into_clause("age", &mut params)
        .expect("clause");
    assert_eq!(clause, "age >= ?2");
    assert_eq!(params, vec![SqlValue::Integer(7), SqlValue::Integer(21)]);
}

#[test]
fn in_clause_skips_missing_operands() {
    let mut params: Vec<SqlValue> = Vec::new();
    let clause = Comparison::In(vec![Some(1_i64), None, Some(3_i64)])
        .into_clause("id", &mut params)
        .expect("clause");
    assert_eq!(clause, "id IN (?1, ?2)");
    assert_eq!(params, vec![SqlValue::Integer(1), SqlValue::Integer(3)]);
}
