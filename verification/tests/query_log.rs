use seekwel::connection::{
    log_entry, rollback, normalize_query, release_savepoint_sql, rollback_to_savepoint_sql, savepoint_sql,
    QueryLog, TransactionDepth, QUERY_LOG_CAPACITY,
};

#[test]
fn normalize_query_collapses_white_space() {
    assert_eq!(normalize_query("  SELECT *\n  FROM   person\t"), "SELECT * FROM person");
    assert_eq!(normalize_query(""), "");
    assert_eq!(normalize_query(" \n\t "), "");
}

#[test]
fn log_entries_list_bound_parameters() {
    assert_eq!(log_entry("SELECT 1", &Vec::new()), Some("SELECT 1".to_string()));
    assert_eq!(log_entry("   ", &vec!["1".to_string()]), None);
    assert_eq!(
        log_entry(
            "SELECT id\n FROM person WHERE name = ?1 AND age > ?2",
            &vec!["'Pat'".to_string(), "21".to_string()]
        ),
        Some("SELECT id FROM person WHERE name = ?1 AND age > ?2 -- [?1='Pat', ?2=21]".to_string())
    );
}

#[test]
fn query_log_keeps_the_most_recent_entries() {
    let mut log = QueryLog::new();
    log.push(String::new());
    assert!(log.recent().is_empty());
    for i in 0..(QUERY_LOG_CAPACITY + 5) {
        log.push(format!("q{i}"));
    }
    let recent = log.recent();
    assert_eq!(recent.len(), QUERY_LOG_CAPACITY);
    assert_eq!(recent[0], "q5");
    assert_eq!(recent[QUERY_LOG_CAPACITY - 1], format!("q{}", QUERY_LOG_CAPACITY + 4));
    log.clear();
    assert!(log.recent().is_empty());
}

#[test]
fn nested_transactions_number_their_savepoints() {
    let mut depth = TransactionDepth::outer();
    assert_eq!(depth.depth, 1);
    let first = depth.begin_savepoint();
    assert_eq!(first, "__seekwel_savepoint_1");
    let second = depth.begin_savepoint();
    assert_eq!(second, "__seekwel_savepoint_2");
    assert_eq!(depth.depth, 3);
    depth.finish_savepoint();
    depth.finish_savepoint();
    assert_eq!(depth.depth, 1);
    assert_eq!(depth.begin_savepoint(), "__seekwel_savepoint_3");
    assert_eq!(savepoint_sql("s"), "SAVEPOINT s");
    assert_eq!(release_savepoint_sql("s"), "RELEASE SAVEPOINT s");
    assert_eq!(rollback_to_savepoint_sql("s"), "ROLLBACK TO SAVEPOINT s");
}

#[test]
fn recorded_queries_are_logged_normalized() {
    let mut log = QueryLog::new();
    log.record("  SELECT *\n FROM person  ");
    log.record("   ");
    log.record_with_params("SELECT * FROM person WHERE id = ?1", &vec!["7".to_string()]);
    assert_eq!(
        log.recent(),
        vec![
            "SELECT * FROM person".to_string(),
            "SELECT * FROM person WHERE id = ?1 -- [?1=7]".to_string(),
        ]
    );
}

#[test]
fn rollback_always_fails_with_the_rollback_error() {
    let r: Result<u32, seekwel::error::Error> = rollback();
    assert!(matches!(r, Err(seekwel::error::Error::Rollback)));
}
