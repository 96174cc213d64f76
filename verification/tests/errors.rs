use seekwel::Error;

#[test]
fn driver_errors_read_as_the_driver_writes_them() {
    let expected = rusqlite::Error::QueryReturnedNoRows.to_string();
    assert!(!expected.is_empty());
    assert_eq!(Error::Sqlite(rusqlite::Error::QueryReturnedNoRows).message(), expected);
    assert_eq!(Error::from(rusqlite::Error::QueryReturnedNoRows).message(), expected);
}

#[test]
fn library_errors_name_their_kind() {
    assert_eq!(Error::AlreadyInitialized.message(), "Connection already initialized");
    assert_eq!(Error::NotInitialized.message(), "Connection not initialized");
    assert_eq!(Error::MissingField("name".to_string()).message(), "Missing required field: name");
    assert_eq!(Error::InvalidModel("m".to_string()).message(), "Invalid model: m");
    assert_eq!(Error::InvalidQuery("q".to_string()).message(), "Invalid query: q");
    assert_eq!(Error::InvalidAssociation("a".to_string()).message(), "Invalid association: a");
    assert_eq!(Error::InvalidSchema("s".to_string()).message(), "Invalid schema: s");
    assert_eq!(Error::SchemaBlocked("b".to_string()).message(), "Schema plan blocked: b");
    assert_eq!(Error::SchemaDrift("d".to_string()).message(), "Schema drift detected: d");
    assert_eq!(Error::InvalidParams("p".to_string()).message(), "Invalid params: p");
    assert_eq!(Error::Rollback.message(), "Transaction rolled back");
}
