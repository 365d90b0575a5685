use hash_reconcile::store::{
    after_probe, after_statement, create_index_statement, determine_table_and_query,
    ensure_indexes, index_name, index_probe_statement, lookup_query, missing_index_statements,
    open_lookup, selected, Relation, Selection, StoreError,
};
use rusqlite::Connection;

fn store_with(sql: &str) -> Connection {
    let conn = Connection::open_in_memory().unwrap();
    conn.execute_batch(sql).unwrap();
    conn
}

fn index_exists(conn: &Connection, name: &str) -> bool {
    conn.query_row(
        "SELECT EXISTS(SELECT 1 FROM sqlite_master WHERE type='index' AND name=?)",
        [name],
        |row| row.get(0),
    )
    .unwrap()
}

#[test]
fn relation_names() {
    assert_eq!(Relation::Preferred.name(), "METADATA");
    assert_eq!(Relation::Fallback.name(), "FILE");
}

#[test]
fn lookup_query_text() {
    assert_eq!(
        lookup_query("METADATA"),
        "SELECT EXISTS(SELECT 1 FROM METADATA WHERE sha1 = ? OR md5 = ?)"
    );
    assert_eq!(
        lookup_query("FILE"),
        "SELECT EXISTS(SELECT 1 FROM FILE WHERE sha1 = ? OR md5 = ?)"
    );
}

#[test]
fn index_statement_text() {
    assert_eq!(index_name("METADATA", "sha1"), "METADATA_sha1_idx");
    assert_eq!(
        create_index_statement("FILE", "md5"),
        "CREATE INDEX IF NOT EXISTS FILE_md5_idx ON FILE (md5)"
    );
}

#[test]
fn missing_index_statements_lists_what_is_absent() {
    assert_eq!(
        missing_index_statements("T", false, false),
        vec![
            "CREATE INDEX IF NOT EXISTS T_sha1_idx ON T (sha1)".to_string(),
            "CREATE INDEX IF NOT EXISTS T_md5_idx ON T (md5)".to_string(),
        ]
    );
    assert_eq!(
        missing_index_statements("T", true, false),
        vec!["CREATE INDEX IF NOT EXISTS T_md5_idx ON T (md5)".to_string()]
    );
    assert_eq!(
        missing_index_statements("T", false, true),
        vec!["CREATE INDEX IF NOT EXISTS T_sha1_idx ON T (sha1)".to_string()]
    );
    assert!(missing_index_statements("T", true, true).is_empty());
}

#[test]
fn probe_answers_move_the_search() {
    assert!(matches!(
        after_probe(Relation::Preferred, Ok(true)),
        Selection::Chosen(Relation::Preferred)
    ));
    assert!(matches!(after_probe(Relation::Preferred, Ok(false)), Selection::TryNext));
    assert!(matches!(
        after_probe(Relation::Fallback, Ok(true)),
        Selection::Chosen(Relation::Fallback)
    ));
    assert!(matches!(
        after_probe(Relation::Fallback, Ok(false)),
        Selection::Failed(StoreError::NoReferenceRelation)
    ));
    assert!(matches!(
        after_probe(Relation::Preferred, Err(rusqlite::Error::InvalidQuery)),
        Selection::Failed(StoreError::Query(rusqlite::Error::InvalidQuery))
    ));
}

#[test]
fn preferred_relation_is_chosen_when_present() {
    let conn = store_with(
        "CREATE TABLE METADATA (sha1 TEXT, md5 TEXT); CREATE TABLE FILE (sha1 TEXT, md5 TEXT);",
    );
    let (relation, name, query) = determine_table_and_query(&conn).unwrap();
    assert_eq!(relation, Relation::Preferred);
    assert_eq!(name, "METADATA");
    assert_eq!(query, "SELECT EXISTS(SELECT 1 FROM METADATA WHERE sha1 = ? OR md5 = ?)");
}

#[test]
fn fallback_table_is_chosen_when_preferred_is_absent() {
    let conn = store_with("CREATE TABLE FILE (sha1 TEXT, md5 TEXT);");
    let (relation, name, query) = determine_table_and_query(&conn).unwrap();
    assert_eq!(relation, Relation::Fallback);
    assert_eq!(name, "FILE");
    assert_eq!(query, "SELECT EXISTS(SELECT 1 FROM FILE WHERE sha1 = ? OR md5 = ?)");
}

#[test]
fn fallback_view_is_accepted() {
    let conn = store_with(
        "CREATE TABLE raw (sha1 TEXT, md5 TEXT); CREATE VIEW FILE AS SELECT sha1, md5 FROM raw;",
    );
    let (relation, name, _) = determine_table_and_query(&conn).unwrap();
    assert_eq!(relation, Relation::Fallback);
    assert_eq!(name, "FILE");
}

#[test]
fn preferred_view_is_not_accepted() {
    let conn = store_with(
        "CREATE TABLE raw (sha1 TEXT, md5 TEXT); CREATE VIEW METADATA AS SELECT sha1, md5 FROM raw;",
    );
    assert!(matches!(determine_table_and_query(&conn), Err(StoreError::NoReferenceRelation)));
}

#[test]
fn missing_relations_are_reported() {
    let conn = store_with("CREATE TABLE other (sha1 TEXT, md5 TEXT);");
    assert!(matches!(determine_table_and_query(&conn), Err(StoreError::NoReferenceRelation)));
}

#[test]
fn ensure_indexes_creates_both_indexes() {
    let conn = store_with("CREATE TABLE METADATA (sha1 TEXT, md5 TEXT);");
    assert!(ensure_indexes(&conn, "METADATA").is_ok());
    assert!(index_exists(&conn, "METADATA_sha1_idx"));
    assert!(index_exists(&conn, "METADATA_md5_idx"));
}

#[test]
fn ensure_indexes_is_idempotent() {
    let conn = store_with("CREATE TABLE FILE (sha1 TEXT, md5 TEXT);");
    assert!(ensure_indexes(&conn, "FILE").is_ok());
    assert!(ensure_indexes(&conn, "FILE").is_ok());
    let count: i64 = conn
        .query_row("SELECT COUNT(*) FROM sqlite_master WHERE type='index'", [], |row| row.get(0))
        .unwrap();
    assert_eq!(count, 2);
}

#[test]
fn ensure_indexes_creates_only_the_missing_index() {
    let conn = store_with(
        "CREATE TABLE FILE (sha1 TEXT, md5 TEXT); CREATE INDEX FILE_sha1_idx ON FILE (sha1);",
    );
    assert!(ensure_indexes(&conn, "FILE").is_ok());
    assert!(index_exists(&conn, "FILE_md5_idx"));
}

#[test]
fn ensure_indexes_fails_on_a_view() {
    let conn = store_with(
        "CREATE TABLE raw (sha1 TEXT, md5 TEXT); CREATE VIEW FILE AS SELECT sha1, md5 FROM raw;",
    );
    assert!(matches!(ensure_indexes(&conn, "FILE"), Err(StoreError::Query(_))));
}

#[test]
fn index_probe_statement_text() {
    assert_eq!(
        index_probe_statement(),
        "SELECT EXISTS(SELECT 1 FROM sqlite_master WHERE type='index' AND name=?)"
    );
}

#[test]
fn selected_relation_comes_with_its_own_statement() {
    assert_eq!(
        selected(Relation::Preferred),
        (
            "METADATA".to_string(),
            "SELECT EXISTS(SELECT 1 FROM METADATA WHERE sha1 = ? OR md5 = ?)".to_string()
        )
    );
    assert_eq!(
        selected(Relation::Fallback),
        (
            "FILE".to_string(),
            "SELECT EXISTS(SELECT 1 FROM FILE WHERE sha1 = ? OR md5 = ?)".to_string()
        )
    );
}

#[test]
fn statement_outcomes() {
    assert!(after_statement(Ok(0)).is_ok());
    assert!(after_statement(Ok(7)).is_ok());
    assert!(matches!(
        after_statement(Err(rusqlite::Error::InvalidQuery)),
        Err(StoreError::Query(rusqlite::Error::InvalidQuery))
    ));
}

#[test]
fn a_refused_statement_ends_the_work() {
    let conn = store_with(
        "CREATE TABLE FILE (md5 TEXT); CREATE INDEX FILE_md5_idx ON FILE (md5);",
    );
    assert!(matches!(ensure_indexes(&conn, "FILE"), Err(StoreError::Query(_))));
    assert!(!index_exists(&conn, "FILE_sha1_idx"));
    let conn = store_with("CREATE TABLE FILE (sha1 TEXT);");
    assert!(matches!(ensure_indexes(&conn, "FILE"), Err(StoreError::Query(_))));
    assert!(index_exists(&conn, "FILE_sha1_idx"));
    assert!(!index_exists(&conn, "FILE_md5_idx"));
}

#[test]
fn lookup_opens_on_the_relation_that_is_there() {
    let conn = store_with("CREATE TABLE METADATA (sha1 TEXT, md5 TEXT);");
    assert!(open_lookup(&conn, Relation::Preferred).is_ok());
    assert!(matches!(open_lookup(&conn, Relation::Fallback), Err(StoreError::Query(_))));
}

#[test]
fn lookup_needs_both_digest_columns() {
    let conn = store_with("CREATE TABLE FILE (sha1 TEXT);");
    assert!(matches!(open_lookup(&conn, Relation::Fallback), Err(StoreError::Query(_))));
}

#[test]
fn lookup_opens_inside_a_transaction() {
    let mut conn = store_with("CREATE TABLE FILE (sha1 TEXT, md5 TEXT);");
    let tx = conn.transaction().unwrap();
    let lookup = open_lookup(&tx, Relation::Fallback);
    assert!(lookup.is_ok());
    drop(lookup);
    tx.commit().unwrap();
}
