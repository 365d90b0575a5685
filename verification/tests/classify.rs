use hash_reconcile::classify::{next_step, process_batch, settle, Counters, Decision, Route, Step};
use hash_reconcile::record::Record;
use hash_reconcile::store::{open_lookup, Relation};
use hash_reconcile::StringHashSet;
use rusqlite::Connection;

fn reference_store(rows: &[(&str, &str)]) -> Connection {
    let conn = Connection::open_in_memory().unwrap();
    conn.execute_batch("CREATE TABLE METADATA (sha1 TEXT, md5 TEXT);").unwrap();
    for (sha1, md5) in rows {
        conn.execute("INSERT INTO METADATA (sha1, md5) VALUES (?, ?)", [sha1, md5]).unwrap();
    }
    conn
}

fn digest_row(md5: &str, sha1: &str) -> Record {
    Record::new(vec![
        "name".to_string(),
        "path".to_string(),
        "exe".to_string(),
        "10".to_string(),
        "c".to_string(),
        "m".to_string(),
        md5.to_string(),
        sha1.to_string(),
    ])
}

fn classify_once(conn: &Connection, batch: &Vec<Record>) -> (Vec<Decision>, Counters, usize) {
    let mut stmt = open_lookup(conn, Relation::Preferred).unwrap();
    let mut counters = Counters::new();
    let mut seen = StringHashSet::new();
    let outcome = process_batch(batch, &mut stmt, &mut counters, &mut seen);
    assert!(outcome.failures.is_empty());
    (outcome.decisions, counters, seen.len())
}

#[test]
fn five_row_scenario() {
    let conn = reference_store(&[("def", "")]);
    let batch = vec![
        digest_row("", "abc"),
        digest_row("", "abc"),
        digest_row("", "def"),
        digest_row("", ""),
        digest_row("xyz", ""),
    ];
    let (decisions, counters, unique) = classify_once(&conn, &batch);
    assert_eq!(
        decisions,
        vec![
            Decision::Unknown,
            Decision::Duplicate,
            Decision::Known,
            Decision::NoIdentity,
            Decision::Unknown,
        ]
    );
    assert_eq!(counters.known, 1);
    assert_eq!(counters.unknown, 3);
    assert_eq!(counters.duplicates, 1);
    assert_eq!(counters.empty_hash, 1);
    assert_eq!(counters.unique, 3);
    assert_eq!(counters.records, 5);
    assert_eq!(counters.lookup_errors, 0);
    assert_eq!(unique, 3);
}

#[test]
fn empty_store_knows_nothing() {
    let conn = reference_store(&[]);
    let batch = vec![
        digest_row("m1", "s1"),
        digest_row("m2", ""),
        digest_row("", "s3"),
        digest_row("", ""),
        digest_row("m1", "s1"),
    ];
    let (decisions, counters, _) = classify_once(&conn, &batch);
    assert_eq!(
        decisions,
        vec![
            Decision::Unknown,
            Decision::Unknown,
            Decision::Unknown,
            Decision::NoIdentity,
            Decision::Duplicate,
        ]
    );
    assert_eq!(counters.known, 0);
    assert_eq!(counters.unknown, 4);
}

#[test]
fn sha1_match_is_known_whatever_the_md5() {
    let conn = reference_store(&[("s1", "m1")]);
    let batch = vec![digest_row("", "s1")];
    assert_eq!(classify_once(&conn, &batch).0, vec![Decision::Known]);
    let batch = vec![digest_row("other", "s1")];
    assert_eq!(classify_once(&conn, &batch).0, vec![Decision::Known]);
}

#[test]
fn md5_match_is_known_whatever_the_sha1() {
    let conn = reference_store(&[("s1", "m1")]);
    let batch = vec![digest_row("m1", "other")];
    assert_eq!(classify_once(&conn, &batch).0, vec![Decision::Known]);
    let batch = vec![digest_row("m1", "")];
    assert_eq!(classify_once(&conn, &batch).0, vec![Decision::Known]);
}

#[test]
fn lone_sha1_is_compared_with_both_columns() {
    let conn = reference_store(&[("s1", "m1")]);
    let batch = vec![digest_row("", "m1")];
    assert_eq!(classify_once(&conn, &batch).0, vec![Decision::Known]);
}

#[test]
fn md5_is_not_compared_with_the_sha1_column_when_sha1_is_present() {
    let conn = reference_store(&[("s1", "m1")]);
    let batch = vec![digest_row("s1", "zz")];
    assert_eq!(classify_once(&conn, &batch).0, vec![Decision::Unknown]);
}

#[test]
fn digests_are_trimmed_before_the_lookup() {
    let conn = reference_store(&[("s1", "m1")]);
    let batch = vec![digest_row("", "  s1 \t"), digest_row("", "s1")];
    assert_eq!(classify_once(&conn, &batch).0, vec![Decision::Known, Decision::Duplicate]);
}

#[test]
fn records_without_digest_are_unknown_and_counted() {
    let conn = reference_store(&[("", "")]);
    let batch = vec![digest_row("", ""), digest_row("  ", " "), Record::new(vec![])];
    let (decisions, counters, unique) = classify_once(&conn, &batch);
    assert_eq!(decisions, vec![Decision::NoIdentity, Decision::NoIdentity, Decision::NoIdentity]);
    assert_eq!(counters.unknown, 3);
    assert_eq!(counters.empty_hash, 3);
    assert_eq!(counters.known, 0);
    assert_eq!(counters.unique, 0);
    assert_eq!(unique, 0);
}

#[test]
fn key_shared_across_digest_columns_is_a_duplicate() {
    let conn = reference_store(&[]);
    let batch = vec![digest_row("", "x"), digest_row("x", "")];
    assert_eq!(classify_once(&conn, &batch).0, vec![Decision::Unknown, Decision::Duplicate]);
}

#[test]
fn duplicates_of_a_known_record_are_dropped() {
    let conn = reference_store(&[("s1", "m1")]);
    let batch = vec![digest_row("m1", "s1"), digest_row("m9", "s1"), digest_row("", "s1")];
    let (decisions, counters, _) = classify_once(&conn, &batch);
    assert_eq!(decisions, vec![Decision::Known, Decision::Duplicate, Decision::Duplicate]);
    assert_eq!(counters.known, 1);
    assert_eq!(counters.duplicates, 2);
    assert_eq!(counters.unknown, 0);
}

#[test]
fn failed_lookup_counts_as_unknown_and_as_error() {
    let conn = reference_store(&[("s1", "m1")]);
    let mut stmt = open_lookup(&conn, Relation::Preferred).unwrap();
    conn.execute_batch("DROP TABLE METADATA;").unwrap();
    let mut counters = Counters::new();
    let mut seen = StringHashSet::new();
    let batch = vec![digest_row("m1", "s1"), digest_row("", ""), digest_row("m1", "s1")];
    let outcome = process_batch(&batch, &mut stmt, &mut counters, &mut seen);
    assert_eq!(
        outcome.decisions,
        vec![Decision::LookupFailed, Decision::NoIdentity, Decision::Duplicate]
    );
    assert_eq!(outcome.failures.len(), 1);
    assert_eq!(outcome.failures[0].record, 0);
    assert!(matches!(outcome.failures[0].error, rusqlite::Error::SqliteFailure(_, _)));
    assert!(outcome.failures[0].error.to_string().contains("METADATA"));
    assert_eq!(counters.lookup_errors, 1);
    assert_eq!(counters.unknown, 2);
    assert_eq!(counters.known, 0);
    assert_eq!(counters.unique, 1);
}

#[test]
fn keys_carry_over_between_batches() {
    let conn = reference_store(&[("s1", "m1")]);
    let mut stmt = open_lookup(&conn, Relation::Preferred).unwrap();
    let mut counters = Counters::new();
    let mut seen = StringHashSet::new();
    let first = vec![digest_row("", "s1"), digest_row("", "s2")];
    let second = vec![digest_row("", "s2"), digest_row("", "s3"), digest_row("", "s1")];
    assert_eq!(
        process_batch(&first, &mut stmt, &mut counters, &mut seen).decisions,
        vec![Decision::Known, Decision::Unknown]
    );
    assert_eq!(
        process_batch(&second, &mut stmt, &mut counters, &mut seen).decisions,
        vec![Decision::Duplicate, Decision::Unknown, Decision::Duplicate]
    );
    assert_eq!(counters.records, 5);
    assert_eq!(counters.unique, 3);
    assert_eq!(counters.duplicates, 2);
    assert_eq!(seen.len(), 3);
}

#[test]
fn classifying_twice_gives_the_same_outcome() {
    let conn = reference_store(&[("s1", "m1"), ("s4", "m4")]);
    let batch = vec![
        digest_row("m1", ""),
        digest_row("", "s2"),
        digest_row("", ""),
        digest_row("m1", ""),
        digest_row("m4", "s9"),
    ];
    let first = classify_once(&conn, &batch);
    let second = classify_once(&conn, &batch);
    assert_eq!(first.0, second.0);
    assert_eq!(first.1, second.1);
    assert_eq!(first.2, second.2);
}

#[test]
fn known_and_unknown_add_up_to_unique_and_empty() {
    let conn = reference_store(&[("s1", "m1")]);
    let batch = vec![
        digest_row("m1", "s1"),
        digest_row("", ""),
        digest_row("m2", "s2"),
        digest_row("m1", "s1"),
        digest_row("", ""),
        digest_row("m3", ""),
    ];
    let (_, counters, unique) = classify_once(&conn, &batch);
    assert_eq!(counters.known + counters.unknown, counters.unique + counters.empty_hash);
    assert_eq!(counters.known + counters.unknown + counters.duplicates, counters.records);
    assert_eq!(counters.unique, unique as u64);
    assert_eq!(counters.known, 1);
    assert_eq!(counters.unknown, 4);
    assert_eq!(counters.duplicates, 1);
}

#[test]
fn empty_batch_changes_nothing() {
    let conn = reference_store(&[]);
    let (decisions, counters, unique) = classify_once(&conn, &vec![]);
    assert!(decisions.is_empty());
    assert_eq!(counters, Counters::new());
    assert_eq!(unique, 0);
}

#[test]
fn next_step_needs_no_lookup_without_digest() {
    let mut seen = StringHashSet::new();
    assert!(matches!(next_step(&digest_row("", ""), &mut seen), Step::NoIdentity));
    assert_eq!(seen.len(), 0);
}

#[test]
fn next_step_asks_once_per_key() {
    let mut seen = StringHashSet::new();
    match next_step(&digest_row("m", "s"), &mut seen) {
        Step::Lookup(id) => {
            assert_eq!(id.key, "s");
            assert_eq!(id.primary, "s");
            assert_eq!(id.secondary, "m");
        }
        _ => panic!("a new key is looked up"),
    }
    assert!(seen.contains("s"));
    assert!(matches!(next_step(&digest_row("other", "s"), &mut seen), Step::Duplicate));
    assert_eq!(seen.len(), 1);
}

#[test]
fn settle_reads_the_answer() {
    assert_eq!(settle(&Ok(true)), Decision::Known);
    assert_eq!(settle(&Ok(false)), Decision::Unknown);
    assert_eq!(settle(&Err(rusqlite::Error::QueryReturnedNoRows)), Decision::LookupFailed);
}

#[test]
fn routes_of_decisions() {
    assert_eq!(Decision::Known.route(), Route::Known);
    assert_eq!(Decision::Unknown.route(), Route::Unknown);
    assert_eq!(Decision::NoIdentity.route(), Route::Unknown);
    assert_eq!(Decision::LookupFailed.route(), Route::Unknown);
    assert_eq!(Decision::Duplicate.route(), Route::Dropped);
}

#[test]
fn counting_one_decision_of_each_kind() {
    let mut counters = Counters::new();
    counters.count(Decision::Known);
    counters.count(Decision::Unknown);
    counters.count(Decision::NoIdentity);
    counters.count(Decision::LookupFailed);
    counters.count(Decision::Duplicate);
    assert_eq!(
        counters,
        Counters {
            records: 5,
            unique: 3,
            empty_hash: 1,
            known: 1,
            unknown: 3,
            duplicates: 1,
            lookup_errors: 1,
        }
    );
}

#[test]
fn failures_name_their_records_in_order() {
    let conn = reference_store(&[]);
    let mut stmt = open_lookup(&conn, Relation::Preferred).unwrap();
    conn.execute_batch("DROP TABLE METADATA;").unwrap();
    let mut counters = Counters::new();
    let mut seen = StringHashSet::new();
    let batch = vec![
        digest_row("", ""),
        digest_row("", "a"),
        digest_row("", "a"),
        digest_row("b", ""),
        digest_row("", ""),
        digest_row("c", "d"),
    ];
    let outcome = process_batch(&batch, &mut stmt, &mut counters, &mut seen);
    let positions: Vec<usize> = outcome.failures.iter().map(|f| f.record).collect();
    assert_eq!(positions, vec![1, 3, 5]);
    assert_eq!(counters.lookup_errors, 3);
    assert_eq!(outcome.decisions.len(), 6);
}
