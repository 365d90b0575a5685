use hash_reconcile::extension::ExtensionFilter;
use hash_reconcile::pipeline::Classifier;
use hash_reconcile::record::Record;
use hash_reconcile::scan::PreScan;
use hash_reconcile::store::{open_lookup, Relation};
use rusqlite::Connection;

fn scan_headers() -> Record {
    Record::new(
        ["Name", "Path", "Extension", "Size", "Created", "Modified", "MD5", "SHA1"]
            .iter()
            .map(|h| h.to_string())
            .collect(),
    )
}

fn scan_row(extension: &str, md5: &str, sha1: &str) -> Record {
    Record::new(vec![
        "name".to_string(),
        "path".to_string(),
        extension.to_string(),
        "10".to_string(),
        "c".to_string(),
        "m".to_string(),
        md5.to_string(),
        sha1.to_string(),
    ])
}

fn scan_stream() -> Vec<Record> {
    vec![
        scan_row("txt", "", "a"),
        scan_row("exe", "", "a"),
        scan_row("EXE", "m", "b"),
        scan_row("exe", "", ""),
        scan_row("dll", "c", ""),
        scan_row(".exe", "", " b "),
        scan_row("txt", "d", ""),
    ]
}

#[test]
fn first_pass_counts_records_and_keys() {
    let mut scan = PreScan::new();
    assert_eq!(scan.total_records(), 0);
    assert_eq!(scan.unique_count(), 0);
    for record in scan_stream().iter() {
        scan.observe(record);
    }
    assert_eq!(scan.total_records(), 7);
    assert_eq!(scan.unique_count(), 4);
}

#[test]
fn first_pass_skips_records_without_digest() {
    let mut scan = PreScan::new();
    scan.observe(&scan_row("exe", "", ""));
    scan.observe(&scan_row("exe", "  ", ""));
    scan.observe(&Record::new(vec![]));
    assert_eq!(scan.total_records(), 3);
    assert_eq!(scan.unique_count(), 0);
}

#[test]
fn second_pass_keeps_keys_of_matching_records() {
    let mut scan = PreScan::new();
    for record in scan_stream().iter() {
        scan.observe(record);
    }
    let filter = ExtensionFilter::from_extensions(&vec!["exe".to_string()]).unwrap();
    let mut narrowing = scan.narrow(filter, &scan_headers());
    assert_eq!(narrowing.matching_count(), 0);
    for record in scan_stream().iter() {
        narrowing.observe(record);
    }
    assert_eq!(narrowing.matching_count(), 2);
}

#[test]
fn a_later_duplicate_may_qualify_its_key() {
    let stream = vec![scan_row("txt", "", "a"), scan_row("exe", "", "a")];
    let mut scan = PreScan::new();
    for record in stream.iter() {
        scan.observe(record);
    }
    let filter = ExtensionFilter::from_extensions(&vec!["exe".to_string()]).unwrap();
    let mut narrowing = scan.narrow(filter, &scan_headers());
    narrowing.observe(&stream[0]);
    assert_eq!(narrowing.matching_count(), 0);
    narrowing.observe(&stream[1]);
    assert_eq!(narrowing.matching_count(), 1);
}

#[test]
fn second_pass_ignores_keys_that_the_first_pass_did_not_find() {
    let mut scan = PreScan::new();
    scan.observe(&scan_row("exe", "", "a"));
    let filter = ExtensionFilter::from_extensions(&vec!["exe".to_string()]).unwrap();
    let mut narrowing = scan.narrow(filter, &scan_headers());
    narrowing.observe(&scan_row("exe", "", "zz"));
    narrowing.observe(&scan_row("exe", "", ""));
    assert_eq!(narrowing.matching_count(), 0);
    narrowing.observe(&scan_row("exe", "", "a"));
    assert_eq!(narrowing.matching_count(), 1);
}

#[test]
fn the_scan_sizes_the_classification_pass() {
    let conn = Connection::open_in_memory().unwrap();
    conn.execute_batch("CREATE TABLE FILE (sha1 TEXT, md5 TEXT);").unwrap();
    let mut stmt = open_lookup(&conn, Relation::Fallback).unwrap();
    let mut scan = PreScan::new();
    for record in scan_stream().iter() {
        scan.observe(record);
    }
    let filter = ExtensionFilter::from_extensions(&vec!["exe".to_string()]).unwrap();
    let mut narrowing = scan.narrow(filter, &scan_headers());
    for record in scan_stream().iter() {
        narrowing.observe(record);
    }
    let filter = ExtensionFilter::from_extensions(&vec!["exe".to_string()]);
    let mut pass = Classifier::new(filter, &scan_headers());
    for record in scan_stream() {
        pass.offer(record);
    }
    pass.finish(&mut stmt);
    assert_eq!(pass.counters().unique, narrowing.matching_count() as u64);
    assert_eq!(pass.counters().unique, 2);
}
