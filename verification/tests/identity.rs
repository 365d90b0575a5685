use hash_reconcile::identity::{identity_from_trimmed, record_identity, resolve_identity};
use hash_reconcile::record::Record;

fn identity_row(md5: &str, sha1: &str) -> Record {
    Record::new(vec![
        "name".to_string(),
        "path".to_string(),
        "exe".to_string(),
        "10".to_string(),
        "c".to_string(),
        "m".to_string(),
        md5.to_string(),
        sha1.to_string(),
    ])
}

#[test]
fn both_digests_empty_gives_no_identity() {
    assert!(resolve_identity("", "").is_none());
}

#[test]
fn whitespace_only_digests_give_no_identity() {
    assert!(resolve_identity("   ", "\t\n").is_none());
}

#[test]
fn sha1_is_key_and_primary_when_both_present() {
    let id = resolve_identity("md5value", "sha1value").unwrap();
    assert_eq!(id.key, "sha1value");
    assert_eq!(id.primary, "sha1value");
    assert_eq!(id.secondary, "md5value");
}

#[test]
fn md5_alone_fills_every_part() {
    let id = resolve_identity("md5value", "").unwrap();
    assert_eq!(id.key, "md5value");
    assert_eq!(id.primary, "md5value");
    assert_eq!(id.secondary, "md5value");
}

#[test]
fn sha1_alone_fills_every_part() {
    let id = resolve_identity("", "sha1value").unwrap();
    assert_eq!(id.key, "sha1value");
    assert_eq!(id.primary, "sha1value");
    assert_eq!(id.secondary, "sha1value");
}

#[test]
fn digests_are_trimmed() {
    let id = resolve_identity("  aa \t", "\n bb  ").unwrap();
    assert_eq!(id.key, "bb");
    assert_eq!(id.primary, "bb");
    assert_eq!(id.secondary, "aa");
}

#[test]
fn whitespace_sha1_falls_back_to_md5() {
    let id = resolve_identity("aa", "   ").unwrap();
    assert_eq!(id.key, "aa");
    assert_eq!(id.primary, "aa");
    assert_eq!(id.secondary, "aa");
}

#[test]
fn inner_whitespace_is_kept() {
    let id = resolve_identity("", " a b ").unwrap();
    assert_eq!(id.key, "a b");
}

#[test]
fn record_identity_reads_columns_six_and_seven() {
    let id = record_identity(&identity_row("m1", "s1")).unwrap();
    assert_eq!(id.key, "s1");
    assert_eq!(id.secondary, "m1");
}

#[test]
fn short_record_has_no_identity() {
    let record = Record::new(vec!["a".to_string(), "b".to_string()]);
    assert!(record_identity(&record).is_none());
}

#[test]
fn record_with_seven_fields_uses_md5() {
    let record = Record::new(vec![
        "0".to_string(),
        "1".to_string(),
        "2".to_string(),
        "3".to_string(),
        "4".to_string(),
        "5".to_string(),
        "m".to_string(),
    ]);
    let id = record_identity(&record).unwrap();
    assert_eq!(id.key, "m");
    assert_eq!(id.primary, "m");
    assert_eq!(id.secondary, "m");
}

#[test]
fn field_beyond_the_end_is_empty() {
    let record = Record::new(vec!["a".to_string()]);
    assert_eq!(record.field(0), "a");
    assert_eq!(record.field(1), "");
    assert_eq!(record.field(7), "");
    assert_eq!(record.len(), 1);
}

#[test]
fn identity_from_trimmed_takes_the_digests_as_they_stand() {
    assert!(identity_from_trimmed("", "").is_none());
    let id = identity_from_trimmed(" ", "").unwrap();
    assert_eq!(id.key, " ");
    assert_eq!(id.primary, " ");
    assert_eq!(id.secondary, " ");
    let id = identity_from_trimmed("m", " s ").unwrap();
    assert_eq!(id.key, " s ");
    assert_eq!(id.primary, " s ");
    assert_eq!(id.secondary, "m");
}

#[test]
fn every_kind_of_whitespace_is_trimmed() {
    let spaces = "\u{9}\u{a}\u{b}\u{c}\u{d}\u{20}\u{85}\u{a0}\u{1680}\u{2000}\u{2005}\u{200a}\u{2028}\u{2029}\u{202f}\u{205f}\u{3000}";
    assert!(resolve_identity(spaces, spaces).is_none());
    let padded = format!("{}abc{}", spaces, spaces);
    assert_eq!(resolve_identity("", &padded).unwrap().key, "abc");
}

#[test]
fn characters_beside_whitespace_are_kept() {
    let id = resolve_identity("", "\u{200b}abc\u{180e}").unwrap();
    assert_eq!(id.key, "\u{200b}abc\u{180e}");
    let id = resolve_identity("\u{1f}x\u{feff}", "").unwrap();
    assert_eq!(id.key, "\u{1f}x\u{feff}");
}
