use eigeen_loader::error::Error;
use eigeen_loader::repository::{AddressRecord, AddressRepository};

fn record(name: &str, pattern: &str, offset: i64) -> AddressRecord {
    AddressRecord { name: name.to_string(), pattern: pattern.to_string(), offset }
}

#[test]
fn resolves_a_name_to_base_plus_hit_plus_offset() {
    let mut repo = AddressRepository::initialize(vec![record("Core:Thing", "AA BB ? DD", 2)]);
    let image: Vec<u8> = vec![0x00, 0xAA, 0xBB, 0xCC, 0xDD, 0x00];
    let addr = repo.get_address("Core:Thing", &image, 0x14000_0000).unwrap();
    // hit at offset 1, plus the record offset 2
    assert_eq!(addr, 0x14000_0003);
}

#[test]
fn negative_offsets_walk_backwards_from_the_hit() {
    let mut repo = AddressRepository::initialize(vec![record("Back", "BB CC", -1)]);
    let image: Vec<u8> = vec![0xAA, 0xBB, 0xCC];
    assert_eq!(repo.get_address("Back", &image, 0x1000).unwrap(), 0x1000);
}

#[test]
fn second_resolution_is_cached_and_runs_no_scan() {
    let mut repo = AddressRepository::initialize(vec![record("Core:Thing", "AA BB", 0)]);
    let image: Vec<u8> = vec![0xAA, 0xBB];
    assert_eq!(repo.scans_performed(), 0);
    let first = repo.get_address("Core:Thing", &image, 0x4000).unwrap();
    assert_eq!(repo.scans_performed(), 1);
    let second = repo.get_address("Core:Thing", &image, 0x4000).unwrap();
    assert_eq!(first, second);
    assert_eq!(repo.scans_performed(), 1);
    // even against a window that no longer holds the pattern
    let other: Vec<u8> = vec![0x00, 0x00];
    assert_eq!(repo.get_address("Core:Thing", &other, 0x4000).unwrap(), first);
    assert_eq!(repo.scans_performed(), 1);
}

#[test]
fn unknown_names_are_not_managed() {
    let mut repo = AddressRepository::initialize(vec![record("Known", "AA", 0)]);
    let image: Vec<u8> = vec![0xAA];
    let err = repo.get_address("unknown", &image, 0).unwrap_err();
    assert!(matches!(err, Error::PatternUnmanaged(name) if name == "unknown"));
    assert_eq!(repo.scans_performed(), 0);
}

#[test]
fn absent_pattern_is_a_mismatch_not_a_guess() {
    let mut repo = AddressRepository::initialize(vec![record("Gone", "DE AD BE EF", 0)]);
    let image: Vec<u8> = vec![0x00, 0x01, 0x02];
    let err = repo.get_address("Gone", &image, 0).unwrap_err();
    assert!(matches!(err, Error::PatternMismatch(name) if name == "Gone"));
    // the failure is never cached: a later window with the pattern succeeds
    let better: Vec<u8> = vec![0xDE, 0xAD, 0xBE, 0xEF];
    assert_eq!(repo.get_address("Gone", &better, 0x100).unwrap(), 0x100);
}

#[test]
fn malformed_record_pattern_is_a_mismatch() {
    let mut repo = AddressRepository::initialize(vec![record("Bad", "XY ZZ", 0)]);
    let image: Vec<u8> = vec![0xAA];
    let err = repo.get_address("Bad", &image, 0).unwrap_err();
    assert!(matches!(err, Error::PatternMismatch(_)));
    assert_eq!(repo.scans_performed(), 0);
}

#[test]
fn later_records_override_earlier_namesakes() {
    let mut repo = AddressRepository::initialize(vec![
        record("Dup", "AA", 0),
        record("Dup", "BB", 0),
    ]);
    let image: Vec<u8> = vec![0xAA, 0xBB];
    assert_eq!(repo.get_address("Dup", &image, 0).unwrap(), 1);
}

#[test]
fn ad_hoc_scans_bypass_records_and_cache() {
    let mut repo = AddressRepository::initialize(Vec::new());
    let image: Vec<u8> = vec![0x11, 0x22, 0x33];
    assert_eq!(repo.pattern_scan("22 33", &image, 0x2000), Some(0x2001));
    assert_eq!(repo.scans_performed(), 1);
    assert_eq!(repo.pattern_scan("44", &image, 0x2000), None);
    assert_eq!(repo.pattern_scan("not hex", &image, 0x2000), None);
    // the same ad hoc pattern scans again: nothing was cached
    assert_eq!(repo.pattern_scan("22 33", &image, 0x2000), Some(0x2001));
    assert_eq!(repo.scans_performed(), 3);
}
