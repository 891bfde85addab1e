use eigeen_loader::memory::{scan_all, scan_first, space_hex_to_bytes};
use eigeen_loader::pattern::{parse_pattern, scan, scan_first_match, PatternError, PatternToken};

#[test]
fn test_pattern_scan() {
    let pattern =
        "81 08 10 00 00 48 ? ? ? ? ? ? 66 44 89 01 48 3B D0 74 ? 44 89 ? ? ? ? ? 44 88 00";
    let bytes = space_hex_to_bytes("45 33 C0 48 8D 81 08 10 00 00 48 8D 15 B7 FF AA 00 66 44 89 01 48 3B D0 74 0A 44 89 81 04 10 00 00 44 88 00").unwrap();
    let bytes_slice = bytes.as_slice();
    scan_first_match(bytes_slice, pattern).unwrap();
}

#[test]
fn first_match_offset_is_earliest() {
    let pattern =
        "81 08 10 00 00 48 ? ? ? ? ? ? 66 44 89 01 48 3B D0 74 ? 44 89 ? ? ? ? ? 44 88 00";
    let bytes = space_hex_to_bytes("45 33 C0 48 8D 81 08 10 00 00 48 8D 15 B7 FF AA 00 66 44 89 01 48 3B D0 74 0A 44 89 81 04 10 00 00 44 88 00").unwrap();
    assert_eq!(scan_first_match(&bytes, pattern).unwrap(), Some(5));
}

#[test]
fn literal_pattern_found_once_yields_its_offset() {
    let buffer: Vec<u8> = vec![0x10, 0x20, 0xAA, 0xBB, 0xCC, 0x30];
    let offsets = scan(&buffer, "AA BB CC").unwrap();
    assert_eq!(offsets, vec![2]);
    assert_eq!(scan_first_match(&buffer, "AA BB CC").unwrap(), Some(2));
}

#[test]
fn wildcard_spellings_are_interchangeable() {
    let buffer: Vec<u8> = vec![0x48, 0x00, 0x15, 0x48, 0xFF, 0x15];
    let expected = vec![0, 3];
    for pattern in ["48 ? 15", "48 ?? 15", "48 * 15", "48 ** 15"] {
        assert_eq!(scan(&buffer, pattern).unwrap(), expected);
    }
}

#[test]
fn adjacent_wildcards_match_any_bytes() {
    let buffer: Vec<u8> = vec![0x01, 0xDE, 0xAD, 0x04];
    assert_eq!(scan(&buffer, "01 ? ?? 04").unwrap(), vec![0]);
}

#[test]
fn pattern_longer_than_buffer_is_not_found() {
    let buffer: Vec<u8> = vec![0xAA, 0xBB];
    assert_eq!(scan_first_match(&buffer, "AA BB CC").unwrap(), None);
    assert!(scan(&buffer, "AA BB CC").unwrap().is_empty());
    let empty: Vec<u8> = Vec::new();
    assert_eq!(scan_first_match(&empty, "AA").unwrap(), None);
}

#[test]
fn empty_pattern_is_malformed() {
    let buffer: Vec<u8> = vec![0xAA];
    assert_eq!(parse_pattern("").unwrap_err(), PatternError::EmptyPattern);
    assert_eq!(parse_pattern("   ").unwrap_err(), PatternError::EmptyPattern);
    assert_eq!(scan_first_match(&buffer, "").unwrap_err(), PatternError::EmptyPattern);
}

#[test]
fn malformed_tokens_are_rejected_distinctly() {
    let buffer: Vec<u8> = vec![0xAA];
    assert_eq!(parse_pattern("GG").unwrap_err(), PatternError::MalformedToken);
    assert_eq!(parse_pattern("AAA").unwrap_err(), PatternError::MalformedToken);
    assert_eq!(parse_pattern("A B ?*").unwrap_err(), PatternError::MalformedToken);
    assert_eq!(scan_first_match(&buffer, "ZZ").unwrap_err(), PatternError::MalformedToken);
}

#[test]
fn tokens_parse_to_literals_and_wildcards() {
    let tokens = parse_pattern("a 0F ? FF").unwrap();
    assert_eq!(
        tokens,
        vec![
            PatternToken::Literal(0x0A),
            PatternToken::Literal(0x0F),
            PatternToken::Wildcard,
            PatternToken::Literal(0xFF),
        ]
    );
}

#[test]
fn scan_reports_every_match_in_order() {
    let buffer: Vec<u8> = vec![0x01, 0x01, 0x01];
    assert_eq!(scan(&buffer, "01 01").unwrap(), vec![0, 1]);
}

#[test]
fn window_scans_add_the_base_address() {
    let buffer: Vec<u8> = vec![0x10, 0xAA, 0x10, 0xAA];
    assert_eq!(scan_first(&buffer, 0x1000, "10 AA").unwrap(), 0x1000);
    assert_eq!(scan_all(&buffer, 0x1000, "10 AA").unwrap(), vec![0x1000, 0x1002]);
    let missing = scan_first(&buffer, 0x1000, "10 AB");
    assert!(matches!(
        missing,
        Err(eigeen_loader::error::MemoryError::NotFound)
    ));
}

#[test]
fn space_hex_accepts_wildcards_as_placeholder_bytes() {
    assert_eq!(
        space_hex_to_bytes("45 ? ?? * ** 0a").unwrap(),
        vec![0x45, 0xFF, 0xFF, 0xFF, 0xFF, 0x0A]
    );
    assert_eq!(space_hex_to_bytes("").unwrap(), Vec::<u8>::new());
    assert_eq!(space_hex_to_bytes("+7f 0").unwrap(), vec![0x7F, 0x00]);
    assert!(space_hex_to_bytes("45 GG").is_err());
    assert!(space_hex_to_bytes("100").is_err());
    assert!(space_hex_to_bytes("+").is_err());
    assert_eq!(space_hex_to_bytes("00ff").unwrap(), vec![0xFF]);
}
