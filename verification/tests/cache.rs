use serenade::cache::filesystem::{
    checked_entry_file, classify_record, encode_record, entry_file, expiry_to_persist, hex_key,
    is_expired_at,
    parse_record, persist_expiry, validate_prefix, CacheError, FilesystemAdapterConfig,
    StoredEntry,
};

#[test]
fn config_accessors_and_prefix() {
    let config = FilesystemAdapterConfig::new("/var/cache");
    assert_eq!(config.directory(), "/var/cache");
    assert_eq!(config.prefix(), "serenade");
    let config = config.with_prefix("pool");
    assert_eq!(config.prefix(), "pool");
}

#[test]
fn prefix_edge_cases_rejected() {
    for bad in ["", ".", "..", "a/b", "a\\b"] {
        assert!(matches!(
            validate_prefix(bad),
            Err(CacheError::Pool { .. })
        ));
    }
    assert!(validate_prefix("pool").is_ok());
    assert!(validate_prefix("...").is_ok());
}

#[test]
fn key_file_names_are_hex() {
    assert_eq!(hex_key("ab"), "6162");
    assert_eq!(hex_key("é"), "c3a9");
    assert_eq!(entry_file("k"), "6b.cache");
}

#[test]
fn record_roundtrip_and_corruption() {
    let record = encode_record(0x0102_0304_0506_0708, b"payload");
    assert_eq!(&record[..5], b"SCFS\x01");
    assert_eq!(&record[5..13], &[8, 7, 6, 5, 4, 3, 2, 1]);
    assert_eq!(
        parse_record(&record),
        Some((0x0102_0304_0506_0708, b"payload".to_vec()))
    );
    assert_eq!(parse_record(b"SCFS"), None);
    assert_eq!(parse_record(b"XCFS\x01\0\0\0\0\0\0\0\0"), None);
    assert_eq!(parse_record(b"SCFS\x02\0\0\0\0\0\0\0\0"), None);
    assert_eq!(parse_record(b"SCFS\x01\0\0\0\0\0\0\0\0"), Some((0, Vec::new())));
}

#[test]
fn expiry_rules() {
    assert!(!is_expired_at(0, u64::MAX));
    assert!(is_expired_at(10, 10));
    assert!(!is_expired_at(11, 10));
    assert_eq!(expiry_to_persist(100, 100), 101);
    assert_eq!(expiry_to_persist(100, 50), 101);
    assert_eq!(expiry_to_persist(100, 150), 150);
    assert_eq!(expiry_to_persist(u64::MAX, 5), u64::MAX);
}

#[test]
fn classify_stored_bytes() {
    assert!(matches!(classify_record(b"junk", 5), StoredEntry::Corrupt));
    let expired = encode_record(5, b"x");
    assert!(matches!(classify_record(&expired, 5), StoredEntry::Expired));
    match classify_record(&expired, 4) {
        StoredEntry::Live { expires_unix_ms, payload } => {
            assert_eq!(expires_unix_ms, 5);
            assert_eq!(payload, b"x");
        }
        _ => panic!("live entry expected"),
    }
    let forever = encode_record(0, b"y");
    assert!(matches!(classify_record(&forever, u64::MAX), StoredEntry::Live { .. }));
}

#[test]
fn cache_error_message() {
    assert_eq!(
        CacheError::Pool { message: String::from("x") }.message(),
        "cache pool: x"
    );
}

#[test]
fn persist_expiry_from_time_to_live() {
    assert_eq!(persist_expiry(1_000, None), Some(0));
    assert_eq!(persist_expiry(1_000, Some(0)), None);
    assert_eq!(persist_expiry(1_000, Some(250)), Some(1_250));
    assert_eq!(persist_expiry(u64::MAX - 1, Some(10)), Some(u64::MAX));
}

#[test]
fn empty_key_names_no_entry() {
    match checked_entry_file("") {
        Err(e) => {
            assert!(matches!(e, CacheError::InvalidKey { ref key } if key.is_empty()));
            assert_eq!(e.message(), "invalid cache key \"\": a key must not be empty");
        }
        Ok(_) => panic!("the empty key must be refused"),
    }
    assert_eq!(checked_entry_file("k").expect("entry"), entry_file("k"));
}
