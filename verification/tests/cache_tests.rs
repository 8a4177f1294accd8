use ytm::cache::{entry_json, Cache};

#[test]
fn test_cache_put_and_get() {
    let cache = Cache::new("/tmp/ytm-test-cache".to_string(), 60_000);

    // what a put writes for the payload, stamped at one second in
    let written = entry_json(1000, "{\"value\":\"test_value\"}");

    // a get within the time-to-live hands the payload back
    let retrieved = cache.fresh_payload(&Some(written), 2000);
    assert_eq!(retrieved, Some("{\"value\":\"test_value\"}".to_string()));
}

#[test]
fn test_cache_expiry() {
    // Very short TTL for testing
    let cache = Cache::new("/tmp/ytm-test-cache".to_string(), 50);

    let written = entry_json(0, "{\"value\":\"expired_test\"}");

    // Read well past the expiry
    let retrieved = cache.fresh_payload(&Some(written), 100);
    assert_eq!(retrieved, None);
}

#[test]
fn test_cache_nonexistent_key() {
    let cache = Cache::new("/tmp/ytm-test-cache".to_string(), 60_000);

    // no file for the key: nothing was read, nothing comes back
    let retrieved = cache.fresh_payload(&None, 0);
    assert_eq!(retrieved, None);
}

#[test]
fn key_paths_encode_the_key() {
    let cache = Cache::new("/tmp/ytm-cache".to_string(), 3600000);
    // "test_key" in standard base64
    assert_eq!(cache.key_path("test_key"), "/tmp/ytm-cache/dGVzdF9rZXk=.json");
}

#[test]
fn entry_envelope_has_the_wire_shape() {
    let written = entry_json(1000, "\"test_value\"");
    assert_eq!(written, "{\"timestamp_millis\":1000,\"data\":\"test_value\"}");
}

#[test]
fn absent_or_broken_entries_read_as_nothing() {
    let cache = Cache::new("/tmp/ytm-cache".to_string(), 60000);
    assert_eq!(cache.fresh_payload(&Some("not json".to_string()), 0), None);
    assert_eq!(
        cache.fresh_payload(&Some("{\"data\":\"x\"}".to_string()), 0),
        None
    );
}

#[test]
fn freshness_is_measured_against_the_ttl() {
    let cache = Cache::new("/tmp/ytm-cache".to_string(), 50);
    assert!(cache.is_fresh(100, 60));
    assert!(cache.is_fresh(110, 60));
    assert!(!cache.is_fresh(111, 60));
    // a future-dated entry is not older than the time-to-live
    assert!(cache.is_fresh(10, 60));
}

#[test]
fn entries_of_another_shape_read_as_nothing() {
    let cache = Cache::new("/tmp/ytm-cache".to_string(), 60000);
    // whitespace the envelope writer never emits
    let loose = "{ \"timestamp_millis\": 1, \"data\": 1 }".to_string();
    assert_eq!(cache.fresh_payload(&Some(loose), 0), None);
}

#[test]
fn structured_payloads_pass_through_unparsed() {
    let cache = Cache::new("/tmp/ytm-cache".to_string(), 60000);
    let written = entry_json(5, "[{\"id\":\"a\"},{\"id\":\"b\"}]");
    let payload = cache.fresh_payload(&Some(written), 10);
    assert_eq!(payload, Some("[{\"id\":\"a\"},{\"id\":\"b\"}]".to_string()));
}
