use skyblock_rs::key::Key;
use skyblock_rs::SkyblockApi;

#[test]
fn disallow() {
    let mut key = Key::new("x", 120, 60);

    for _ in 0..120 {
        key.consume();
    }

    assert_eq!(key.consume(), None);
}

#[test]
fn zero_window_always_admits() {
    let mut key = Key::new_at("x", 2, 0, 5_000);
    for t in 0..50u128 {
        assert_eq!(key.consume_at(5_000 + t * 7), Some("x"));
    }
    let mut fresh = Key::new("y", 0, 0);
    assert_eq!(fresh.consume(), Some("y"));
}

#[test]
fn limit_then_refuse_in_one_window() {
    let mut key = Key::new_at("k", 120, 60, 1_000);
    for i in 0..120u128 {
        assert_eq!(key.consume_at(1_000 + i * 400), Some("k"));
    }
    assert_eq!(key.consume_at(60_999), None);
    assert!(!key.can_use_at(60_999));
}

#[test]
fn new_window_after_expiry() {
    let mut key = Key::new_at("k", 120, 60, 0);
    for _ in 0..120 {
        assert!(key.consume_at(10).is_some());
    }
    assert_eq!(key.consume_at(59_999), None);
    assert!(key.timeout_at(60_000));
    assert!(key.can_use_at(60_000));
    assert_eq!(key.consume_at(60_000), Some("k"));
    // One use counted in the new window: 119 more fit before it refuses.
    for _ in 0..119 {
        assert!(key.consume_at(60_500).is_some());
    }
    assert_eq!(key.consume_at(119_999), None);
    assert!(!key.timeout_at(119_999));
}

#[test]
fn clock_going_back_counts_as_no_time() {
    let key = Key::new_at("k", 1, 1, 10_000);
    assert!(!key.timeout_at(0));
    assert!(!key.timeout_at(10_999));
    assert!(key.timeout_at(11_000));
}

#[test]
fn pool_hands_out_n_times_limit() {
    let mut api = SkyblockApi::pooled(vec!["a", "b", "c"]);
    let mut handed = Vec::new();
    for _ in 0..360 {
        handed.push(api.next_key().unwrap());
    }
    assert_eq!(api.next_key(), None);
    assert!(handed[..120].iter().all(|k| *k == "a"));
    assert!(handed[120..240].iter().all(|k| *k == "b"));
    assert!(handed[240..].iter().all(|k| *k == "c"));
}

#[test]
fn pool_scan_skips_spent_keys() {
    let mut api = SkyblockApi::singleton("only");
    let now = std::time::SystemTime::now()
        .duration_since(std::time::UNIX_EPOCH)
        .unwrap()
        .as_millis();
    for _ in 0..120 {
        assert_eq!(api.next_key_at(now + 1_000), Some("only"));
    }
    assert_eq!(api.next_key_at(now + 1_000), None);
    // Once the window has run out the key is handed out again.
    assert_eq!(api.next_key_at(now + 120_000), Some("only"));
    assert_eq!(api.next_key_at(now + 120_000), Some("only"));
}
