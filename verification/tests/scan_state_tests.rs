use adapter_macos::scan_state::{
    build_scan_key, fingerprint_bytes, is_bot_like_author, is_too_old, is_too_short,
    make_envelope, new_target_state, record_not_found, record_success, skip_reason, ScanStatus,
    BACKOFF_SCAN_INTERVAL_SECS, NORMAL_MIN_SCAN_INTERVAL_SECS, STALE_RECHECK_INTERVAL_SECS,
    STALE_SKIP_AFTER_SECS,
};

const NOW: i64 = 1_776_081_600;

#[test]
fn build_scan_key_combines_provider_and_target() {
    assert_eq!(
        build_scan_key("reddit", "https://old.reddit.com/r/rust.json?limit=20"),
        "reddit:https://old.reddit.com/r/rust.json?limit=20"
    );
}

#[test]
fn skip_reason_honors_backoff_and_stale_targets() {
    let mut entry = new_target_state("x", "https://x.com/home");
    entry.last_checked_at = Some(NOW - NORMAL_MIN_SCAN_INTERVAL_SECS + 5 * 60);
    entry.no_change_count = 0;
    assert_eq!(skip_reason(&entry, NOW).as_deref(), Some("backoff_interval_not_elapsed"));

    entry.last_checked_at = Some(NOW - BACKOFF_SCAN_INTERVAL_SECS + 5 * 60);
    entry.no_change_count = 2;
    assert_eq!(skip_reason(&entry, NOW).as_deref(), Some("backoff_interval_not_elapsed"));

    entry.last_checked_at = Some(NOW - 12 * 3600);
    entry.last_changed_at = Some(NOW - STALE_SKIP_AFTER_SECS - 3600);
    assert_eq!(skip_reason(&entry, NOW).as_deref(), Some("stale_target_backoff"));

    entry.last_checked_at = Some(NOW - STALE_RECHECK_INTERVAL_SECS - 3600);
    assert_eq!(skip_reason(&entry, NOW), None);
}

#[test]
fn record_not_found_requires_two_strikes() {
    let mut entry = new_target_state(
        "reddit",
        "https://old.reddit.com/r/rust/comments/abc.json?limit=500",
    );

    assert_eq!(record_not_found(&mut entry, NOW), ScanStatus::Warning);
    assert_eq!(entry.consecutive_not_found_count, 1);
    assert!(!entry.deleted);

    assert_eq!(record_not_found(&mut entry, NOW), ScanStatus::Deleted);
    assert_eq!(entry.consecutive_not_found_count, 2);
    assert!(entry.deleted);
    assert_eq!(skip_reason(&entry, NOW).as_deref(), Some("deleted_target"));
}

#[test]
fn record_success_tracks_fresh_and_unchanged() {
    let mut entry = new_target_state("x", "https://x.com/home");

    assert_eq!(record_success(&mut entry, "abc".to_string(), NOW), ScanStatus::Fresh);
    assert_eq!(entry.no_change_count, 0);
    assert_eq!(record_success(&mut entry, "abc".to_string(), NOW), ScanStatus::Unchanged);
    assert_eq!(entry.no_change_count, 1);
    assert_eq!(record_success(&mut entry, "def".to_string(), NOW + 60), ScanStatus::Fresh);
    assert_eq!(entry.no_change_count, 0);
    assert_eq!(entry.last_changed_at, Some(NOW + 60));
}

#[test]
fn success_clears_a_not_found_strike() {
    let mut entry = new_target_state("x", "https://x.com/home");
    assert_eq!(record_not_found(&mut entry, NOW), ScanStatus::Warning);
    record_success(&mut entry, "abc".to_string(), NOW);
    assert_eq!(entry.consecutive_not_found_count, 0);
    assert_eq!(record_not_found(&mut entry, NOW), ScanStatus::Warning);
}

#[test]
fn filters_detect_deleted_bot_short_and_old_content() {
    let old = NOW - 31 * 86_400;

    assert!(is_bot_like_author("AutoModerator"));
    assert!(is_bot_like_author("[deleted]"));
    assert!(is_bot_like_author("  [Removed] "));
    assert!(!is_bot_like_author("rustacean"));
    assert!(is_too_short("too short"));
    assert!(!is_too_short("這是一段足夠長但沒有空白的中文內容用來驗證長度判斷"));
    assert!(!is_too_short("one two three four five"));
    assert!(is_too_old(old, NOW));
    assert!(!is_too_old(NOW, NOW));
    assert!(!is_too_old(NOW - 30 * 86_400, NOW));
}

#[test]
fn make_envelope_copies_entry_metadata() {
    let mut entry = new_target_state("x", "https://x.com/home");
    entry.last_checked_at = Some(NOW);
    entry.last_changed_at = Some(NOW);
    entry.no_change_count = 2;

    let envelope = make_envelope(
        &entry,
        ScanStatus::Skipped,
        Some("backoff_interval_not_elapsed".to_string()),
        None,
        Some(vec!["placeholder"]),
    );

    assert_eq!(envelope.provider, "x");
    assert_eq!(envelope.no_change_count, 2);
    assert_eq!(envelope.status, ScanStatus::Skipped);
    assert_eq!(envelope.reason.as_deref(), Some("backoff_interval_not_elapsed"));
    assert_eq!(envelope.data, Some(vec!["placeholder"]));
}

#[test]
fn fingerprint_is_stable_and_hex() {
    let left = fingerprint_bytes(br#"{"id":"1","content":"same"}"#);
    let right = fingerprint_bytes(br#"{"id":"1","content":"same"}"#);
    let changed = fingerprint_bytes(br#"{"id":"1","content":"different"}"#);

    assert_eq!(left, right);
    assert_ne!(left, changed);
    assert_eq!(
        fingerprint_bytes(b""),
        "e3b0c44298fc1c149afbf4c8996fb92427ae41e4649b934ca495991b7852b855"
    );
}
