use adapter_macos::error::MacosError;
use adapter_macos::safari::social::{
    feed_fingerprint, filter_posts, normalize_x_post_url, record_feed_scan, record_missing_scan,
    threads_backoff_reason, update_threads_scan_state, x_extract_feed_js, x_search_url,
    SocialFeedPost, THREADS_FEED_URL,
};
use adapter_macos::scan_state::{
    build_scan_key, entry_for, fingerprint_bytes, new_target_state, scan_gate, stored_entry, ScanState,
    ScanStatus,
};
use chrono::{Duration, TimeZone, Utc};

fn post(author: &str, time: Option<&str>, content: &str) -> SocialFeedPost {
    SocialFeedPost {
        author: author.to_string(),
        handle: None,
        time: time.map(str::to_string),
        content: content.to_string(),
        url: None,
        metrics: Vec::new(),
    }
}

fn april_15_noon() -> i64 {
    Utc.with_ymd_and_hms(2026, 4, 15, 12, 0, 0).unwrap().timestamp()
}

#[test]
fn x_search_url_encodes_query() {
    let url = x_search_url("台灣 AI 最新討論");

    assert_eq!(
        url,
        "https://x.com/search?q=%E5%8F%B0%E7%81%A3%20AI%20%E6%9C%80%E6%96%B0%E8%A8%8E%E8%AB%96&src=typed_query&f=live"
    );
}

#[test]
fn x_extract_feed_script_includes_status_urls() {
    let script = x_extract_feed_js();

    assert!(script.contains("a[href*='/status/']"));
    assert!(script.contains("url: postUrl || null"));
    assert!(script.contains("https://x.com"));
}

#[test]
fn normalize_x_post_url_strips_query_and_legacy_host() {
    let url = normalize_x_post_url("https://twitter.com/user/status/123?context=3#top")
        .expect("normalized url");

    assert_eq!(url, "https://x.com/user/status/123");
}

#[test]
fn normalize_x_post_url_rejects_other_hosts_and_paths() {
    let err = normalize_x_post_url("https://example.com/user/status/1").unwrap_err();
    assert_eq!(err.to_string(), "invalid x post url: https://example.com/user/status/1");
    assert!(matches!(normalize_x_post_url("x.com"), Err(MacosError::Other(_))));
    assert!(normalize_x_post_url("https://x.com/user/likes").is_err());
    assert_eq!(
        normalize_x_post_url("  http://WWW.X.com//user/status/9/#frag ").unwrap(),
        "https://x.com/user/status/9"
    );
}

#[test]
fn filter_x_posts_drops_deleted_short_and_old_items() {
    let now = Utc::now();
    let posts = vec![
        SocialFeedPost {
            author: "AutoModerator".to_string(),
            handle: None,
            time: Some(now.to_rfc3339()),
            content: "this post is long enough to pass length checks".to_string(),
            url: Some("https://x.com/1".to_string()),
            metrics: Vec::new(),
        },
        SocialFeedPost {
            author: "real_user".to_string(),
            handle: None,
            time: Some((now - Duration::days(31)).to_rfc3339()),
            content: "this post is also long enough to pass the filter".to_string(),
            url: Some("https://x.com/2".to_string()),
            metrics: Vec::new(),
        },
        SocialFeedPost {
            author: "real_user".to_string(),
            handle: None,
            time: Some(now.to_rfc3339()),
            content: "too short".to_string(),
            url: Some("https://x.com/3".to_string()),
            metrics: Vec::new(),
        },
        SocialFeedPost {
            author: "real_user".to_string(),
            handle: None,
            time: Some(now.to_rfc3339()),
            content: "this post is long enough and recent so it should survive".to_string(),
            url: Some("https://x.com/4".to_string()),
            metrics: Vec::new(),
        },
    ];

    let filtered = filter_posts(posts, now.timestamp());

    assert_eq!(filtered.len(), 1);
    assert_eq!(filtered[0].url.as_deref(), Some("https://x.com/4"));
}

#[test]
fn filter_threads_posts_drops_short_bot_and_old_items() {
    let now = april_15_noon();
    let posts = vec![
        post("alice", Some("2026-04-15T10:00:00Z"), "這是一篇正常的 Threads 內容，長度足夠而且不是機器人"),
        post("[deleted]", Some("2026-04-15T10:00:00Z"), "這篇應該被濾掉，因為作者像 deleted"),
        post("bob", Some("2026-04-15T10:00:00Z"), "太短"),
        post(
            "charlie",
            Some("2026-02-01T10:00:00Z"),
            "這篇雖然夠長，但時間太舊，應該被濾掉",
        ),
    ];

    let filtered = filter_posts(posts, now);

    assert_eq!(filtered.len(), 1);
    assert_eq!(filtered[0].author, "alice");
}

#[test]
fn filter_keeps_posts_whose_time_does_not_parse() {
    let now = april_15_noon();
    let posts = vec![
        post("dora", Some("yesterday"), "this post has enough words to be kept around"),
        post("eve", None, "this post also has enough words to be kept around"),
    ];

    let filtered = filter_posts(posts, now);

    assert_eq!(filtered.len(), 2);
    assert_eq!(filtered[0].author, "dora");
    assert_eq!(filtered[1].author, "eve");
}

#[test]
fn update_threads_scan_state_marks_repeated_feed_as_unchanged() {
    let now = april_15_noon();
    let mut state = ScanState::new();
    let posts = vec![post(
        "alice",
        Some("2026-04-15T10:00:00Z"),
        "這是一篇正常的 Threads 內容，長度足夠而且不是機器人",
    )];

    let first = update_threads_scan_state(&mut state, now, posts.clone()).expect("first envelope");
    let second = update_threads_scan_state(&mut state, now + 31 * 60, posts)
        .expect("second envelope");

    assert_eq!(first.status, ScanStatus::Fresh);
    assert_eq!(second.status, ScanStatus::Unchanged);
    assert_eq!(second.target_url, THREADS_FEED_URL);
}

#[test]
fn update_threads_scan_state_skips_when_backoff_not_elapsed() {
    let now = april_15_noon();
    let mut state = ScanState::new();
    let key = format!("threads:{THREADS_FEED_URL}");
    let mut entry = entry_for(&state, &key, "threads", THREADS_FEED_URL);
    entry.last_checked_at = Some(now - 5 * 60);
    state.set_entry(&key, entry);

    let envelope = update_threads_scan_state(
        &mut state,
        now,
        vec![post(
            "alice",
            Some("2026-04-15T10:00:00Z"),
            "這是一篇正常的 Threads 內容，長度足夠而且不是機器人",
        )],
    )
    .expect("fresh envelope");

    assert_eq!(envelope.status, ScanStatus::Fresh);
    assert!(envelope.reason.is_none());
    assert!(envelope.data.is_some());
}

#[test]
fn threads_backoff_reason_ignores_deleted_flag() {
    let now = april_15_noon();
    let mut state = ScanState::new();
    let key = format!("threads:{THREADS_FEED_URL}");
    let mut entry = entry_for(&state, &key, "threads", THREADS_FEED_URL);
    entry.deleted = true;
    state.set_entry(&key, entry);
    let entry = state.scan_target(&key).expect("stored entry");

    assert_eq!(threads_backoff_reason(entry, now), None);
}

#[test]
fn threads_backoff_reason_follows_the_scan_intervals() {
    let now = april_15_noon();
    let mut entry = new_target_state("threads", THREADS_FEED_URL);
    entry.last_checked_at = Some(now - 10 * 60);
    assert_eq!(
        threads_backoff_reason(&entry, now).as_deref(),
        Some("backoff_interval_not_elapsed")
    );
    entry.last_checked_at = Some(now - 2 * 3600);
    assert_eq!(threads_backoff_reason(&entry, now), None);
    entry.last_changed_at = Some(now - 4 * 86_400);
    assert_eq!(threads_backoff_reason(&entry, now).as_deref(), Some("stale_target_backoff"));
}

#[test]
fn scan_gate_stops_deleted_and_recent_targets() {
    let now = april_15_noon();
    let mut entry = new_target_state("x", "https://x.com/home");
    assert!(scan_gate(&entry, now).is_none());
    entry.last_checked_at = Some(now - 60);
    assert_eq!(
        scan_gate(&entry, now),
        Some((ScanStatus::Skipped, "backoff_interval_not_elapsed".to_string()))
    );
    entry.deleted = true;
    assert_eq!(scan_gate(&entry, now), Some((ScanStatus::Deleted, "deleted_target".to_string())));
}

#[test]
fn scan_state_keeps_the_last_entry_per_key() {
    let mut state = ScanState::new();
    assert!(state.scan_target("x:a").is_none());
    let mut a = new_target_state("x", "a");
    a.no_change_count = 3;
    state.set_entry("x:a", a);
    state.set_entry("x:b", new_target_state("x", "b"));
    let mut a2 = new_target_state("x", "a");
    a2.no_change_count = 7;
    state.set_entry("x:a", a2);

    assert_eq!(state.scan_target("x:a").unwrap().no_change_count, 7);
    assert_eq!(state.scan_target("x:b").unwrap().target_url, "b");
    let fresh = entry_for(&state, "x:c", "x", "c");
    assert_eq!(fresh.target_url, "c");
    assert_eq!(fresh.last_checked_at, None);
    assert_eq!(entry_for(&state, "x:a", "x", "ignored").target_url, "a");
}

#[test]
fn feed_fingerprint_hashes_the_json_payload() {
    let mut p = post("ann", Some("2026-04-15T10:00:00Z"), "say \"hi\"");
    p.url = Some("https://x.com/ann/status/1".to_string());
    let q = post("bo", None, "text");
    let posts = vec![p, q];

    assert_eq!(
        feed_fingerprint(&posts, true),
        fingerprint_bytes(
            br#"[{"author":"ann","handle":null,"time":"2026-04-15T10:00:00Z","content":"say \"hi\"","url":"https://x.com/ann/status/1"},{"author":"bo","handle":null,"time":null,"content":"text","url":null}]"#
        )
    );
    assert_eq!(
        feed_fingerprint(&posts, false),
        fingerprint_bytes(
            br#"[{"author":"ann","time":"2026-04-15T10:00:00Z","content":"say \"hi\"","url":"https://x.com/ann/status/1"},{"author":"bo","time":null,"content":"text","url":null}]"#
        )
    );
    assert_eq!(feed_fingerprint(&[], true), fingerprint_bytes(b"[]"));
}

#[test]
fn record_missing_scan_confirms_deletion_on_second_miss() {
    let now = april_15_noon();
    let mut state = ScanState::new();
    let key = build_scan_key("x", "https://x.com/u/status/1");
    let entry = entry_for(&state, &key, "x", "https://x.com/u/status/1");

    let first = record_missing_scan(&mut state, &key, entry, now).expect("first miss");
    assert_eq!(first.status, ScanStatus::Warning);
    assert_eq!(first.reason.as_deref(), Some("target_missing_first_strike"));
    assert!(first.data.is_none());

    let entry = entry_for(&state, &key, "x", "https://x.com/u/status/1");
    let second = record_missing_scan(&mut state, &key, entry, now + 3600).expect("second miss");
    assert_eq!(second.status, ScanStatus::Deleted);
    assert_eq!(second.reason.as_deref(), Some("target_confirmed_deleted"));
    assert!(second.deleted);
    assert!(state.scan_target(&key).unwrap().deleted);
}

#[test]
fn record_feed_scan_refuses_a_counter_at_its_limit() {
    let now = april_15_noon();
    let mut state = ScanState::new();
    let key = build_scan_key("x", "https://x.com/home");
    let posts = vec![post("ann", None, "this post has enough words to be kept around")];
    let mut entry = new_target_state("x", "https://x.com/home");
    entry.last_fingerprint = Some(feed_fingerprint(&posts, true));
    entry.no_change_count = u32::MAX;

    let err = record_feed_scan(&mut state, &key, entry, posts, true, now).unwrap_err();
    assert_eq!(err.to_string(), "scan state counter is at its limit");
    assert!(state.scan_target(&key).is_none());
}

#[test]
fn stored_entry_reports_a_missing_key() {
    let mut state = ScanState::new();
    assert_eq!(stored_entry(&state, "x:a").unwrap_err().to_string(), "scan state entry not found");
    state.set_entry("x:a", new_target_state("x", "a"));
    assert_eq!(stored_entry(&state, "x:a").unwrap().target_url, "a");
}
