use adapter_macos::reddit::{filter_comments, RedditComment};
use chrono::{Duration as ChronoDuration, Utc};

fn comment(id: &str, author: &str, body: &str, created_utc: i64) -> RedditComment {
    RedditComment {
        id: id.to_string(),
        author: author.to_string(),
        body: body.to_string(),
        score: 1,
        created_utc,
        permalink: format!("https://reddit.com/{id}"),
    }
}

#[test]
fn filter_comments_drops_deleted_short_and_old_comments() {
    let now = Utc::now();
    let comments = vec![
        RedditComment {
            id: "c1".to_string(),
            author: "[deleted]".to_string(),
            body: "this comment is long enough but deleted".to_string(),
            score: 1,
            created_utc: now.timestamp(),
            permalink: "https://reddit.com/c1".to_string(),
        },
        RedditComment {
            id: "c2".to_string(),
            author: "real_user".to_string(),
            body: "too short".to_string(),
            score: 1,
            created_utc: now.timestamp(),
            permalink: "https://reddit.com/c2".to_string(),
        },
        RedditComment {
            id: "c3".to_string(),
            author: "real_user".to_string(),
            body: "this comment is long enough but too old to keep around".to_string(),
            score: 1,
            created_utc: (now - ChronoDuration::days(31)).timestamp(),
            permalink: "https://reddit.com/c3".to_string(),
        },
        RedditComment {
            id: "c4".to_string(),
            author: "real_user".to_string(),
            body: "this comment is long enough and recent so it should survive".to_string(),
            score: 1,
            created_utc: now.timestamp(),
            permalink: "https://reddit.com/c4".to_string(),
        },
    ];

    let filtered = filter_comments(comments, now.timestamp());

    assert_eq!(filtered.len(), 1);
    assert_eq!(filtered[0].id, "c4");
}

#[test]
fn filter_comments_keeps_exactly_thirty_days_and_unrepresentable_times() {
    let now: i64 = 1_760_000_000;
    let body = "a comment that is certainly long enough to keep";
    let comments = vec![
        comment("edge", "user", body, now - 30 * 86_400),
        comment("past_edge", "user", body, now - 30 * 86_400 - 1),
        comment("far_past", "user", body, i64::MIN),
        comment("bot", " AutoModerator ", body, now),
    ];

    let kept: Vec<String> = filter_comments(comments, now).into_iter().map(|c| c.id).collect();

    assert_eq!(kept, vec!["edge".to_string(), "far_past".to_string()]);
}

#[test]
fn filter_comments_keeps_order_of_survivors() {
    let now: i64 = 1_760_000_000;
    let body = "one two three four five";
    let comments = vec![
        comment("a", "x", body, now),
        comment("b", "[removed]", body, now),
        comment("c", "y", body, now),
    ];

    let kept: Vec<String> = filter_comments(comments, now).into_iter().map(|c| c.id).collect();

    assert_eq!(kept, vec!["a".to_string(), "c".to_string()]);
}

#[test]
fn a_missing_post_is_a_first_strike_then_confirmed_deleted() {
    let mut entry = adapter_macos::scan_state::new_target_state("reddit", "https://reddit.com/r/x/comments/1");
    let (status, reason) = adapter_macos::reddit::post_not_found(&mut entry, 1_000);
    assert_eq!(status, adapter_macos::scan_state::ScanStatus::Warning);
    assert_eq!(reason.as_deref(), Some("target_missing_first_strike"));
    let (status, reason) = adapter_macos::reddit::post_not_found(&mut entry, 2_000);
    assert_eq!(status, adapter_macos::scan_state::ScanStatus::Deleted);
    assert_eq!(reason.as_deref(), Some("target_confirmed_deleted"));
    assert!(entry.deleted);
    assert_eq!(adapter_macos::reddit::not_found_reason(adapter_macos::scan_state::ScanStatus::Fresh), None);
}

#[test]
fn comments_older_than_chrono_can_represent_skip_the_age_check() {
    let body = "a long enough comment body with plenty of words to keep it around";
    let now = Utc::now().timestamp();
    let kept = filter_comments(
        vec![
            comment("unrepresentable", "alice", body, -8_334_601_228_801),
            comment("earliest", "bob", body, -8_334_601_228_800),
        ],
        now,
    );
    let ids: Vec<&str> = kept.iter().map(|c| c.id.as_str()).collect();
    assert_eq!(ids, vec!["unrepresentable"]);
}
