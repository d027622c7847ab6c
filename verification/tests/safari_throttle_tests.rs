use std::time::Duration;

use adapter_macos::safari::throttle::{
    compute_next_safari_operation, is_safari_rate_limited, lock_decision, rate_limit_step,
    safari_rate_limit_backoff, session_enter, session_exit, session_locked, ExistingLock,
    LockDecision, RateLimitStep, SafariAutomationState, SafariLockFile, SAFARI_LOCK_TTL_SECS,
    SAFARI_OPERATION_DELAY_MS,
};
use adapter_macos::error::MacosError;

#[test]
fn safari_rate_limit_detection_matches_expected_signals() {
    assert!(is_safari_rate_limited("HTTP 429 Too Many Requests"));
    assert!(is_safari_rate_limited("rate limit exceeded"));
    assert!(is_safari_rate_limited(
        r#"{"status":429,"error":"Too Many Requests"}"#
    ));
    assert!(!is_safari_rate_limited(
        "this article explains how rate limits work"
    ));
    assert!(!is_safari_rate_limited("all good"));
}

#[test]
fn safari_rate_limit_backoff_is_linear() {
    assert_eq!(Duration::from_secs(safari_rate_limit_backoff(0)), Duration::from_secs(30));
    assert_eq!(Duration::from_secs(safari_rate_limit_backoff(1)), Duration::from_secs(60));
    assert_eq!(Duration::from_secs(safari_rate_limit_backoff(2)), Duration::from_secs(90));
}

#[test]
fn safari_lock_ttl_covers_long_running_safari_jobs() {
    assert!(SAFARI_LOCK_TTL_SECS >= 900);
}

#[test]
fn throttle_schedule_reserves_next_available_slot() {
    let now: u64 = 5_000;
    let last = now;

    let (delay, next_allowed) = compute_next_safari_operation(now, Some(last));

    assert_eq!(delay, Some(SAFARI_OPERATION_DELAY_MS));
    assert!(next_allowed >= last + SAFARI_OPERATION_DELAY_MS);
}

#[test]
fn dropping_outer_session_keeps_last_operation_timestamp() {
    let now: u64 = 1_700_000_000_000;
    let mut state = SafariAutomationState {
        depth: 1,
        last_operation_at: Some(now),
        lock_path: None,
        lock_owner_pid: None,
    };

    let release = session_exit(&mut state, true);

    assert_eq!(release, None);
    assert_eq!(state.depth, 0);
    assert_eq!(state.last_operation_at, Some(now));
}

#[test]
fn throttle_lets_an_operation_start_after_the_delay() {
    assert_eq!(compute_next_safari_operation(7_000, Some(5_000)), (None, 7_000));
    assert_eq!(compute_next_safari_operation(5_400, Some(5_000)), (Some(600), 6_000));
    assert_eq!(compute_next_safari_operation(42, None), (None, 42));
}

#[test]
fn rate_limit_steps_retry_then_give_up() {
    match rate_limit_step(0, Ok("HTTP 429 Too Many Requests".to_string()), "ctx") {
        RateLimitStep::Retry { backoff_secs } => assert_eq!(backoff_secs, 30),
        _ => panic!("expected a retry"),
    }
    match rate_limit_step(3, Ok("  rate-limited  ".to_string()), "ctx") {
        RateLimitStep::GiveUp(e) => assert_eq!(
            e.to_string(),
            "ctx: Safari automation hit rate limit: rate-limited"
        ),
        _ => panic!("expected giving up"),
    }
    match rate_limit_step(1, Ok("fine".to_string()), "ctx") {
        RateLimitStep::Finish(Ok(out)) => assert_eq!(out, "fine"),
        _ => panic!("expected the outcome"),
    }
    match rate_limit_step(0, Err(MacosError::Other("boom".to_string())), "ctx") {
        RateLimitStep::Finish(Err(e)) => assert_eq!(e.to_string(), "boom"),
        _ => panic!("expected the error"),
    }
}

#[test]
fn lock_decisions_follow_the_existing_lock() {
    let now = 1_700_000_000;
    match lock_decision(ExistingLock::Absent, now, 77, "/tmp/lock.json") {
        LockDecision::Create(lock) => {
            assert_eq!(lock.pid, 77);
            assert_eq!(lock.expires_at, now + SAFARI_LOCK_TTL_SECS);
        }
        _ => panic!("expected a new lock"),
    }
    let active = SafariLockFile { pid: 42, acquired_at: now, expires_at: now + SAFARI_LOCK_TTL_SECS };
    match lock_decision(ExistingLock::Held(active), now, 77, "/tmp/lock.json") {
        LockDecision::Fail(e) => assert!(e.to_string().contains("locked by pid 42")),
        _ => panic!("expected a refusal"),
    }
    let stale = SafariLockFile { pid: 42, acquired_at: now - 600, expires_at: now - 1 };
    assert!(matches!(
        lock_decision(ExistingLock::Held(stale), now, 77, "/tmp/lock.json"),
        LockDecision::RemoveStale
    ));
    match lock_decision(ExistingLock::Corrupted, now, 77, "/tmp/lock.json") {
        LockDecision::Fail(e) => assert!(e.to_string().contains("corrupted or unreadable")),
        _ => panic!("expected a refusal"),
    }
}

#[test]
fn nested_sessions_release_the_lock_once() {
    let mut state = SafariAutomationState {
        depth: 0,
        last_operation_at: None,
        lock_path: None,
        lock_owner_pid: None,
    };
    assert!(session_enter(&mut state));
    session_locked(&mut state, "/tmp/lock.json".to_string(), 77);
    assert!(!session_enter(&mut state));
    assert_eq!(state.depth, 2);
    assert_eq!(session_exit(&mut state, false), None);
    assert_eq!(
        session_exit(&mut state, true),
        Some(("/tmp/lock.json".to_string(), 77))
    );
    assert_eq!(state.depth, 0);
    assert_eq!(state.lock_path, None);
}

struct ReplyHost {
    replies: Vec<Result<String, adapter_macos::error::MacosError>>,
    scripts: Vec<String>,
    sleeps: Vec<u64>,
    clock: u64,
}

impl adapter_macos::safari::ops::SafariHost for ReplyHost {
    fn run_applescript(&mut self, script: &str, _context: &str) -> Result<String, adapter_macos::error::MacosError> {
        self.scripts.push(script.to_string());
        self.replies.remove(0)
    }
    fn now_millis(&mut self) -> u64 {
        self.clock += 100;
        self.clock
    }
    fn sleep_millis(&mut self, millis: u64) {
        self.sleeps.push(millis);
    }
    fn next_eval_token(&mut self) -> String {
        unreachable!()
    }
    fn parse_eval_wire(&mut self, _payload: &str) -> Result<adapter_macos::safari::eval::EvalWire, String> {
        unreachable!()
    }
    fn parse_scroll_snapshot(&mut self, _payload: &str) -> Result<adapter_macos::safari::types::SafariScrollReadSnapshot, String> {
        unreachable!()
    }
    fn parse_navigation_start(&mut self, _raw: &str) -> Result<adapter_macos::safari::wait::NavigationStart, String> {
        unreachable!()
    }
    fn parse_image_payload(&mut self, _payload: &str) -> Result<adapter_macos::safari::ai::ImagePayload, String> {
        unreachable!()
    }
    fn parse_response_payload(&mut self, _payload: &str) -> Result<adapter_macos::safari::ai::watch::ResponsePayload, String> {
        unreachable!()
    }
    fn parse_conversations(&mut self, _payload: &str) -> Result<Vec<adapter_macos::safari::ai::SafariConversation>, String> {
        unreachable!()
    }
    fn parse_deep_research_payload(&mut self, _payload: &str) -> Result<adapter_macos::safari::ai::DeepResearchPayload, String> {
        unreachable!()
    }
    fn parse_feed_posts(&mut self, _payload: &str) -> Result<Vec<adapter_macos::safari::social::SocialFeedPost>, String> {
        unreachable!()
    }
    fn now_unix_seconds(&mut self) -> i64 {
        unreachable!()
    }
    fn load_scan_state(&mut self) -> adapter_macos::scan_state::ScanState {
        unreachable!()
    }
    fn save_scan_state(&mut self, _state: &adapter_macos::scan_state::ScanState) -> Result<(), String> {
        unreachable!()
    }
    fn next_snapshot_id(&mut self) -> String {
        unreachable!()
    }
    fn path_exists(&mut self, _path: &str) -> bool {
        unreachable!()
    }
    fn create_dir_all(&mut self, _path: &str) -> Result<(), String> {
        unreachable!()
    }
    fn write_file(&mut self, _path: &str, _bytes: &[u8]) -> Result<(), String> {
        unreachable!()
    }
}

fn reply_host(replies: Vec<Result<String, adapter_macos::error::MacosError>>) -> adapter_macos::safari::ops::Safari<ReplyHost> {
    adapter_macos::safari::ops::Safari::new(ReplyHost { replies, scripts: Vec::new(), sleeps: Vec::new(), clock: 0 })
}

#[test]
fn run_capture_retries_rate_limited_replies_after_linear_waits() {
    let mut safari = reply_host(vec![
        Ok("Too Many Requests".into()),
        Ok("HTTP 429".into()),
        Ok("done".into()),
    ]);
    assert_eq!(safari.run_capture("script", "ctx").unwrap(), "done");
    assert_eq!(safari.host.scripts.len(), 3);
    let backoffs: Vec<u64> = safari.host.sleeps.iter().copied().filter(|ms| *ms >= 30_000).collect();
    assert_eq!(backoffs, vec![30_000, 60_000]);
}

#[test]
fn run_capture_gives_up_after_four_rate_limited_attempts() {
    let mut safari = reply_host(vec![
        Ok("too many requests".into()),
        Ok("too many requests".into()),
        Ok("too many requests".into()),
        Ok("  rate limit exceeded ".into()),
    ]);
    let err = safari.run_capture("script", "ctx").unwrap_err();
    assert_eq!(err.to_string(), "ctx: Safari automation hit rate limit: rate limit exceeded");
    assert_eq!(safari.host.scripts.len(), 4);
    let backoffs: Vec<u64> = safari.host.sleeps.iter().copied().filter(|ms| *ms >= 30_000).collect();
    assert_eq!(backoffs, vec![30_000, 60_000, 90_000]);
}

#[test]
fn run_capture_hands_on_an_error_that_is_no_rate_limit() {
    let mut safari = reply_host(vec![Err(adapter_macos::error::MacosError::Other("boom".into()))]);
    assert_eq!(safari.run_capture("script", "ctx").unwrap_err().to_string(), "boom");
    assert!(safari.host.sleeps.iter().all(|ms| *ms < 30_000));
}

#[test]
fn wait_checks_the_selector_until_it_matches() {
    let mut safari = reply_host(vec![Ok("false".into()), Ok("true".into())]);
    let found = adapter_macos::safari::ops::wait(&mut safari, "#go", 1000).unwrap();
    assert!(found.found);
    assert_eq!(found.selector.as_deref(), Some("#go"));
    assert_eq!(found.timeout_seconds, 1000);
    assert_eq!(safari.host.scripts.len(), 2);
    let mut safari = reply_host(vec![Ok(String::new())]);
    let err = adapter_macos::safari::ops::wait(&mut safari, "#go", 5).unwrap_err();
    assert_eq!(err.to_string(), "no Safari window or active tab available");
    let mut safari = reply_host(vec![Ok("false".into())]);
    let err = adapter_macos::safari::ops::wait(&mut safari, "#go", 0).unwrap_err();
    assert_eq!(err.to_string(), "timeout waiting for selector: #go");
}

#[test]
fn gemini_answer_is_final_after_three_equal_polls() {
    let mut safari = reply_host(vec![
        Ok("true".into()),
        Ok("true".into()),
        Ok("answer".into()),
        Ok("answer".into()),
        Ok("answer".into()),
    ]);
    let answer = adapter_macos::safari::ops::send_gemini_prompt(&mut safari, "question", None).unwrap();
    assert_eq!(answer.provider, "gemini");
    assert_eq!(answer.status, "complete");
    assert_eq!(answer.response, "answer");
    assert_eq!(safari.host.scripts.len(), 5);
}

#[test]
fn a_failed_fill_sends_nothing() {
    let mut safari = reply_host(vec![Ok("false".into())]);
    let err = adapter_macos::safari::ops::send_gemini_prompt(&mut safari, "question", None).unwrap_err();
    assert_eq!(err.to_string(), "failed to fill Gemini input: false");
    assert_eq!(safari.host.scripts.len(), 1);
}
