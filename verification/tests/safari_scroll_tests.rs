use adapter_macos::safari::scroll::{
    scroll_js, scroll_read_detects_new_content, scroll_read_new_content_blocks,
    scroll_read_poll_js, scroll_read_snapshot_blocks,
};
use adapter_macos::safari::types::SafariScrollReadSnapshot;

fn dedup_keeps_only_new_blocks() {
    let seen = vec!["alpha".to_string(), "beta".to_string()];
    let content = "alpha\n\nbeta\n\ngamma\n\ndelta\n\ngamma";

    let blocks = scroll_read_new_content_blocks(content, &seen);

    assert_eq!(blocks, vec!["gamma".to_string(), "delta".to_string()]);
}

fn change_detection_uses_count_or_text() {
    assert!(scroll_read_detects_new_content("same", 2, "same", 3));
    assert!(scroll_read_detects_new_content("before", 2, "after", 2));
    assert!(!scroll_read_detects_new_content("same", 2, "same", 2));
}

fn snapshot_blocks_prefers_structured_blocks() {
    let snapshot = SafariScrollReadSnapshot {
        item_count: 2,
        content: "alpha\n\nbeta\n\ngamma".to_string(),
        blocks: vec!["alpha".to_string(), "gamma".to_string()],
    };

    let blocks = scroll_read_snapshot_blocks(&snapshot, &vec!["alpha".to_string()]);

    assert_eq!(blocks, vec!["gamma".to_string()]);
}

fn poll_script_exposes_count_and_text() {
    let script = scroll_read_poll_js(Some("main"));

    assert!(script.contains("item_count"));
    assert!(script.contains("content"));
    assert!(script.contains("blocks"));
    assert!(script.contains("querySelectorAll(\"article\")"));
    assert!(script.contains("document.querySelector(\"main\")"));
}

fn poll_script_uses_visible_items() {
    let script = scroll_read_poll_js(None);

    assert!(script.contains("getBoundingClientRect"));
    assert!(script.contains("window.innerHeight"));
    assert!(script.contains("rect.bottom > 0"));
}

fn poll_script_has_heuristic_fallback() {
    let script = scroll_read_poll_js(None);

    assert!(script.contains("itemNodes.length === 0"));
    assert!(script.contains("querySelectorAll(\"div\")"));
}

fn fingerprint_dedup_handles_suffix_changes() {
    let long_prefix = "a]".repeat(61);
    let seen = vec![format!("{long_prefix}ORIGINAL_SUFFIX")];
    let content = format!("{long_prefix}UPDATED_SUFFIX\n\ngenuinely new block");

    let blocks = scroll_read_new_content_blocks(&content, &seen);

    assert_eq!(blocks, vec!["genuinely new block".to_string()]);
}

#[test]
fn safari_scroll_read_dedup_keeps_only_new_blocks() {
    dedup_keeps_only_new_blocks();
}

#[test]
fn core_tests_scroll_read_dedup_keeps_only_new_blocks() {
    dedup_keeps_only_new_blocks();
}

#[test]
fn safari_scroll_read_change_detection_uses_count_or_text() {
    change_detection_uses_count_or_text();
}

#[test]
fn core_tests_scroll_read_change_detection_uses_count_or_text() {
    change_detection_uses_count_or_text();
}

#[test]
fn safari_scroll_read_snapshot_blocks_prefers_structured_blocks() {
    snapshot_blocks_prefers_structured_blocks();
}

#[test]
fn core_tests_scroll_read_snapshot_blocks_prefers_structured_blocks() {
    snapshot_blocks_prefers_structured_blocks();
}

#[test]
fn safari_scroll_read_poll_script_exposes_count_and_text() {
    poll_script_exposes_count_and_text();
}

#[test]
fn core_tests_scroll_read_poll_script_exposes_count_and_text() {
    poll_script_exposes_count_and_text();
}

#[test]
fn safari_scroll_read_poll_script_uses_visible_items() {
    poll_script_uses_visible_items();
}

#[test]
fn core_tests_scroll_read_poll_script_uses_visible_items() {
    poll_script_uses_visible_items();
}

#[test]
fn safari_scroll_read_poll_script_has_heuristic_fallback() {
    poll_script_has_heuristic_fallback();
}

#[test]
fn core_tests_scroll_read_poll_script_has_heuristic_fallback() {
    poll_script_has_heuristic_fallback();
}

#[test]
fn safari_scroll_read_fingerprint_dedup_handles_suffix_changes() {
    fingerprint_dedup_handles_suffix_changes();
}

#[test]
fn core_tests_scroll_read_fingerprint_dedup_handles_suffix_changes() {
    fingerprint_dedup_handles_suffix_changes();
}

#[test]
fn scroll_script_uses_absolute_amount_and_default() {
    let down = scroll_js("down", Some(-300)).expect("down");
    assert!(down.contains("window.scrollBy(0, 300)"));
    let up = scroll_js("up", None).expect("up");
    assert!(up.contains("window.scrollBy(0, -500)"));
    let top = scroll_js("top", Some(10)).expect("top");
    assert!(top.contains("window.scrollTo(0, 0)"));
}

#[test]
fn scroll_script_rejects_unknown_direction() {
    let err = scroll_js("sideways", None).expect_err("unknown direction");
    assert_eq!(
        err.to_string(),
        "unknown scroll direction: sideways. Use: up, down, top, bottom"
    );
}

#[test]
fn snapshot_without_blocks_falls_back_to_paragraphs() {
    let snapshot = SafariScrollReadSnapshot {
        item_count: 1,
        content: "  one  \n\n\n\ntwo\n\none".to_string(),
        blocks: Vec::new(),
    };

    let blocks = scroll_read_snapshot_blocks(&snapshot, &Vec::new());

    assert_eq!(blocks, vec!["one".to_string(), "two".to_string()]);
}
