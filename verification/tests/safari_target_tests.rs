use adapter_macos::safari::target::{map_js_timeout, select_tab, tab_metadata_guard};
use adapter_macos::safari::types::SafariTab;
use adapter_macos::error::MacosError;

fn tab(index: usize, title: &str, url: &str) -> SafariTab {
    SafariTab {
        window_id: 42,
        window_name: "Work".to_string(),
        profile: Some("Work".to_string()),
        index,
        title: title.to_string(),
        url: url.to_string(),
        active: index == 0,
    }
}

#[test]
fn text_selector_rejects_multiple_matching_tabs() {
    let tabs = vec![
        tab(0, "Docs", "https://example.test/one"),
        tab(1, "Docs", "https://example.test/two"),
    ];
    let error = select_tab(tabs, "Docs").expect_err("ambiguous title must fail");
    assert!(error.to_string().contains("ambiguous"));
}

#[test]
fn text_selector_returns_its_only_match() {
    let tabs = vec![
        tab(0, "Docs", "https://example.test/one"),
        tab(1, "Inbox", "https://example.test/two"),
    ];
    let selected = select_tab(tabs, "Inbox").expect("unique title");
    assert_eq!(selected.index, 1);
}

#[test]
fn numeric_selector_chooses_explicit_list_index() {
    let tabs = vec![
        tab(0, "Docs", "https://example.test/one"),
        tab(1, "Docs", "https://example.test/two"),
    ];
    let selected = select_tab(tabs, "1").expect("explicit index");
    assert_eq!(selected.url, "https://example.test/two");
}

#[test]
fn selector_matching_ignores_case_and_reports_misses() {
    let tabs = vec![
        tab(0, "Docs", "https://example.test/one"),
        tab(1, "Inbox", "https://EXAMPLE.test/Mail"),
    ];
    let selected = select_tab(tabs.clone(), "mail").expect("case-insensitive URL match");
    assert_eq!(selected.index, 1);
    let error = select_tab(tabs.clone(), "calendar").expect_err("no match");
    assert_eq!(error.to_string(), "no tab matching 'calendar'");
    let error = select_tab(tabs, "5").expect_err("index out of range");
    assert_eq!(error.to_string(), "no tab matching '5'");
}

#[test]
fn metadata_guard_compares_escaped_url_and_title() {
    let guard = tab_metadata_guard(&tab(0, "A \"quoted\" title", "https://example.test"));
    assert!(guard.contains("if targetURL is not \"https://example.test\" then"));
    assert!(guard.contains("if targetTitle is not \"A \\\"quoted\\\" title\" then"));
    assert!(guard.contains("considering case"));
}

#[test]
fn javascript_timeout_marker_names_the_tab() {
    let mapped = map_js_timeout(
        MacosError::Other("error: CUEWARD_JS_APPLE_EVENT_TIMEOUT".to_string()),
        "window 42 tab index 1",
    );
    assert_eq!(
        mapped.to_string(),
        "JavaScript in Safari window 42 tab index 1 did not answer within 15 seconds"
    );
    let other = map_js_timeout(MacosError::Other("boom".to_string()), "window 42 tab index 1");
    assert_eq!(other.to_string(), "boom");
}
