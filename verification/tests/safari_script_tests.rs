use adapter_macos::safari::script::{
    build_active_tab_script, build_close_script, build_exec_script, build_exec_script_for_profile,
    build_open_script, build_tab_return_block, build_tabs_script, decode_field, extract_profile,
    js_apple_event_command, parse_tab_line, parse_tabs_output, selector_text_js, TAB_SEPARATOR,
};

#[test]
fn script_tests_parse_tab_line_decodes_fields() {
    let line = "61998<<<FIELD_SEP>>>Work — Google\\tGemini<<<FIELD_SEP>>>0<<<FIELD_SEP>>>Google\\tGemini<<<FIELD_SEP>>>https://gemini.google.com/app<<<FIELD_SEP>>>true";

    let tab = parse_tab_line(line).expect("tab");

    assert_eq!(tab.window_id, 61998);
    assert_eq!(tab.window_name, "Work — Google\tGemini");
    assert_eq!(tab.profile, None);
    assert_eq!(tab.index, 0);
    assert_eq!(tab.title, "Google\tGemini");
    assert_eq!(tab.url, "https://gemini.google.com/app");
    assert!(tab.active);
}

#[test]
fn script_tests_parse_tabs_output_keeps_multiple_tabs() {
    let raw = "1<<<FIELD_SEP>>>Work — Mail<<<FIELD_SEP>>>0<<<FIELD_SEP>>>Mail<<<FIELD_SEP>>>https://mail.google.com<<<FIELD_SEP>>>true---TAB_SEP---\
1<<<FIELD_SEP>>>Work — Mail<<<FIELD_SEP>>>1<<<FIELD_SEP>>>Docs<<<FIELD_SEP>>>https://docs.google.com<<<FIELD_SEP>>>false---TAB_SEP---";

    let tabs = parse_tabs_output(raw);

    assert_eq!(tabs.len(), 2);
    assert_eq!(tabs[0].title, "Mail");
    assert_eq!(tabs[1].title, "Docs");
    assert_eq!(tabs[0].profile.as_deref(), Some("Work"));
    assert_eq!(tabs[1].profile.as_deref(), Some("Work"));
}

#[test]
fn script_tests_safari_script_escapes_record_separator() {
    let script = build_tabs_script();

    assert!(script.contains(TAB_SEPARATOR));
    assert!(script.contains("\\s"));
    assert!(script.contains("<<<FIELD_SEP>>>"));
}

#[test]
fn script_tests_build_open_script_creates_new_tab() {
    let script = build_open_script("https://example.com", None);

    assert!(script.contains("make new tab at end of tabs of w"));
    assert!(script.contains("https://example.com"));
}

#[test]
fn script_tests_build_close_script_targets_requested_index() {
    let script = build_close_script(Some(2));

    assert!(script.contains("set t to tab 3 of w"));
}

#[test]
fn script_tests_build_active_tab_script_targets_front_window() {
    let script = build_active_tab_script(None);

    assert!(script.contains("set w to front window"));
    assert!(script.contains("set t to current tab of w"));
}

#[test]
fn script_tests_build_tab_return_block_coerces_numeric_fields_to_text() {
    let script = build_tab_return_block("t", "true");

    assert!(script.contains("(winId as text)"));
    assert!(script.contains("(tabIndex as text)"));
    assert!(script.contains("<<<FIELD_SEP>>>"));
}

#[test]
fn script_tests_build_exec_script_supports_multiline_js() {
    let script = build_exec_script("const x = 1;\nx + 1;");

    assert!(script.contains("set jsCode to"));
    assert!(script.contains("set rawResult to missing value"));
    assert!(script.contains("try"));
    assert!(script.contains("do JavaScript jsCode"));
    assert!(script.contains("on error errMsg"));
    assert!(script.contains("& linefeed &"));
    assert!(script.contains("if rawResult is missing value then"));
}

#[test]
fn javascript_apple_event_has_a_scoped_timeout() {
    let script = js_apple_event_command("tab 2 of w");

    assert!(script.contains("with timeout of 15 seconds"));
    assert!(script.contains("do JavaScript jsCode in tab 2 of w"));
    assert!(script.contains("CUEWARD_JS_APPLE_EVENT_TIMEOUT"));
    assert!(script.contains("if errNum is -1712"));
}

#[test]
fn profile_javascript_timeout_carries_the_selected_tab_identity() {
    let script = build_exec_script_for_profile("1 + 1", Some("Work"));

    assert!(script.contains("set targetTab to current tab of w"));
    assert!(script.contains("set targetWindowId to (id of w) as text"));
    assert!(script.contains("set targetTabIndex to ((index of targetTab) - 1) as text"));
    assert!(script.contains("do JavaScript jsCode in targetTab"));
    assert!(script.contains("targetWindowId & \"|\" & targetTabIndex"));
}

#[test]
fn script_tests_selector_js_builders_include_selector_and_text() {
    assert!(selector_text_js(".item").contains("querySelector(\".item\")"));
}

#[test]
fn extract_profile_from_window_name() {
    let profile = extract_profile("Ryugu — Google Gemini", "Google Gemini");

    assert_eq!(profile.as_deref(), Some("Ryugu"));
}


#[test]
fn safari_parse_tab_line_decodes_fields() {
    let line = "61998<<<FIELD_SEP>>>Ryugu — Google\\tGemini<<<FIELD_SEP>>>0<<<FIELD_SEP>>>Google\\tGemini<<<FIELD_SEP>>>https://gemini.google.com/app<<<FIELD_SEP>>>true";

    let tab = parse_tab_line(line).expect("tab");

    assert_eq!(tab.window_id, 61998);
    assert_eq!(tab.window_name, "Ryugu — Google\tGemini");
    assert_eq!(tab.profile, None);
    assert_eq!(tab.index, 0);
    assert_eq!(tab.title, "Google\tGemini");
    assert_eq!(tab.url, "https://gemini.google.com/app");
    assert!(tab.active);
}

#[test]
fn safari_parse_tabs_output_keeps_multiple_tabs() {
    let raw = "1<<<FIELD_SEP>>>Work — Mail<<<FIELD_SEP>>>0<<<FIELD_SEP>>>Mail<<<FIELD_SEP>>>https://mail.google.com<<<FIELD_SEP>>>true---TAB_SEP---\
1<<<FIELD_SEP>>>Work — Mail<<<FIELD_SEP>>>1<<<FIELD_SEP>>>Docs<<<FIELD_SEP>>>https://docs.google.com<<<FIELD_SEP>>>false---TAB_SEP---";

    let tabs = parse_tabs_output(raw);

    assert_eq!(tabs.len(), 2);
    assert_eq!(tabs[0].title, "Mail");
    assert_eq!(tabs[1].title, "Docs");
    assert_eq!(tabs[0].profile.as_deref(), Some("Work"));
    assert_eq!(tabs[1].profile.as_deref(), Some("Work"));
}

#[test]
fn safari_safari_script_escapes_record_separator() {
    let script = build_tabs_script();

    assert!(script.contains(TAB_SEPARATOR));
    assert!(script.contains("\\s"));
    assert!(script.contains("<<<FIELD_SEP>>>"));
}

#[test]
fn safari_build_open_script_creates_new_tab() {
    let script = build_open_script("https://example.com", None);

    assert!(script.contains("make new tab at end of tabs of w"));
    assert!(script.contains("https://example.com"));
}

#[test]
fn safari_build_close_script_targets_requested_index() {
    let script = build_close_script(Some(2));

    assert!(script.contains("set t to tab 3 of w"));
}

#[test]
fn safari_build_active_tab_script_targets_front_window() {
    let script = build_active_tab_script(None);

    assert!(script.contains("set w to front window"));
    assert!(script.contains("set t to current tab of w"));
}

#[test]
fn safari_build_tab_return_block_coerces_numeric_fields_to_text() {
    let script = build_tab_return_block("t", "true");

    assert!(script.contains("(winId as text)"));
    assert!(script.contains("(tabIndex as text)"));
    assert!(script.contains("<<<FIELD_SEP>>>"));
}

#[test]
fn safari_build_exec_script_supports_multiline_js() {
    let script = build_exec_script("const x = 1;\nx + 1;");

    assert!(script.contains("set jsCode to"));
    assert!(script.contains("set rawResult to missing value"));
    assert!(script.contains("try"));
    assert!(script.contains("do JavaScript jsCode"));
    assert!(script.contains("on error errMsg"));
    assert!(script.contains("& linefeed &"));
    assert!(script.contains("if rawResult is missing value then"));
}

#[test]
fn profile_is_read_only_from_a_titled_window() {
    assert_eq!(extract_profile("Google Gemini", "Google Gemini"), None);
    assert_eq!(extract_profile("  — Mail", "Mail"), None);
    assert_eq!(extract_profile(" Work  — Mail", "Mail").as_deref(), Some("Work"));
}

#[test]
fn malformed_tab_lines_are_dropped() {
    assert!(parse_tab_line("1<<<FIELD_SEP>>>W<<<FIELD_SEP>>>x<<<FIELD_SEP>>>T<<<FIELD_SEP>>>U<<<FIELD_SEP>>>true").is_none());
    assert!(parse_tab_line("only one field").is_none());
    let tabs = parse_tabs_output("garbage---TAB_SEP---   ---TAB_SEP---");
    assert!(tabs.is_empty());
}

#[test]
fn decode_field_undoes_the_script_field_encoding() {
    // What the scripts' encode_field handler prints for `original`.
    let original = "a\\b\tc\r\nd---TAB_SEP---e";
    let encoded = "a\\\\b\\tc\\r\\nd\\se";
    let chars: Vec<char> = encoded.chars().collect();
    assert_eq!(decode_field(&chars), original);
}

#[test]
fn decode_field_keeps_unknown_escapes_and_a_trailing_backslash() {
    let chars: Vec<char> = "x\\qy\\".chars().collect();
    assert_eq!(decode_field(&chars), "x\\qy\\");
}
