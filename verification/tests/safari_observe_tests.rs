use adapter_macos::safari::ai::effort::{build_effort_js, effort_outcome};
use adapter_macos::safari::inspect::{batch_js, inspect_js};
use adapter_macos::safari::interaction::RUNTIME;
use adapter_macos::safari::observe::{console_query, network_query, observation_script, BOOTSTRAP};
use adapter_macos::safari::types::SafariEvalResult;

#[test]
fn validates_choice_before_browser_interaction() {
    assert!(build_effort_js("pro").is_ok());
    assert!(build_effort_js("4").is_ok());
    assert!(build_effort_js("invalid").is_err());
    assert!(build_effort_js("-1").is_err());
}

#[test]
fn effort_script_embeds_the_choice_as_json() {
    let js = build_effort_js("+7").expect("a signed level parses");
    assert!(js.contains("const choice = \"+7\";"));
    assert!(js.contains(RUNTIME));
    assert!(js.contains("return {level: current, min, max};"));
    assert!(js.contains("ChatGPT effort ${choice} is outside slider range ${min}-${max}"));
    assert_eq!(
        build_effort_js("4294967296").unwrap_err().to_string(),
        "ChatGPT --effort must be a slider number or 'pro'"
    );
}

#[test]
fn effort_outcome_requires_an_integer_level() {
    let ok = SafariEvalResult { result: r#"{"level":4,"min":0,"max":4}"#.to_string(), value_type: "object".to_string() };
    assert!(effort_outcome(Ok(ok)).is_ok());
    let missing = SafariEvalResult { result: r#"{"min":0}"#.to_string(), value_type: "object".to_string() };
    assert_eq!(
        effort_outcome(Ok(missing)).unwrap_err().to_string(),
        "ChatGPT effort result did not contain a level"
    );
    let fractional = SafariEvalResult { result: r#"{"level":1.5}"#.to_string(), value_type: "object".to_string() };
    assert!(effort_outcome(Ok(fractional)).is_err());
}

#[test]
fn console_query_filters_by_level() {
    assert_eq!(
        console_query(Some("warn")).unwrap(),
        "{started_at: state.started_at, dropped: state.console_dropped, messages: state.console.filter(item => \"warn\" === null || item.level === \"warn\")}"
    );
    assert_eq!(
        console_query(None).unwrap(),
        "{started_at: state.started_at, dropped: state.console_dropped, messages: state.console.filter(item => null === null || item.level === null)}"
    );
    assert_eq!(console_query(Some("trace")).unwrap_err().to_string(), "unsupported console level: trace");
}

#[test]
fn network_query_reads_one_request_or_all() {
    assert_eq!(
        network_query(Some(42)),
        "{started_at: state.started_at, request: state.network.find(item => item.id === 42) || null}"
    );
    assert!(network_query(None).starts_with("{started_at: state.started_at, dropped: state.network_dropped, requests: state.network.map("));
}

#[test]
fn observation_script_installs_the_capture_first() {
    let script = observation_script("state.console");
    assert!(script.starts_with("(() => { "));
    assert!(script.contains(BOOTSTRAP));
    assert!(script.ends_with(" const state = window.__cuewardObserve; return JSON.stringify(state.console); })()"));
}

#[test]
fn inspect_script_names_the_snapshot_and_limit() {
    let js = inspect_js(25, "ab-1");
    assert!(js.contains("const state = {snapshot: \"ab-1\", nodes: new Map()};"));
    assert!(js.contains("if (nodes.length >= 25 ||"));
    assert!(js.contains(RUNTIME));
}

#[test]
fn batch_script_embeds_the_steps() {
    let js = batch_js(r#"[{"action":"click","ref":"a:1"}]"#);
    assert!(js.contains(r#"const steps = [{"action":"click","ref":"a:1"}];"#));
    assert!(js.contains("return JSON.stringify({ok: true, completed});"));
}

use adapter_macos::safari::ai::media::{
    gemini_image_extract_js, image_file_name, image_prefix, image_step, join_path, media_outcome,
};

#[test]
fn image_paths_follow_the_conversation() {
    assert_eq!(image_prefix(Some("https://chatgpt.com/c/abc-123")), "abc-123");
    assert_eq!(image_prefix(Some("https://chatgpt.com/c/")), "chatgpt");
    assert_eq!(image_prefix(Some("plain")), "plain");
    assert_eq!(image_prefix(None), "chatgpt");
    assert_eq!(image_file_name("abc", 3), "abc_image_3.png");
    assert_eq!(join_path("/tmp/out", "a.png"), "/tmp/out/a.png");
    assert_eq!(join_path("/tmp/out/", "a.png"), "/tmp/out/a.png");
    assert_eq!(join_path("", "a.png"), "a.png");
}

#[test]
fn image_step_decodes_base64_or_skips_blank_replies() {
    assert_eq!(image_step("  \n", 0, "/tmp", "gemini").unwrap(), None);
    let (path, bytes) = image_step(" aGk= \n", 2, "/tmp/out", "gemini").unwrap().unwrap();
    assert_eq!(path, "/tmp/out/gemini_image_2.png");
    assert_eq!(bytes, b"hi".to_vec());
    let err = image_step("not base64!", 1, "/tmp", "x").unwrap_err().to_string();
    assert!(err.starts_with("base64 decode failed for image 1: "));
}

#[test]
fn gemini_extract_script_selects_the_image() {
    let js = gemini_image_extract_js(4);
    assert!(js.contains("const img = imgs[4];"));
    assert!(js.contains("canvas.toDataURL(\"image/png\")"));
}

#[test]
fn media_outcome_reads_status_and_response() {
    let r = media_outcome(r#"{"status":"downloading","response":"blob:x"}"#).unwrap();
    assert_eq!(r.provider, "gemini");
    assert_eq!(r.status, "downloading");
    assert_eq!(r.response, "blob:x");
    let r = media_outcome(r#"{"response":7}"#).unwrap();
    assert_eq!(r.status, "error");
    assert_eq!(r.response, "");
    assert!(media_outcome("nope").unwrap_err().to_string().starts_with("failed to parse media result: "));
}
