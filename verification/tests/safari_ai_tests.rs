use std::time::Duration;

use adapter_macos::safari::ai::chatgpt::{
    build_chatgpt_click_send_js, build_chatgpt_fill_input_js, build_chatgpt_go_home_js,
    chatgpt_image_extract_js, chatgpt_image_list_js, chatgpt_list_conversations_js,
    chatgpt_response_extract_js,
};
use adapter_macos::safari::ai::gemini::{
    build_gemini_fill_input_js, build_gemini_go_home_js, gemini_deep_research_poll_js,
    gemini_response_extract_js,
};
use adapter_macos::safari::ai::grok::{
    build_grok_click_send_js, build_grok_fill_input_js, build_grok_go_home_js,
    grok_list_conversations_js, grok_response_extract_js,
};
use adapter_macos::safari::ai::{
    chatgpt_image_result, chatgpt_image_result_is_ready,
    chatgpt_should_return_empty_complete_result, should_skip_chatgpt_response,
    should_skip_gemini_response, should_skip_grok_response, ImageEntry, ImagePayload,
    SafariAiImage, SafariAiImageResult,
};

#[test]
fn safari_chatgpt_go_home_script_targets_new_chat() {
    let script = build_chatgpt_go_home_js();

    assert!(script.contains("chatgpt.com"));
    assert!(script.contains("window.location.href"));
}

#[test]
fn safari_chatgpt_fill_input_script_targets_prompt_textarea() {
    let script = build_chatgpt_fill_input_js("hello from chatgpt");

    assert!(script.contains("#prompt-textarea"));
    assert!(script.contains("hello from chatgpt"));
    assert!(script.contains("execCommand"));
}

#[test]
fn safari_chatgpt_click_send_script_checks_accessible_labels() {
    let script = build_chatgpt_click_send_js();

    assert!(script.contains("Send prompt"));
    assert!(script.contains("Send message"));
    assert!(script.contains("button.disabled"));
}

#[test]
fn safari_chatgpt_response_extract_script_returns_response_and_conversation_url() {
    let script = chatgpt_response_extract_js();

    assert!(script.contains("article"));
    assert!(script.contains("conversation_url"));
    assert!(script.contains("window.location.href"));
    assert!(script.contains("complete"));
}

#[test]
fn safari_chatgpt_list_script_targets_history_nav_links() {
    let script = chatgpt_list_conversations_js();

    assert!(script.contains("Chat history"));
    assert!(script.contains("nav[role=\"navigation\"]"));
    assert!(script.contains("a[href^=\"/c/\"]"));
    assert!(script.contains("https://chatgpt.com"));
    assert!(script.contains("Recent"));
}

#[test]
fn safari_chatgpt_image_list_script_reads_generated_images() {
    let script = chatgpt_image_list_js();

    assert!(script.contains("chatgpt\\.com\\/backend-api\\/estuary\\/content"));
    assert!(script.contains("conversation_url"));
    assert!(script.contains("img.width < 256"));
}

#[test]
fn safari_chatgpt_image_list_script_includes_loaded_signal() {
    let script = chatgpt_image_list_js();

    assert!(script.contains("img.complete"));
    assert!(script.contains("loaded"));
}

#[test]
fn safari_chatgpt_image_extract_script_targets_url() {
    let script = chatgpt_image_extract_js("https://example.com/img.png");

    assert!(script.contains("https://example.com/img.png"));
    assert!(script.contains("drawImage"));
    assert!(!script.contains("new Set"));
}

#[test]
fn safari_chatgpt_image_result_requires_all_images_to_be_ready() {
    let unloaded = SafariAiImageResult {
        provider: "chatgpt".to_string(),
        mode: "image".to_string(),
        status: "complete".to_string(),
        conversation_url: Some("https://chatgpt.com/c/test".to_string()),
        images: vec![SafariAiImage {
            url: "https://chatgpt.com/backend-api/estuary/content?id=file_123".to_string(),
            loaded: false,
        }],
    };
    let mixed = SafariAiImageResult {
        images: vec![
            SafariAiImage {
                url: "https://chatgpt.com/backend-api/estuary/content?id=file_123".to_string(),
                loaded: true,
            },
            SafariAiImage {
                url: "https://chatgpt.com/backend-api/estuary/content?id=file_456".to_string(),
                loaded: false,
            },
        ],
        ..unloaded.clone()
    };
    let loaded = SafariAiImageResult {
        images: vec![
            SafariAiImage {
                url: "https://chatgpt.com/backend-api/estuary/content?id=file_123".to_string(),
                loaded: true,
            },
            SafariAiImage {
                url: "https://chatgpt.com/backend-api/estuary/content?id=file_456".to_string(),
                loaded: true,
            },
        ],
        ..unloaded.clone()
    };

    assert!(!chatgpt_image_result_is_ready(&unloaded));
    assert!(!chatgpt_image_result_is_ready(&mixed));
    assert!(chatgpt_image_result_is_ready(&loaded));
}

#[test]
fn safari_chatgpt_empty_complete_grace_only_applies_without_images() {
    let complete_without_images = SafariAiImageResult {
        provider: "chatgpt".to_string(),
        mode: "image".to_string(),
        status: "complete".to_string(),
        conversation_url: Some("https://chatgpt.com/c/test".to_string()),
        images: Vec::new(),
    };
    let complete_with_unloaded_images = SafariAiImageResult {
        images: vec![SafariAiImage {
            url: "https://chatgpt.com/backend-api/estuary/content?id=file_123".to_string(),
            loaded: false,
        }],
        ..complete_without_images.clone()
    };

    assert!(chatgpt_should_return_empty_complete_result(
        &complete_without_images,
        Duration::from_secs(8).as_millis(),
        3
    ));
    assert!(!chatgpt_should_return_empty_complete_result(
        &complete_with_unloaded_images,
        Duration::from_secs(8).as_millis(),
        3
    ));
}

#[test]
fn mod_chatgpt_go_home_script_targets_new_chat() {
    let script = build_chatgpt_go_home_js();

    assert!(script.contains("chatgpt.com"));
    assert!(script.contains("window.location.href"));
}

#[test]
fn mod_chatgpt_fill_input_script_targets_prompt_textarea() {
    let script = build_chatgpt_fill_input_js("hello from chatgpt");

    assert!(script.contains("#prompt-textarea"));
    assert!(script.contains("hello from chatgpt"));
    assert!(script.contains("execCommand"));
}

#[test]
fn mod_chatgpt_click_send_script_checks_accessible_labels() {
    let script = build_chatgpt_click_send_js();

    assert!(script.contains("Send prompt"));
    assert!(script.contains("Send message"));
    assert!(script.contains("button.disabled"));
}

#[test]
fn mod_chatgpt_response_extract_script_returns_response_and_conversation_url() {
    let script = chatgpt_response_extract_js();

    assert!(script.contains("article"));
    assert!(script.contains("conversation_url"));
    assert!(script.contains("window.location.href"));
    assert!(script.contains("complete"));
}

#[test]
fn mod_chatgpt_list_script_targets_history_nav_links() {
    let script = chatgpt_list_conversations_js();

    assert!(script.contains("Chat history"));
    assert!(script.contains("nav[role=\"navigation\"]"));
    assert!(script.contains("a[href^=\"/c/\"]"));
    assert!(script.contains("https://chatgpt.com"));
    assert!(script.contains("Recent"));
}

#[test]
fn mod_chatgpt_image_list_script_reads_generated_images() {
    let script = chatgpt_image_list_js();

    assert!(script.contains("chatgpt\\.com\\/backend-api\\/estuary\\/content"));
    assert!(script.contains("conversation_url"));
    assert!(script.contains("img.width < 256"));
}

#[test]
fn mod_chatgpt_image_list_script_includes_loaded_signal() {
    let script = chatgpt_image_list_js();

    assert!(script.contains("img.complete"));
    assert!(script.contains("loaded"));
}

#[test]
fn mod_chatgpt_image_extract_script_targets_url() {
    let script = chatgpt_image_extract_js("https://example.com/img.png");

    assert!(script.contains("https://example.com/img.png"));
    assert!(script.contains("drawImage"));
    assert!(!script.contains("new Set"));
}

#[test]
fn mod_chatgpt_image_result_requires_all_images_to_be_ready() {
    let unloaded = SafariAiImageResult {
        provider: "chatgpt".to_string(),
        mode: "image".to_string(),
        status: "complete".to_string(),
        conversation_url: Some("https://chatgpt.com/c/test".to_string()),
        images: vec![SafariAiImage {
            url: "https://chatgpt.com/backend-api/estuary/content?id=file_123".to_string(),
            loaded: false,
        }],
    };
    let mixed = SafariAiImageResult {
        images: vec![
            SafariAiImage {
                url: "https://chatgpt.com/backend-api/estuary/content?id=file_123".to_string(),
                loaded: true,
            },
            SafariAiImage {
                url: "https://chatgpt.com/backend-api/estuary/content?id=file_456".to_string(),
                loaded: false,
            },
        ],
        ..unloaded.clone()
    };
    let loaded = SafariAiImageResult {
        images: vec![
            SafariAiImage {
                url: "https://chatgpt.com/backend-api/estuary/content?id=file_123".to_string(),
                loaded: true,
            },
            SafariAiImage {
                url: "https://chatgpt.com/backend-api/estuary/content?id=file_456".to_string(),
                loaded: true,
            },
        ],
        ..unloaded.clone()
    };

    assert!(!chatgpt_image_result_is_ready(&unloaded));
    assert!(!chatgpt_image_result_is_ready(&mixed));
    assert!(chatgpt_image_result_is_ready(&loaded));
}

#[test]
fn mod_chatgpt_empty_complete_grace_only_applies_without_images() {
    let complete_without_images = SafariAiImageResult {
        provider: "chatgpt".to_string(),
        mode: "image".to_string(),
        status: "complete".to_string(),
        conversation_url: Some("https://chatgpt.com/c/test".to_string()),
        images: Vec::new(),
    };
    let complete_with_unloaded_images = SafariAiImageResult {
        images: vec![SafariAiImage {
            url: "https://chatgpt.com/backend-api/estuary/content?id=file_123".to_string(),
            loaded: false,
        }],
        ..complete_without_images.clone()
    };

    assert!(chatgpt_should_return_empty_complete_result(
        &complete_without_images,
        Duration::from_secs(8).as_millis(),
        3
    ));
    assert!(!chatgpt_should_return_empty_complete_result(
        &complete_with_unloaded_images,
        Duration::from_secs(8).as_millis(),
        3
    ));
}

#[test]
fn tests_chatgpt_go_home_script_targets_new_chat() {
    let script = build_chatgpt_go_home_js();

    assert!(script.contains("chatgpt.com"));
    assert!(script.contains("window.location.href"));
}

#[test]
fn tests_chatgpt_fill_input_script_targets_prompt_textarea() {
    let script = build_chatgpt_fill_input_js("hello from chatgpt");

    assert!(script.contains("#prompt-textarea"));
    assert!(script.contains("hello from chatgpt"));
    assert!(script.contains("execCommand"));
}

#[test]
fn tests_chatgpt_click_send_script_checks_accessible_labels() {
    let script = build_chatgpt_click_send_js();

    assert!(script.contains("Send prompt"));
    assert!(script.contains("Send message"));
    assert!(script.contains("button.disabled"));
}

#[test]
fn tests_chatgpt_response_extract_script_returns_response_and_conversation_url() {
    let script = chatgpt_response_extract_js();

    assert!(script.contains("article"));
    assert!(script.contains("conversation_url"));
    assert!(script.contains("window.location.href"));
    assert!(script.contains("complete"));
}

#[test]
fn tests_chatgpt_list_script_targets_history_nav_links() {
    let script = chatgpt_list_conversations_js();

    assert!(script.contains("Chat history"));
    assert!(script.contains("nav[role=\"navigation\"]"));
    assert!(script.contains("a[href^=\"/c/\"]"));
    assert!(script.contains("https://chatgpt.com"));
    assert!(script.contains("Recent"));
}

#[test]
fn tests_chatgpt_image_list_script_reads_generated_images() {
    let script = chatgpt_image_list_js();

    assert!(script.contains("chatgpt\\.com\\/backend-api\\/estuary\\/content"));
    assert!(script.contains("conversation_url"));
    assert!(script.contains("img.width < 256"));
}

#[test]
fn tests_chatgpt_image_list_script_includes_loaded_signal() {
    let script = chatgpt_image_list_js();

    assert!(script.contains("img.complete"));
    assert!(script.contains("loaded"));
}

#[test]
fn tests_chatgpt_image_extract_script_targets_url() {
    let script = chatgpt_image_extract_js("https://example.com/img.png");

    assert!(script.contains("https://example.com/img.png"));
    assert!(script.contains("drawImage"));
    assert!(!script.contains("new Set"));
}

#[test]
fn tests_chatgpt_image_result_requires_all_images_to_be_ready() {
    let unloaded = SafariAiImageResult {
        provider: "chatgpt".to_string(),
        mode: "image".to_string(),
        status: "complete".to_string(),
        conversation_url: Some("https://chatgpt.com/c/test".to_string()),
        images: vec![SafariAiImage {
            url: "https://chatgpt.com/backend-api/estuary/content?id=file_123".to_string(),
            loaded: false,
        }],
    };
    let mixed = SafariAiImageResult {
        images: vec![
            SafariAiImage {
                url: "https://chatgpt.com/backend-api/estuary/content?id=file_123".to_string(),
                loaded: true,
            },
            SafariAiImage {
                url: "https://chatgpt.com/backend-api/estuary/content?id=file_456".to_string(),
                loaded: false,
            },
        ],
        ..unloaded.clone()
    };
    let loaded = SafariAiImageResult {
        images: vec![
            SafariAiImage {
                url: "https://chatgpt.com/backend-api/estuary/content?id=file_123".to_string(),
                loaded: true,
            },
            SafariAiImage {
                url: "https://chatgpt.com/backend-api/estuary/content?id=file_456".to_string(),
                loaded: true,
            },
        ],
        ..unloaded.clone()
    };

    assert!(!chatgpt_image_result_is_ready(&unloaded));
    assert!(!chatgpt_image_result_is_ready(&mixed));
    assert!(chatgpt_image_result_is_ready(&loaded));
}

#[test]
fn tests_chatgpt_empty_complete_grace_only_applies_without_images() {
    let complete_without_images = SafariAiImageResult {
        provider: "chatgpt".to_string(),
        mode: "image".to_string(),
        status: "complete".to_string(),
        conversation_url: Some("https://chatgpt.com/c/test".to_string()),
        images: Vec::new(),
    };
    let complete_with_unloaded_images = SafariAiImageResult {
        images: vec![SafariAiImage {
            url: "https://chatgpt.com/backend-api/estuary/content?id=file_123".to_string(),
            loaded: false,
        }],
        ..complete_without_images.clone()
    };

    assert!(chatgpt_should_return_empty_complete_result(
        &complete_without_images,
        Duration::from_secs(8).as_millis(),
        3
    ));
    assert!(!chatgpt_should_return_empty_complete_result(
        &complete_with_unloaded_images,
        Duration::from_secs(8).as_millis(),
        3
    ));
}

#[test]
fn safari_gemini_fill_input_script_targets_editor() {
    let script = build_gemini_fill_input_js("hello world");

    assert!(script.contains(".ql-editor"));
    assert!(script.contains("hello world"));
    assert!(script.contains("execCommand"));
}

#[test]
fn safari_gemini_go_home_script_targets_root_app() {
    let script = build_gemini_go_home_js();

    assert!(script.contains("gemini.google.com/app"));
}

#[test]
fn safari_gemini_response_extract_script_targets_latest_response() {
    let script = gemini_response_extract_js();

    assert!(script.contains(".model-response-text"));
    assert!(script.contains("querySelectorAll"));
    assert!(script.contains("elements[elements.length - 1]"));
}

#[test]
fn mod_gemini_fill_input_script_targets_editor() {
    let script = build_gemini_fill_input_js("hello world");

    assert!(script.contains(".ql-editor"));
    assert!(script.contains("hello world"));
    assert!(script.contains("execCommand"));
}

#[test]
fn mod_gemini_go_home_script_targets_root_app() {
    let script = build_gemini_go_home_js();

    assert!(script.contains("gemini.google.com/app"));
}

#[test]
fn mod_gemini_response_extract_script_targets_latest_response() {
    let script = gemini_response_extract_js();

    assert!(script.contains(".model-response-text"));
    assert!(script.contains("querySelectorAll"));
    assert!(script.contains("elements[elements.length - 1]"));
}

#[test]
fn safari_gemini_deep_research_poll_script_exposes_status_markers() {
    let script = gemini_deep_research_poll_js();

    assert!(script.contains("plan_ready"));
    assert!(script.contains("running"));
    assert!(script.contains("complete"));
    assert!(script.contains("開始研究"));
    assert!(script.contains("編輯計畫"));
}

#[test]
fn deep_research_gemini_deep_research_poll_script_exposes_status_markers() {
    let script = gemini_deep_research_poll_js();

    assert!(script.contains("plan_ready"));
    assert!(script.contains("running"));
    assert!(script.contains("complete"));
    assert!(script.contains("開始研究"));
    assert!(script.contains("編輯計畫"));
}

#[test]
fn grok_go_home_script_targets_root_page() {
    let script = build_grok_go_home_js();

    assert!(script.contains("https://grok.com/"));
    assert!(script.contains("window.location.href"));
}

#[test]
fn grok_fill_input_script_targets_prompt_editor() {
    let script = build_grok_fill_input_js("hello from grok");

    assert!(script.contains("textarea"));
    assert!(script.contains("contenteditable='true'"));
    assert!(script.contains("hello from grok"));
}

#[test]
fn grok_click_send_script_checks_accessible_labels() {
    let script = build_grok_click_send_js();

    assert!(script.contains("ask grok"));
    assert!(script.contains("提交"));
    assert!(script.contains("aria-label"));
    assert!(script.contains("data-testid"));
}

#[test]
fn grok_response_extract_script_returns_response_and_conversation_url() {
    let script = grok_response_extract_js();

    assert!(script.contains("grok\\.com\\/share\\/"));
    assert!(script.contains("conversation_url"));
    assert!(script.contains("window.location.href"));
    assert!(script.contains("complete"));
}

#[test]
fn grok_list_script_targets_share_and_history_links() {
    let script = grok_list_conversations_js();

    assert!(script.contains("a[href^=\"/c/\"]"));
    assert!(script.contains("a.peer\\\\/menu-button[href^=\"/c/\"]"));
    assert!(script.contains("https://grok.com"));
}

#[test]
fn safari_should_skip_gemini_response_trims_prompt_whitespace() {
    assert!(should_skip_gemini_response("hello", "  hello  "));
    assert!(!should_skip_gemini_response("world", "  hello  "));
}

#[test]
fn safari_should_skip_chatgpt_response_trims_prompt_whitespace() {
    assert!(should_skip_chatgpt_response("hello", "  hello  "));
    assert!(!should_skip_chatgpt_response("world", "  hello  "));
}

#[test]
fn mod_should_skip_gemini_response_trims_prompt_whitespace() {
    assert!(should_skip_gemini_response("hello", "  hello  "));
    assert!(!should_skip_gemini_response("world", "  hello  "));
}

#[test]
fn mod_should_skip_chatgpt_response_trims_prompt_whitespace() {
    assert!(should_skip_chatgpt_response("hello", "  hello  "));
    assert!(!should_skip_chatgpt_response("world", "  hello  "));
}

#[test]
fn should_skip_grok_response_trims_prompt_whitespace() {
    assert!(should_skip_grok_response("hello", "  hello  "));
    assert!(!should_skip_grok_response("world", "  hello  "));
}

#[test]
fn image_payload_defaults_status_and_drops_entries_without_url() {
    let payload = ImagePayload {
        status: None,
        conversation_url: Some("https://chatgpt.com/c/test".to_string()),
        images: Some(vec![
            ImageEntry { url: Some("https://chatgpt.com/backend-api/estuary/content?id=file_123".to_string()), loaded: None },
            ImageEntry { url: None, loaded: Some(true) },
            ImageEntry { url: Some("https://chatgpt.com/backend-api/estuary/content?id=file_456".to_string()), loaded: Some(true) },
        ]),
    };
    let result = chatgpt_image_result(&payload);

    assert_eq!(result.provider, "chatgpt");
    assert_eq!(result.mode, "image");
    assert_eq!(result.status, "running");
    assert_eq!(result.conversation_url.as_deref(), Some("https://chatgpt.com/c/test"));
    assert_eq!(result.images.len(), 2);
    assert!(!result.images[0].loaded);
    assert!(result.images[1].loaded);
    assert_eq!(result.images[1].url, "https://chatgpt.com/backend-api/estuary/content?id=file_456");
}

#[test]
fn empty_complete_grace_waits_for_the_grace_period() {
    let result = SafariAiImageResult {
        provider: "chatgpt".to_string(),
        mode: "image".to_string(),
        status: "complete".to_string(),
        conversation_url: None,
        images: Vec::new(),
    };

    assert!(!chatgpt_should_return_empty_complete_result(&result, 2_999, 3));
    assert!(chatgpt_should_return_empty_complete_result(&result, 3_000, 3));
}

#[test]
fn prompt_text_is_escaped_in_fill_scripts() {
    let script = build_chatgpt_fill_input_js("say \"hi\"\nnow");

    assert!(script.contains("say \\\"hi\\\"\\nnow"));
}
