use adapter_macos::error::MacosError;
use adapter_macos::shortcuts::{
    append_action, build_action, compile_actions, compiled_action_count, decompile_actions, dedupe_alias,
    slugify_alias, CountTable, OutputTable, ShortcutAction, ShortcutInputPolicy, ShortcutReference, ShortcutSpec,
    ShortcutSurface,
};
use serde_json::Value;

fn object(members: Vec<(&str, Value)>) -> Value {
    let mut map = serde_json::Map::new();
    for (key, value) in members {
        map.insert(key.to_string(), value);
    }
    Value::Object(map)
}

fn text(s: &str) -> Value {
    Value::String(s.to_string())
}

fn payload_of(actions: &Vec<Value>) -> Vec<u8> {
    let mut payload = Vec::new();
    plist::to_writer_binary(&mut payload, actions).unwrap();
    payload
}

fn control_flow_spec() -> ShortcutSpec {
    ShortcutSpec {
        name: "Control Flow Smoke".into(),
        surfaces: vec![],
        input: ShortcutInputPolicy::Any,
        actions: vec![
            ShortcutAction::Text {
                value: "match".into(),
                output: Some("input_text".into()),
            },
            ShortcutAction::IfEqualsText {
                input: ShortcutReference::Output("input_text".into()),
                value: "match".into(),
                then_actions: vec![
                    ShortcutAction::Text {
                        value: "ok".into(),
                        output: Some("condition_result".into()),
                    },
                    ShortcutAction::CopyToClipboard {
                        from: ShortcutReference::Output("condition_result".into()),
                    },
                ],
            },
            ShortcutAction::RepeatEach {
                input: ShortcutReference::Output("input_text".into()),
                body: vec![ShortcutAction::Share {
                    from: ShortcutReference::RepeatItem,
                }],
            },
        ],
    }
}

fn text_and_clipboard_spec() -> ShortcutSpec {
    ShortcutSpec {
        name: "Plan Smoke".into(),
        surfaces: vec![],
        input: ShortcutInputPolicy::Any,
        actions: vec![
            ShortcutAction::Text {
                value: "hello".into(),
                output: Some("greeting".into()),
            },
            ShortcutAction::CopyToClipboard {
                from: ShortcutReference::Output("greeting".into()),
            },
        ],
    }
}

#[test]
fn compiler_tests_compile_actions_builds_text_and_clipboard_chain() {
    let spec = text_and_clipboard_spec();

    let payload = compile_actions(&spec).unwrap();
    let actions = plist::from_bytes::<Vec<plist::Value>>(&payload).unwrap();

    assert_eq!(actions.len(), 2);

    let first = actions[0].as_dictionary().unwrap();
    assert_eq!(
        first.get("WFWorkflowActionIdentifier").unwrap().as_string(),
        Some("is.workflow.actions.gettext")
    );
    let first_params = first.get("WFWorkflowActionParameters").unwrap().as_dictionary().unwrap();
    assert_eq!(
        first_params.get("CustomOutputName").and_then(plist::Value::as_string),
        Some("greeting")
    );

    let second = actions[1].as_dictionary().unwrap();
    assert_eq!(
        second.get("WFWorkflowActionIdentifier").unwrap().as_string(),
        Some("is.workflow.actions.setclipboard")
    );
    let second_params = second.get("WFWorkflowActionParameters").unwrap().as_dictionary().unwrap();
    let input = second_params.get("WFInput").unwrap().as_dictionary().unwrap();
    let value = input.get("Value").unwrap().as_dictionary().unwrap();
    assert_eq!(
        value.get("OutputName").and_then(plist::Value::as_string),
        Some("greeting")
    );
}

#[test]
fn tests_compile_actions_builds_text_and_clipboard_chain() {
    let spec = text_and_clipboard_spec();

    let payload = compile_actions(&spec).unwrap();
    let actions = plist::from_bytes::<Vec<plist::Value>>(&payload).unwrap();

    assert_eq!(actions.len(), 2);

    let first = actions[0].as_dictionary().unwrap();
    assert_eq!(
        first.get("WFWorkflowActionIdentifier").unwrap().as_string(),
        Some("is.workflow.actions.gettext")
    );

    let second = actions[1].as_dictionary().unwrap();
    assert_eq!(
        second.get("WFWorkflowActionIdentifier").unwrap().as_string(),
        Some("is.workflow.actions.setclipboard")
    );
}

#[test]
fn append_action_uses_existing_custom_output_name_as_reference() {
    let spec = ShortcutSpec {
        name: "Plan Smoke".into(),
        surfaces: vec![],
        input: ShortcutInputPolicy::Any,
        actions: vec![ShortcutAction::Text {
            value: "hello".into(),
            output: Some("greeting".into()),
        }],
    };

    let existing = compile_actions(&spec).unwrap();
    let appended = append_action(
        &existing,
        &ShortcutAction::CopyToClipboard {
            from: ShortcutReference::Output("greeting".into()),
        },
    )
    .unwrap();

    let actions = plist::from_bytes::<Vec<plist::Value>>(&appended).unwrap();
    assert_eq!(actions.len(), 2);
    let second = actions[1].as_dictionary().unwrap();
    let second_params = second.get("WFWorkflowActionParameters").unwrap().as_dictionary().unwrap();
    let input = second_params.get("WFInput").unwrap().as_dictionary().unwrap();
    let value = input.get("Value").unwrap().as_dictionary().unwrap();
    assert_eq!(
        value.get("OutputName").and_then(plist::Value::as_string),
        Some("greeting")
    );
}

#[test]
fn compile_actions_resolves_input_before_reusing_same_output_name() {
    let spec = ShortcutSpec {
        name: "Alias Reuse".into(),
        surfaces: vec![],
        input: ShortcutInputPolicy::Any,
        actions: vec![
            ShortcutAction::Text {
                value: "hello".into(),
                output: Some("url_text".into()),
            },
            ShortcutAction::GetUrls {
                from: ShortcutReference::Output("url_text".into()),
                output: Some("url_text".into()),
            },
        ],
    };

    let payload = compile_actions(&spec).unwrap();
    let actions = plist::from_bytes::<Vec<plist::Value>>(&payload).unwrap();

    let first_uuid = actions[0]
        .as_dictionary()
        .unwrap()
        .get("WFWorkflowActionParameters")
        .unwrap()
        .as_dictionary()
        .unwrap()
        .get("UUID")
        .and_then(plist::Value::as_string)
        .unwrap()
        .to_string();

    let second_input_uuid = actions[1]
        .as_dictionary()
        .unwrap()
        .get("WFWorkflowActionParameters")
        .unwrap()
        .as_dictionary()
        .unwrap()
        .get("WFInput")
        .unwrap()
        .as_dictionary()
        .unwrap()
        .get("Value")
        .unwrap()
        .as_dictionary()
        .unwrap()
        .get("OutputUUID")
        .and_then(plist::Value::as_string)
        .unwrap()
        .to_string();

    assert_eq!(second_input_uuid, first_uuid);
}

#[test]
fn compile_actions_supports_extension_input_as_direct_reference() {
    let spec = ShortcutSpec {
        name: "Extension Input".into(),
        surfaces: vec![],
        input: ShortcutInputPolicy::Url,
        actions: vec![ShortcutAction::GetUrls {
            from: ShortcutReference::ExtensionInput,
            output: Some("urls".into()),
        }],
    };

    let payload = compile_actions(&spec).unwrap();
    let actions = plist::from_bytes::<Vec<plist::Value>>(&payload).unwrap();
    let params = actions[0]
        .as_dictionary()
        .unwrap()
        .get("WFWorkflowActionParameters")
        .unwrap()
        .as_dictionary()
        .unwrap();
    let input = params.get("WFInput").unwrap().as_dictionary().unwrap();
    let value = input.get("Value").unwrap().as_dictionary().unwrap();

    assert_eq!(
        input.get("WFSerializationType").and_then(plist::Value::as_string),
        Some("WFTextTokenAttachment")
    );
    assert_eq!(value.get("Type").and_then(plist::Value::as_string), Some("ExtensionInput"));
}

#[test]
fn decompile_actions_round_trips_supported_clean_url_subset() {
    let spec = ShortcutSpec {
        name: "Clean URL Share".into(),
        surfaces: vec![ShortcutSurface::ShareSheet, ShortcutSurface::LibraryRoot],
        input: ShortcutInputPolicy::Url,
        actions: vec![
            ShortcutAction::GetText {
                from: ShortcutReference::ExtensionInput,
                output: Some("input_url_text".into()),
            },
            ShortcutAction::GetUrls {
                from: ShortcutReference::Output("input_url_text".into()),
                output: Some("urls".into()),
            },
            ShortcutAction::GetText {
                from: ShortcutReference::Output("urls".into()),
                output: Some("normalized_url_text".into()),
            },
            ShortcutAction::ReplaceText {
                from: ShortcutReference::Output("normalized_url_text".into()),
                find: "foo".into(),
                replace: "bar".into(),
                regex: true,
                ignore_case: true,
                output: Some("tracking_removed".into()),
            },
            ShortcutAction::CopyToClipboard {
                from: ShortcutReference::Output("tracking_removed".into()),
            },
            ShortcutAction::Share {
                from: ShortcutReference::Output("tracking_removed".into()),
            },
        ],
    };

    let payload = compile_actions(&spec).unwrap();
    let decompiled = decompile_actions(&payload).unwrap();

    assert_eq!(decompiled, spec.actions);
}

#[test]
fn decompile_actions_preserves_inferred_default_output_aliases() {
    let actions = vec![
        object(vec![
            ("WFWorkflowActionIdentifier", text("is.workflow.actions.gettext")),
            (
                "WFWorkflowActionParameters",
                object(vec![
                    ("UUID", text("12345678-1234-1234-1234-1234567890AB")),
                    ("WFTextActionText", text("hello")),
                ]),
            ),
        ]),
        object(vec![
            ("WFWorkflowActionIdentifier", text("is.workflow.actions.setclipboard")),
            (
                "WFWorkflowActionParameters",
                object(vec![(
                    "WFInput",
                    object(vec![
                        (
                            "Value",
                            object(vec![
                                ("OutputName", text("Text")),
                                ("OutputUUID", text("12345678-1234-1234-1234-1234567890AB")),
                                ("Type", text("ActionOutput")),
                            ]),
                        ),
                        ("WFSerializationType", text("WFTextTokenAttachment")),
                    ]),
                )]),
            ),
        ]),
    ];
    let payload = payload_of(&actions);

    let decompiled = decompile_actions(&payload).unwrap();

    assert_eq!(
        decompiled,
        vec![
            ShortcutAction::Text {
                value: "hello".into(),
                output: Some("text".into()),
            },
            ShortcutAction::CopyToClipboard {
                from: ShortcutReference::Output("text".into()),
            },
        ]
    );
}

#[test]
fn compile_and_decompile_if_and_repeat_round_trip() {
    let spec = control_flow_spec();

    let payload = compile_actions(&spec).unwrap();
    let decompiled = decompile_actions(&payload).unwrap();

    assert_eq!(decompiled, spec.actions);
}

#[test]
fn compiled_action_count_flattens_control_flow_wrappers() {
    let spec = control_flow_spec();

    let payload = compile_actions(&spec).unwrap();

    assert_eq!(compiled_action_count(&payload).unwrap(), 8);
}

#[test]
fn compile_actions_rejects_unknown_output_reference() {
    let spec = ShortcutSpec {
        name: "Broken".into(),
        surfaces: vec![],
        input: ShortcutInputPolicy::Any,
        actions: vec![ShortcutAction::CopyToClipboard {
            from: ShortcutReference::Output("missing".into()),
        }],
    };

    assert_eq!(
        compile_actions(&spec),
        Err(MacosError::Other("unknown shortcut output reference: missing".into()))
    );
}

#[test]
fn compile_actions_of_no_actions_is_an_empty_array() {
    let spec = ShortcutSpec {
        name: "Empty".into(),
        surfaces: vec![],
        input: ShortcutInputPolicy::Any,
        actions: vec![],
    };

    let payload = compile_actions(&spec).unwrap();
    assert_eq!(compiled_action_count(&payload).unwrap(), 0);
    assert_eq!(decompile_actions(&payload).unwrap(), vec![]);
}

#[test]
fn compiled_records_use_upper_case_uuids_and_close_groups_with_the_same_id() {
    let payload = compile_actions(&control_flow_spec()).unwrap();
    let actions = plist::from_bytes::<Vec<plist::Value>>(&payload).unwrap();
    let params = |i: usize| {
        actions[i]
            .as_dictionary()
            .unwrap()
            .get("WFWorkflowActionParameters")
            .unwrap()
            .as_dictionary()
            .unwrap()
            .clone()
    };

    let uuid = params(0).get("UUID").and_then(plist::Value::as_string).unwrap().to_string();
    assert_eq!(uuid.len(), 36);
    assert_eq!(uuid, uuid.to_uppercase());

    let open = params(1);
    let close = params(4);
    assert_eq!(open.get("WFControlFlowMode").and_then(plist::Value::as_signed_integer), Some(0));
    assert_eq!(open.get("WFCondition").and_then(plist::Value::as_signed_integer), Some(4));
    assert_eq!(close.get("WFControlFlowMode").and_then(plist::Value::as_signed_integer), Some(2));
    assert_eq!(
        open.get("GroupingIdentifier").and_then(plist::Value::as_string),
        close.get("GroupingIdentifier").and_then(plist::Value::as_string)
    );
    let literal = open.get("WFConditionalActionString").unwrap().as_dictionary().unwrap();
    let literal_value = literal.get("Value").unwrap().as_dictionary().unwrap();
    assert_eq!(literal_value.get("string").and_then(plist::Value::as_string), Some("match"));
    let wrapper = open.get("WFInput").unwrap().as_dictionary().unwrap();
    assert!(wrapper.get("Variable").unwrap().as_dictionary().is_some());
}

#[test]
fn replace_text_writes_case_sensitivity_as_the_opposite_of_ignore_case() {
    let spec = ShortcutSpec {
        name: "Replace".into(),
        surfaces: vec![],
        input: ShortcutInputPolicy::Text,
        actions: vec![ShortcutAction::ReplaceText {
            from: ShortcutReference::ExtensionInput,
            find: "a".into(),
            replace: "b".into(),
            regex: false,
            ignore_case: false,
            output: None,
        }],
    };

    let payload = compile_actions(&spec).unwrap();
    let actions = plist::from_bytes::<Vec<plist::Value>>(&payload).unwrap();
    let params = actions[0]
        .as_dictionary()
        .unwrap()
        .get("WFWorkflowActionParameters")
        .unwrap()
        .as_dictionary()
        .unwrap();
    assert_eq!(params.get("WFReplaceTextCaseSensitive").and_then(plist::Value::as_boolean), Some(true));
    assert_eq!(params.get("WFReplaceTextRegularExpression").and_then(plist::Value::as_boolean), Some(false));
    assert!(params.get("CustomOutputName").is_none());

    let decompiled = decompile_actions(&payload).unwrap();
    assert_eq!(
        decompiled,
        vec![ShortcutAction::ReplaceText {
            from: ShortcutReference::ExtensionInput,
            find: "a".into(),
            replace: "b".into(),
            regex: false,
            ignore_case: false,
            output: Some("updated_text".into()),
        }]
    );
}

#[test]
fn repeat_index_round_trips() {
    let spec = ShortcutSpec {
        name: "Repeat Index".into(),
        surfaces: vec![],
        input: ShortcutInputPolicy::Any,
        actions: vec![ShortcutAction::RepeatEach {
            input: ShortcutReference::ExtensionInput,
            body: vec![ShortcutAction::GetText {
                from: ShortcutReference::RepeatIndex,
                output: Some("index_text".into()),
            }],
        }],
    };

    let payload = compile_actions(&spec).unwrap();
    assert_eq!(decompile_actions(&payload).unwrap(), spec.actions);
}

#[test]
fn decompile_actions_rejects_unsupported_action() {
    let actions = vec![object(vec![
        ("WFWorkflowActionIdentifier", text("is.workflow.actions.vibrate")),
        ("WFWorkflowActionParameters", object(vec![])),
    ])];

    assert_eq!(
        decompile_actions(&payload_of(&actions)),
        Err(MacosError::Other(
            "unsupported shortcut action during export: is.workflow.actions.vibrate".into()
        ))
    );
}

#[test]
fn decompile_actions_rejects_unclosed_condition() {
    let actions = vec![
        object(vec![
            ("WFWorkflowActionIdentifier", text("is.workflow.actions.gettext")),
            (
                "WFWorkflowActionParameters",
                object(vec![("UUID", text("U1")), ("WFTextActionText", text("x"))]),
            ),
        ]),
        object(vec![
            ("WFWorkflowActionIdentifier", text("is.workflow.actions.conditional")),
            (
                "WFWorkflowActionParameters",
                object(vec![
                    ("GroupingIdentifier", text("G1")),
                    ("WFControlFlowMode", Value::from(0)),
                    ("WFCondition", Value::from(4)),
                    (
                        "WFInput",
                        object(vec![
                            ("Type", text("Variable")),
                            (
                                "Variable",
                                object(vec![
                                    (
                                        "Value",
                                        object(vec![("OutputUUID", text("U1")), ("Type", text("ActionOutput"))]),
                                    ),
                                    ("WFSerializationType", text("WFTextTokenAttachment")),
                                ]),
                            ),
                        ]),
                    ),
                    (
                        "WFConditionalActionString",
                        object(vec![
                            ("Value", object(vec![("string", text("x"))])),
                            ("WFSerializationType", text("WFTextTokenString")),
                        ]),
                    ),
                ]),
            ),
        ]),
    ];

    assert_eq!(
        decompile_actions(&payload_of(&actions)),
        Err(MacosError::Other(
            "missing control flow terminator for is.workflow.actions.conditional group G1".into()
        ))
    );
}

#[test]
fn decompile_actions_rejects_missing_identifier_and_unknown_uuid() {
    let missing = vec![object(vec![("WFWorkflowActionParameters", object(vec![]))])];
    assert_eq!(
        decompile_actions(&payload_of(&missing)),
        Err(MacosError::Other("shortcut action missing identifier".into()))
    );

    let unknown = vec![object(vec![
        ("WFWorkflowActionIdentifier", text("is.workflow.actions.share")),
        (
            "WFWorkflowActionParameters",
            object(vec![(
                "WFInput",
                object(vec![
                    ("Value", object(vec![("OutputUUID", text("NOPE")), ("Type", text("ActionOutput"))])),
                    ("WFSerializationType", text("WFTextTokenAttachment")),
                ]),
            )]),
        ),
    ])];
    assert_eq!(
        decompile_actions(&payload_of(&unknown)),
        Err(MacosError::Other("unknown output uuid in shortcut payload: NOPE".into()))
    );
}

#[test]
fn decompile_actions_reports_unreadable_payload() {
    match decompile_actions(b"not a plist") {
        Err(MacosError::Other(message)) => {
            assert!(message.starts_with("failed to decode shortcut actions payload: "))
        }
        other => panic!("unexpected result: {other:?}"),
    }
}

#[test]
fn append_action_resolves_default_output_alias_of_existing_record() {
    let existing = vec![object(vec![
        ("WFWorkflowActionIdentifier", text("is.workflow.actions.detect.link")),
        (
            "WFWorkflowActionParameters",
            object(vec![
                ("UUID", text("AAAA")),
                (
                    "WFInput",
                    object(vec![
                        ("Value", object(vec![("Type", text("ExtensionInput"))])),
                        ("WFSerializationType", text("WFTextTokenAttachment")),
                    ]),
                ),
            ]),
        ),
    ])];

    let appended = append_action(
        &payload_of(&existing),
        &ShortcutAction::Share {
            from: ShortcutReference::Output("urls".into()),
        },
    )
    .unwrap();

    let actions = plist::from_bytes::<Vec<plist::Value>>(&appended).unwrap();
    assert_eq!(actions.len(), 2);
    let value = actions[1]
        .as_dictionary()
        .unwrap()
        .get("WFWorkflowActionParameters")
        .unwrap()
        .as_dictionary()
        .unwrap()
        .get("WFInput")
        .unwrap()
        .as_dictionary()
        .unwrap()
        .get("Value")
        .unwrap()
        .as_dictionary()
        .unwrap();
    assert_eq!(value.get("OutputName").and_then(plist::Value::as_string), Some("URLs"));
    assert_eq!(value.get("OutputUUID").and_then(plist::Value::as_string), Some("AAAA"));
}

#[test]
fn append_action_reports_unreadable_payload() {
    match append_action(b"garbage", &ShortcutAction::Share { from: ShortcutReference::ExtensionInput }) {
        Err(MacosError::Other(message)) => {
            assert!(message.starts_with("failed to decode existing shortcut actions: "))
        }
        other => panic!("unexpected result: {other:?}"),
    }
}

#[test]
fn build_action_leaves_control_flow_to_the_sequence_compiler() {
    let mut outputs = OutputTable::new();
    let action = ShortcutAction::RepeatEach {
        input: ShortcutReference::ExtensionInput,
        body: vec![],
    };
    assert_eq!(
        build_action(&action, &mut outputs),
        Err(MacosError::Other("shortcut action not yet supported by compiler".into()))
    );
}

#[test]
fn slugify_alias_keeps_letters_and_digits_and_joins_the_rest() {
    assert_eq!(slugify_alias("Item from List"), "item_from_list");
    assert_eq!(slugify_alias("URLs"), "urls");
    assert_eq!(slugify_alias("  --Hello, World 2!--"), "hello_world_2");
    assert_eq!(slugify_alias("___"), "");
}

#[test]
fn dedupe_alias_numbers_repeats_from_two() {
    let mut counts = CountTable::new();
    assert_eq!(dedupe_alias("text".into(), &mut counts), "text");
    assert_eq!(dedupe_alias("text".into(), &mut counts), "text_2");
    assert_eq!(dedupe_alias("urls".into(), &mut counts), "urls");
    assert_eq!(dedupe_alias("text".into(), &mut counts), "text_3");
}

#[test]
fn compared_text_with_quotes_and_controls_survives_json_escaping() {
    let value = "say \"hi\" \\ now\n\t\u{1}end";
    let spec = ShortcutSpec {
        name: "Escapes".into(),
        surfaces: vec![],
        input: ShortcutInputPolicy::Any,
        actions: vec![ShortcutAction::IfEqualsText {
            input: ShortcutReference::ExtensionInput,
            value: value.into(),
            then_actions: vec![],
        }],
    };
    let payload = compile_actions(&spec).unwrap();
    let decompiled = decompile_actions(&payload).unwrap();
    assert_eq!(decompiled, spec.actions);
}

#[test]
fn unnamed_text_output_reads_back_under_its_default_alias() {
    let spec = ShortcutSpec {
        name: "Unnamed".into(),
        surfaces: vec![],
        input: ShortcutInputPolicy::Any,
        actions: vec![ShortcutAction::Text { value: "hello".into(), output: None }],
    };
    let payload = compile_actions(&spec).unwrap();
    assert_eq!(
        decompile_actions(&payload).unwrap(),
        vec![ShortcutAction::Text { value: "hello".into(), output: Some("text".into()) }]
    );
}

#[test]
fn compiled_records_keep_their_keys_in_name_order() {
    let spec = ShortcutSpec {
        name: "Replace".into(),
        surfaces: vec![],
        input: ShortcutInputPolicy::Any,
        actions: vec![ShortcutAction::ReplaceText {
            from: ShortcutReference::ExtensionInput,
            find: "a".into(),
            replace: "b".into(),
            regex: false,
            ignore_case: true,
            output: Some("out".into()),
        }],
    };
    let payload = compile_actions(&spec).unwrap();
    let records: Vec<plist::Value> = plist::from_bytes(&payload).unwrap();
    let params = records[0].as_dictionary().unwrap().get("WFWorkflowActionParameters").unwrap().as_dictionary().unwrap();
    let keys: Vec<&String> = params.keys().collect();
    let mut sorted = keys.clone();
    sorted.sort();
    assert_eq!(keys, sorted);
    assert_eq!(keys.len(), 7);
}
