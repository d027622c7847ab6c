use adapter_macos::error::MacosError;
use adapter_macos::send::{note_outcome, note_script, notification_outcome, notification_script};

#[test]
fn note_script_escapes_title_and_body() {
    let script = note_script("Say \"hi\"", "line \"one\"\nline two", "Inbox");
    let expected = "\n        tell application \"Notes\"\n            try\n                set targetFolder to folder \"Inbox\"\n            on error\n                make new folder with properties {name:\"Inbox\"}\n                set targetFolder to folder \"Inbox\"\n            end try\n            make new note at targetFolder with properties {name:\"Say \\\"hi\\\"\", body:\"line \\\"one\\\"\\nline two\"}\n        end tell\n        ";
    assert_eq!(script, expected);
}

#[test]
fn notification_script_escapes_quotes() {
    assert_eq!(
        notification_script("T \"1\"", "a \"b\"\nc"),
        "display notification \"a \\\"b\\\"\nc\" with title \"T \\\"1\\\"\""
    );
}

#[test]
fn run_outcomes_report_denied_permission() {
    assert!(note_outcome(Ok((true, String::new()))).is_ok());
    assert!(matches!(
        note_outcome(Ok((false, "nope".to_string()))),
        Err(MacosError::PermissionDenied(m)) if m == "failed to create note: nope"
    ));
    assert!(matches!(
        notification_outcome(Err("not found".to_string())),
        Err(MacosError::PermissionDenied(m)) if m == "osascript: not found"
    ));
    assert!(matches!(
        notification_outcome(Ok((false, "x".to_string()))),
        Err(MacosError::PermissionDenied(m)) if m == "notification failed: x"
    ));
}
