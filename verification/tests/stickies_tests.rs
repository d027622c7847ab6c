use adapter_macos::stickies::{
    default_state_entry, derive_sticky_title, ensure_update_fields, find_entry_index,
    max_z_order, offset_frame, parse_saved_state_value,
};

#[test]
fn title_prefers_stored_then_first_line_then_id() {
    assert_eq!(derive_sticky_title(Some("  Stored  "), "body", "ABCDEFGHIJ"), "Stored");
    assert_eq!(derive_sticky_title(Some("   "), "\n  \n  First line \nsecond", "ABCDEFGHIJ"), "First line");
    assert_eq!(derive_sticky_title(None, " \n\t\n", "ABCDEFGHIJ"), "Sticky ABCDEFGH");
    assert_eq!(derive_sticky_title(None, "", "AB"), "Sticky AB");
}

#[test]
fn frame_moves_right_and_down() {
    assert_eq!(offset_frame("{{200, 900}, {300, 200}}"), "{{224, 876}, {300, 200}}");
    assert_eq!(offset_frame("{{-10, 0}, {1, 2}}"), "{{14, -24}, {1, 2}}");
    assert_eq!(offset_frame("not a frame"), "not a frame");
    assert_eq!(offset_frame("{{x, 900}, {300, 200}}"), "{{x, 900}, {300, 200}}");
}

#[test]
fn updates_need_a_field() {
    assert_eq!(
        ensure_update_fields(None, None).expect_err("nothing to update").to_string(),
        "no sticky updates specified"
    );
    assert!(ensure_update_fields(Some("t"), None).is_ok());
    assert!(ensure_update_fields(None, Some("b")).is_ok());
}

#[test]
fn default_entries_are_found_and_ordered() {
    let entries = vec![default_state_entry("A", "one"), default_state_entry("B", "two")];
    assert_eq!(find_entry_index(&entries, "B").expect("found"), 1);
    assert_eq!(
        find_entry_index(&entries, "C").expect_err("missing").to_string(),
        "sticky not found: C"
    );
    assert_eq!(max_z_order(&entries), 1);
    assert_eq!(max_z_order(&Vec::new()), 0);
}

#[test]
fn saved_state_must_be_an_array_of_dictionaries_with_ids() {
    assert_eq!(
        parse_saved_state_value(plist::Value::String("x".into())).err().expect("not an array").to_string(),
        "stickies state is not an array"
    );
    assert_eq!(
        parse_saved_state_value(plist::Value::Array(vec![plist::Value::Integer(1.into())]))
            .err()
            .expect("not a dictionary")
            .to_string(),
        "stickies state entry is not a dictionary"
    );
    let mut dict = plist::Dictionary::new();
    dict.insert("UUID".into(), plist::Value::String("ID-1".into()));
    let entries = parse_saved_state_value(plist::Value::Array(vec![plist::Value::Dictionary(dict)])).expect("parsed");
    assert_eq!(entries.len(), 1);
    assert_eq!(entries[0].id, "ID-1");
}

struct UntouchedFiles;

impl adapter_macos::stickies::StickiesHost for UntouchedFiles {
    fn home_dir(&mut self) -> Option<String> {
        unreachable!("no file may be looked for")
    }
    fn file_exists(&mut self, _path: &str) -> bool {
        unreachable!("no file may be looked for")
    }
    fn read_plist(&mut self, _path: &str) -> Result<plist::Value, String> {
        unreachable!("no state may be read")
    }
    fn write_plist_xml(&mut self, _path: &str, _value: &plist::Value) -> Result<(), String> {
        unreachable!("no state may be written")
    }
    fn rtf_to_text(&mut self, _path: &str) -> Result<(bool, String, String), String> {
        unreachable!("no note may be read")
    }
    fn text_to_rtf(&mut self, _text: &str) -> Result<(bool, Vec<u8>, String), adapter_macos::stickies::TextutilFailure> {
        unreachable!("no note may be converted")
    }
    fn create_dir_all(&mut self, _dir: &str) -> Result<(), String> {
        unreachable!("no folder may be made")
    }
    fn write_file(&mut self, _path: &str, _bytes: &Vec<u8>) -> Result<(), String> {
        unreachable!("no note may be written")
    }
    fn remove_dir_all(&mut self, _dir: &str) -> Result<(), String> {
        unreachable!("no folder may be removed")
    }
}

#[test]
fn update_without_title_or_body_fails_before_touching_any_file() {
    let mut stickies = adapter_macos::stickies::Stickies::new(UntouchedFiles);
    let err = adapter_macos::stickies::update_sticky(&mut stickies, "ABC", None, None).unwrap_err();
    assert_eq!(err.to_string(), "no sticky updates specified");
}
