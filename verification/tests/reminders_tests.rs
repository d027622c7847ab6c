use adapter_macos::error::MacosError;
use adapter_macos::reminders::{
    build_list_script, build_reminder_lookup_script, parse_reminder_line, parse_reminders_output, select_by_title,
    REMINDER_SEPARATOR,
};

#[test]
fn parse_reminder_line_unescapes_fields() {
    let line = "reminder-id\tBuy\\tmilk\tLine 1\\nLine 2\t2026-04-11T08:00:00Z\tfalse\tWork";

    let reminder = parse_reminder_line(line).expect("reminder");

    assert_eq!(reminder.id, "reminder-id");
    assert_eq!(reminder.title, "Buy\tmilk");
    assert_eq!(reminder.notes, "Line 1\nLine 2");
    assert_eq!(reminder.due_date.as_deref(), Some("2026-04-11T08:00:00Z"));
    assert!(!reminder.completed);
    assert_eq!(reminder.list_name, "Work");
}

#[test]
fn parse_reminders_output_keeps_multiple_items() {
    let raw = "id-1\tOne\t\t\tfalse\tInbox---REMINDER_SEP---\
id-2\tTwo\tNotes\t2026-04-11T08:00:00Z\ttrue\tWork---REMINDER_SEP---";

    let reminders = parse_reminders_output(raw);

    assert_eq!(reminders.len(), 2);
    assert_eq!(reminders[0].id, "id-1");
    assert_eq!(reminders[0].title, "One");
    assert_eq!(reminders[0].due_date, None);
    assert_eq!(reminders[1].id, "id-2");
    assert_eq!(reminders[1].title, "Two");
    assert_eq!(reminders[1].list_name, "Work");
}

#[test]
fn list_script_uses_bulk_properties_lookup() {
    let script = build_list_script(None);

    assert!(script.contains("set reminderProps to properties of reminders of aList"));
    assert!(!script.contains("repeat with aReminder in reminders of aList"));
    assert!(!script.contains("id of aReminder"));
    assert!(!script.contains("name of aReminder"));
}

#[test]
fn parse_reminder_line_unescapes_separator_escape() {
    let line = "id-1\tOne\tContains\\sMarker\t\ttrue\tInbox";

    let reminder = parse_reminder_line(line).expect("reminder");

    assert_eq!(
        reminder.notes,
        format!("Contains{REMINDER_SEPARATOR}Marker")
    );
}

#[test]
fn reminder_lookup_script_matches_id() {
    let script = build_reminder_lookup_script("reminder-id", "delete targetReminder");

    assert!(script.contains(r#"if id of aReminder is "reminder-id" then"#));
    assert!(script.contains("delete targetReminder"));
}

#[test]
fn records_without_id_or_title() {
    let five = parse_reminder_line("Title\tnotes\t \ttrue\tList").expect("five fields");
    assert_eq!(five.id, "");
    assert_eq!(five.title, "Title");
    assert_eq!(five.due_date, None);
    assert!(five.completed);
    assert!(parse_reminder_line("id\t\tnotes\t\tfalse\tList").is_none());
    assert!(parse_reminder_line("too\tfew").is_none());
}

#[test]
fn unknown_escapes_and_trailing_backslash_stay() {
    let r = parse_reminder_line("id\tA\\qB\\\tn\t\tfalse\tL").expect("reminder");
    assert_eq!(r.title, "A\\qB\\");
}

#[test]
fn list_script_filters_by_list_name() {
    let script = build_list_script(Some("Work \"A\""));
    assert!(script.contains("set targetLists to (lists whose name is \"Work \\\"A\\\"\")"));
    assert!(script.contains("---REMINDER_SEP---"));
}

use adapter_macos::reminders::{
    build_today_script, filter_due_in_range, reminder_due_in_range, today_bounds, LocalDateTimeParts,
    ReminderItem,
};

fn day_bounds() -> (LocalDateTimeParts, LocalDateTimeParts) {
    (
        LocalDateTimeParts { year: 2026, month: 4, day: 11, seconds: 0 },
        LocalDateTimeParts { year: 2026, month: 4, day: 11, seconds: 23 * 3600 + 59 * 60 + 59 },
    )
}

#[test]
fn reminder_scripts_do_not_use_invalid_isot_coercion() {
    let list_script = build_list_script(None);
    let (from, to) = day_bounds();
    let today_script = build_today_script(from, to);

    assert!(!list_script.contains("class isot"));
    assert!(!today_script.contains("class isot"));
    assert!(list_script.contains("format_reminder_date"));
    assert!(today_script.contains("format_reminder_date"));
    assert!(list_script.contains("set reminderId to my encode_field(id of reminderInfo)"));
    assert!(list_script.contains("set reminderCompleted to \"true\""));
    assert!(today_script.contains("set reminderRefs to reminders of aList"));
    assert!(today_script.contains("set reminderDueValues to due date of every reminder of aList"));
}

#[test]
fn today_script_filters_due_dates_without_whose_clause() {
    let (from, to) = day_bounds();
    let script = build_today_script(from, to);

    assert!(script.contains("set reminderRefs to reminders of aList"));
    assert!(script.contains("set reminderDueValues to due date of every reminder of aList"));
    assert!(script.contains("if reminderDueValue is not missing value then"));
    assert!(script.contains("if reminderDueValue is greater than or equal to fromDate and reminderDueValue is less than or equal to toDate then"));
    assert!(script.contains("set reminderRef to item idx of reminderRefs"));
    assert!(!script.contains("set matchingReminders to"));
    assert!(!script.contains("set reminderProps to properties of reminders of aList"));
    assert!(!script.contains("whose due date is not missing value"));
}

#[test]
fn due_range_script_sets_both_dates() {
    let (from, to) = day_bounds();
    let script = build_today_script(from, to);
    assert!(script.contains("set year of fromDate to 2026\n            set month of fromDate to 4\n            set day of fromDate to 11\n            set time of fromDate to 0"));
    assert!(script.contains("set time of toDate to 86399"));
    assert!(script.contains("set targetLists to lists"));
}

fn due(due_date: Option<&str>) -> ReminderItem {
    ReminderItem {
        id: "id".into(),
        title: "t".into(),
        notes: String::new(),
        due_date: due_date.map(str::to_string),
        completed: false,
        list_name: "Inbox".into(),
    }
}

#[test]
fn due_range_includes_both_ends_and_skips_unreadable_dates() {
    let (from, to) = day_bounds();
    assert!(reminder_due_in_range(&due(Some("2026-04-11T00:00:00")), from, to));
    assert!(reminder_due_in_range(&due(Some("2026-04-11T23:59:59")), from, to));
    assert!(!reminder_due_in_range(&due(Some("2026-04-12T00:00:00")), from, to));
    assert!(!reminder_due_in_range(&due(Some("2026-04-10T23:59:59")), from, to));
    assert!(!reminder_due_in_range(&due(Some("tomorrow")), from, to));
    assert!(!reminder_due_in_range(&due(None), from, to));
    let kept = filter_due_in_range(
        vec![due(Some("2026-04-11T09:30:00")), due(None), due(Some("2026-05-01T09:30:00"))],
        from,
        to,
    );
    assert_eq!(kept.len(), 1);
    assert_eq!(kept[0].due_date.as_deref(), Some("2026-04-11T09:30:00"));
}

#[test]
fn today_bounds_reports_missing_times() {
    let (from, to) = today_bounds((2026, 4, 11, true, true)).unwrap();
    assert_eq!(from.seconds, 0);
    assert_eq!(to.seconds, 86399);
    assert_eq!(today_bounds((2026, 4, 11, false, true)).unwrap_err().to_string(), "failed to determine start of today");
    assert_eq!(today_bounds((2026, 4, 11, true, false)).unwrap_err().to_string(), "failed to determine end of today");
}

fn reminder(id: &str, title: &str) -> ReminderItem {
    ReminderItem {
        id: id.to_string(),
        title: title.to_string(),
        notes: String::new(),
        due_date: None,
        completed: false,
        list_name: "Inbox".to_string(),
    }
}

#[test]
fn select_by_title_needs_exactly_one_match() {
    let items = vec![reminder("a", "Milk"), reminder("b", "Bread"), reminder("c", "Bread")];

    assert_eq!(select_by_title(&items, "Milk"), Ok("a".to_string()));
    assert_eq!(
        select_by_title(&items, "Eggs"),
        Err(MacosError::Other("reminder not found: Eggs".to_string()))
    );
    assert_eq!(
        select_by_title(&items, "Bread"),
        Err(MacosError::Other("reminder title is ambiguous: Bread (2 matches)".to_string()))
    );
    assert_eq!(
        select_by_title(&items, "milk"),
        Err(MacosError::Other("reminder not found: milk".to_string()))
    );
}

struct ScriptHost {
    items: Vec<ReminderItem>,
    scripts: Vec<String>,
}

impl adapter_macos::reminders::RemindersHost for ScriptHost {
    fn eventkit_list(&mut self, _list_filter: Option<&str>) -> Result<Option<Vec<ReminderItem>>, MacosError> {
        Ok(Some(self.items.clone()))
    }
    fn run_capture(&mut self, _script: &str, _context: &str) -> Result<String, MacosError> {
        unreachable!()
    }
    fn run(&mut self, script: &str, _context: &str) -> Result<(), MacosError> {
        self.scripts.push(script.to_string());
        Ok(())
    }
    fn local_today(&mut self) -> (i32, u32, u32, bool, bool) {
        unreachable!()
    }
}

fn item(id: &str, title: &str) -> ReminderItem {
    ReminderItem {
        id: id.into(),
        title: title.into(),
        notes: String::new(),
        due_date: None,
        completed: false,
        list_name: "Inbox".into(),
    }
}

fn session(items: Vec<ReminderItem>) -> adapter_macos::reminders::Reminders<ScriptHost> {
    adapter_macos::reminders::Reminders::new(ScriptHost { items, scripts: Vec::new() })
}

#[test]
fn complete_by_title_runs_the_lookup_for_the_only_match() {
    let mut s = session(vec![item("id-1", "Buy milk"), item("id-2", "Call")]);
    adapter_macos::reminders::complete_reminder(&mut s, adapter_macos::reminders::ReminderSelector::Title("Call".into())).unwrap();
    assert_eq!(s.host.scripts, vec![build_reminder_lookup_script("id-2", "set completed of targetReminder to true")]);
}

#[test]
fn delete_by_title_refuses_missing_and_ambiguous_titles_without_a_script() {
    let mut s = session(vec![item("id-1", "Call"), item("id-2", "Call")]);
    let err = adapter_macos::reminders::delete_reminder(&mut s, adapter_macos::reminders::ReminderSelector::Title("Call".into())).unwrap_err();
    assert_eq!(err.to_string(), "reminder title is ambiguous: Call (2 matches)");
    let err = adapter_macos::reminders::delete_reminder(&mut s, adapter_macos::reminders::ReminderSelector::Title("Other".into())).unwrap_err();
    assert_eq!(err.to_string(), "reminder not found: Other");
    assert!(s.host.scripts.is_empty());
}

#[test]
fn create_reminder_script_sets_due_date_and_priority() {
    let mut s = session(vec![]);
    let due = LocalDateTimeParts { year: 2026, month: 5, day: 2, seconds: 3600 };
    adapter_macos::reminders::create_reminder(&mut s, "Pay \"rent\"", "line one\nline two", "Home", Some(due), Some(1)).unwrap();
    let script = &s.host.scripts[0];
    assert!(script.contains("set dueDate to current date"));
    assert!(script.contains("set year of dueDate to 2026"));
    assert!(script.contains("set time of dueDate to 3600"));
    assert!(script.contains(r#"set targetList to list "Home""#));
    assert!(script.contains(r#"make new reminder at targetList with properties {name:"Pay \"rent\"", body:"#));
    assert!(script.contains(", due date:dueDate, priority:1}"));
}

#[test]
fn update_reminder_needs_a_change_and_lists_the_actions_in_order() {
    let mut s = session(vec![]);
    let sel = adapter_macos::reminders::ReminderSelector::Id("id-9".into());
    let err = adapter_macos::reminders::update_reminder(&mut s, sel.clone(), None, None, None, None, None).unwrap_err();
    assert_eq!(err.to_string(), "no reminder updates specified");
    assert!(s.host.scripts.is_empty());
    adapter_macos::reminders::update_reminder(&mut s, sel, Some("New"), None, None, Some("Work"), Some(5)).unwrap();
    let script = &s.host.scripts[0];
    let name = script.find(r#"set name of targetReminder to "New""#).unwrap();
    let priority = script.find("set priority of targetReminder to 5").unwrap();
    let moved = script.find("move targetReminder to targetList").unwrap();
    assert!(name < priority && priority < moved);
    assert!(script.contains(r#"if id of aReminder is "id-9" then"#));
    assert!(!script.contains("dueDate"));
}
