//! Apple Reminders through AppleScript: the scripts that list, complete and
//! delete reminders, and the reading of the records they print.
use chrono::{Datelike, Timelike};
use vstd::prelude::*;

use crate::applescript::{body_expression, escape, escape_body, quoted};
use crate::error::{result_view, MacosError, MacosErrorView};
use crate::safari::types::{opt_string, opt_view};
use crate::text::{
    chars_eq, chars_of, decimal, join, join_chars, push_decimal, push_signed_decimal, signed_decimal, split, split_chars,
    string_of, trim, trim_chars, views,
};

verus! {

broadcast use vstd::string::group_string_axioms;

/// What separates the records of a listing.
pub const REMINDER_SEPARATOR: &'static str = "---REMINDER_SEP---";

/// A reminder as a listing reports it.
#[derive(Debug, Clone, PartialEq, Eq)]
pub struct ReminderItem {
    pub id: String,
    pub title: String,
    pub notes: String,
    pub due_date: Option<String>,
    pub completed: bool,
    pub list_name: String,
}

/// The mathematical value of a [`ReminderItem`].
pub struct ReminderItemView {
    pub id: Seq<char>,
    pub title: Seq<char>,
    pub notes: Seq<char>,
    pub due_date: Option<Seq<char>>,
    pub completed: bool,
    pub list_name: Seq<char>,
}

impl View for ReminderItem {
    type V = ReminderItemView;

    open spec fn view(&self) -> ReminderItemView {
        ReminderItemView {
            id: self.id@,
            title: self.title@,
            notes: self.notes@,
            due_date: opt_string(self.due_date),
            completed: self.completed,
            list_name: self.list_name@,
        }
    }
}

/// The views of a list of reminders.
pub open spec fn reminder_views(v: Seq<ReminderItem>) -> Seq<ReminderItemView> {
    v.map_values(|r: ReminderItem| r@)
}

/// How a reminder is named: by id, or by its title, which must be unique.
#[derive(Debug, Clone, PartialEq, Eq)]
pub enum ReminderSelector {
    Id(String),
    Title(String),
}

/// What an escape `\c` in a record field stands for.
pub open spec fn unescape(c: char) -> Seq<char> {
    if c == 'n' {
        seq!['\n']
    } else if c == 'r' {
        seq!['\r']
    } else if c == 't' {
        seq!['\t']
    } else if c == 's' {
        REMINDER_SEPARATOR@
    } else if c == '\\' {
        seq!['\\']
    } else {
        seq!['\\', c]
    }
}

/// A record field with its escapes undone; a lone trailing backslash stays.
pub open spec fn decode_reminder_field(s: Seq<char>) -> Seq<char>
    decreases s.len(),
{
    if s.len() == 0 {
        seq![]
    } else if s[0] != '\\' {
        seq![s[0]] + decode_reminder_field(s.drop_first())
    } else if s.len() == 1 {
        seq!['\\']
    } else {
        unescape(s[1]) + decode_reminder_field(s.skip(2))
    }
}

fn push_unescaped(out: &mut String, c: char)
    ensures
        final(out)@ == old(out)@ + unescape(c),
{
    if c == 'n' {
        crate::text::push_char(out, '\n');
    } else if c == 'r' {
        crate::text::push_char(out, '\r');
    } else if c == 't' {
        crate::text::push_char(out, '\t');
    } else if c == 's' {
        out.append(REMINDER_SEPARATOR);
    } else if c == '\\' {
        crate::text::push_char(out, '\\');
    } else {
        crate::text::push_char(out, '\\');
        crate::text::push_char(out, c);
    }
    assert(final(out)@ =~= old(out)@ + unescape(c));
}

/// Undoes the escapes of a record field.
pub fn decode_field(value: &[char]) -> (r: String)
    ensures
        r@ == decode_reminder_field(value@),
{
    let mut out = String::new();
    let mut i: usize = 0;
    assert(value@.skip(0) =~= value@);
    while i < value.len()
        invariant
            i <= value.len(),
            decode_reminder_field(value@) == out@ + decode_reminder_field(value@.skip(i as int)),
        decreases value.len() - i,
    {
        let ghost rest = value@.skip(i as int);
        let c = value[i];
        if c != '\\' {
            crate::text::push_char(&mut out, c);
            assert(rest.drop_first() =~= value@.skip(i + 1));
            i = i + 1;
        } else if i + 1 == value.len() {
            crate::text::push_char(&mut out, '\\');
            assert(value@.skip(i + 1) =~= Seq::<char>::empty());
            i = i + 1;
        } else {
            push_unescaped(&mut out, value[i + 1]);
            assert(rest.skip(2) =~= value@.skip(i + 2));
            assert(rest[1] == value@[i + 1]);
            i = i + 2;
        }
    }
    assert(value@.skip(i as int) =~= Seq::<char>::empty());
    out
}

/// The reminder a record describes: tab-separated id, title, notes, due date,
/// completion flag and list name (a record without the id has five fields and
/// an empty id). A record without a title describes none.
pub open spec fn spec_parse_reminder_line(line: Seq<char>) -> Option<ReminderItemView> {
    let parts = split(line, seq!['\t']);
    if parts.len() != 6 && parts.len() != 5 {
        None
    } else {
        let id = if parts.len() == 6 { decode_reminder_field(parts[0]) } else { seq![] };
        let rest = if parts.len() == 6 { parts.skip(1) } else { parts };
        let title = decode_reminder_field(rest[0]);
        if title.len() == 0 {
            None
        } else {
            Some(ReminderItemView {
                id,
                title,
                notes: decode_reminder_field(rest[1]),
                due_date: if trim(rest[2]).len() == 0 { None } else { Some(trim(rest[2])) },
                completed: trim(rest[3]) == "true"@,
                list_name: decode_reminder_field(rest[4]),
            })
        }
    }
}

/// The view of an optional reminder.
pub open spec fn opt_reminder(r: Option<ReminderItem>) -> Option<ReminderItemView> {
    match r {
        Some(x) => Some(x@),
        None => None,
    }
}

fn parse_line_chars(line: &[char]) -> (r: Option<ReminderItem>)
    ensures
        opt_reminder(r) == spec_parse_reminder_line(line@),
{
    let sep: [char; 1] = ['\t'];
    assert(sep@ =~= seq!['\t']);
    let parts = split_chars(line, &sep);
    let ghost pv = views(parts@);
    let n = parts.len();
    if n != 6 && n != 5 {
        return None;
    }
    let off: usize = if n == 6 { 1 } else { 0 };
    let ghost rest = if n == 6 { pv.skip(1) } else { pv };
    proof {
        assert forall|k: int| 0 <= k < 5 implies #[trigger] rest[k] == parts@[off + k]@ by {
            assert(pv[off + k] == parts@[off + k]@);
        }
    }
    let id = if n == 6 {
        assert(pv[0] == parts@[0]@);
        decode_field(parts[0].as_slice())
    } else {
        String::new()
    };
    let title = decode_field(parts[off].as_slice());
    if chars_of(title.as_str()).len() == 0 {
        return None;
    }
    let notes = decode_field(parts[off + 1].as_slice());
    let due_text = trim_chars(parts[off + 2].as_slice());
    let due_date = if due_text.len() == 0 {
        None
    } else {
        Some(string_of(due_text.as_slice()))
    };
    let flag = trim_chars(parts[off + 3].as_slice());
    let completed = chars_eq(flag.as_slice(), chars_of("true").as_slice());
    let list_name = decode_field(parts[off + 4].as_slice());
    Some(ReminderItem { id, title, notes, due_date, completed, list_name })
}

/// Reads one record of a listing.
pub fn parse_reminder_line(line: &str) -> (r: Option<ReminderItem>)
    ensures
        opt_reminder(r) == spec_parse_reminder_line(line@),
{
    let v = chars_of(line);
    parse_line_chars(v.as_slice())
}

/// The reminders the non-blank records of `lines` describe, in order.
pub open spec fn parsed_reminders(lines: Seq<Seq<char>>) -> Seq<ReminderItemView>
    decreases lines.len(),
{
    if lines.len() == 0 {
        seq![]
    } else {
        let rest = parsed_reminders(lines.drop_last());
        if trim(lines.last()).len() == 0 {
            rest
        } else {
            match spec_parse_reminder_line(lines.last()) {
                Some(r) => rest.push(r),
                None => rest,
            }
        }
    }
}

/// The reminders a listing printed.
pub open spec fn spec_parse_reminders_output(stdout: Seq<char>) -> Seq<ReminderItemView> {
    parsed_reminders(split(stdout, REMINDER_SEPARATOR@))
}

/// Reads a listing.
pub fn parse_reminders_output(stdout: &str) -> (r: Vec<ReminderItem>)
    ensures
        reminder_views(r@) == spec_parse_reminders_output(stdout@),
{
    let v = chars_of(stdout);
    let sep = chars_of(REMINDER_SEPARATOR);
    proof {
        reveal_strlit("---REMINDER_SEP---");
    }
    let lines = split_chars(v.as_slice(), sep.as_slice());
    let ghost lv = views(lines@);
    let mut out: Vec<ReminderItem> = Vec::new();
    let mut i: usize = 0;
    while i < lines.len()
        invariant
            i <= lines.len(),
            lv == views(lines@),
            reminder_views(out@) == parsed_reminders(lv.take(i as int)),
        decreases lines.len() - i,
    {
        proof {
            assert(lv.take(i + 1).drop_last() =~= lv.take(i as int));
            assert(lv.take(i + 1).last() == lines@[i as int]@);
        }
        let t = trim_chars(lines[i].as_slice());
        if t.len() > 0 {
            match parse_line_chars(lines[i].as_slice()) {
                Some(r) => {
                    let ghost before = out@;
                    out.push(r);
                    assert(reminder_views(out@) =~= reminder_views(before).push(r@));
                },
                None => {},
            }
        }
        i = i + 1;
    }
    assert(lv.take(lines.len() as int) =~= lv);
    out
}

/// The AppleScript handlers every Reminders script starts with: field encoding and date formatting.
pub open spec fn spec_reminders_script_prelude() -> Seq<char> {
    r#"
        on replace_text(find_text, replace_text, source_text)
            set previous_delimiters to AppleScript's text item delimiters
            set AppleScript's text item delimiters to find_text
            set chunks to every text item of source_text
            set AppleScript's text item delimiters to replace_text
            set replaced_text to chunks as text
            set AppleScript's text item delimiters to previous_delimiters
            return replaced_text
        end replace_text

        on encode_field(source_text)
            if source_text is missing value then
                return ""
            end if
            set escaped_text to my replace_text("\\", "\\\\", source_text)
            set escaped_text to my replace_text(tab, "\\t", escaped_text)
            set escaped_text to my replace_text(return, "\\r", escaped_text)
            set escaped_text to my replace_text(linefeed, "\\n", escaped_text)
            set escaped_text to my replace_text(""#@ + REMINDER_SEPARATOR@ + r#"", "\\s", escaped_text)
            return escaped_text
        end encode_field

        on pad2(value_num)
            set value_text to value_num as string
            if value_num < 10 then
                return "0" & value_text
            end if
            return value_text
        end pad2

        on format_reminder_date(reminder_date)
            set y to year of reminder_date as integer
            set m to month of reminder_date as integer
            set d to day of reminder_date as integer
            set hh to hours of reminder_date as integer
            set mm to minutes of reminder_date as integer
            set ss to seconds of reminder_date as integer
            return (y as string) & "-" & my pad2(m) & "-" & my pad2(d) & "T" & my pad2(hh) & ":" & my pad2(mm) & ":" & my pad2(ss)
        end format_reminder_date
    "#@
}

/// The AppleScript handlers every Reminders script starts with: field encoding and date formatting.
pub fn reminders_script_prelude() -> (r: String)
    ensures
        r@ == spec_reminders_script_prelude(),
{
    let mut s = String::new();
    s.append(r#"
        on replace_text(find_text, replace_text, source_text)
            set previous_delimiters to AppleScript's text item delimiters
            set AppleScript's text item delimiters to find_text
            set chunks to every text item of source_text
            set AppleScript's text item delimiters to replace_text
            set replaced_text to chunks as text
            set AppleScript's text item delimiters to previous_delimiters
            return replaced_text
        end replace_text

        on encode_field(source_text)
            if source_text is missing value then
                return ""
            end if
            set escaped_text to my replace_text("\\", "\\\\", source_text)
            set escaped_text to my replace_text(tab, "\\t", escaped_text)
            set escaped_text to my replace_text(return, "\\r", escaped_text)
            set escaped_text to my replace_text(linefeed, "\\n", escaped_text)
            set escaped_text to my replace_text(""#);
    s.append(REMINDER_SEPARATOR);
    s.append(r#"", "\\s", escaped_text)
            return escaped_text
        end encode_field

        on pad2(value_num)
            set value_text to value_num as string
            if value_num < 10 then
                return "0" & value_text
            end if
            return value_text
        end pad2

        on format_reminder_date(reminder_date)
            set y to year of reminder_date as integer
            set m to month of reminder_date as integer
            set d to day of reminder_date as integer
            set hh to hours of reminder_date as integer
            set mm to minutes of reminder_date as integer
            set ss to seconds of reminder_date as integer
            return (y as string) & "-" & my pad2(m) & "-" & my pad2(d) & "T" & my pad2(hh) & ":" & my pad2(mm) & ":" & my pad2(ss)
        end format_reminder_date
    "#);
    assert(s@ =~= spec_reminders_script_prelude());
    s
}

/// The lists to read: those named `list_filter` (the script prints nothing
/// when there is none), or all of them.
pub open spec fn spec_build_target_lists_block(list_filter: Option<Seq<char>>) -> Seq<char> {
    match list_filter {
        Some(name) => r#"set targetLists to (lists whose name is ""#@ + quoted(name) + r#"")
            if targetLists is {} then
                return ""
            end if"#@,
        None => "set targetLists to lists"@,
    }
}

/// The lists to read.
pub fn build_target_lists_block(list_filter: Option<&str>) -> (r: String)
    ensures
        r@ == spec_build_target_lists_block(opt_view(list_filter)),
{
    match list_filter {
        Some(name) => {
            let mut s = String::new();
            s.append(r#"set targetLists to (lists whose name is ""#);
            let e = escape(name);
            s.append(e.as_str());
            s.append(r#"")
            if targetLists is {} then
                return ""
            end if"#);
            assert(s@ =~= spec_build_target_lists_block(opt_view(list_filter)));
            s
        },
        None => String::from_str("set targetLists to lists"),
    }
}

/// The loop that prints one record per reminder of `aList` that `filter_clause` keeps.
pub open spec fn spec_reminder_rows_block(filter_clause: Seq<char>) -> Seq<char> {
    r"
                set reminderProps to properties of reminders of aList
                repeat with reminderInfo in reminderProps
                    set reminderDueValue to due date of reminderInfo
                    "@ + filter_clause + r#"
                    if shouldInclude then
                        set reminderId to my encode_field(id of reminderInfo)
                        set reminderTitle to my encode_field(name of reminderInfo)
                        if body of reminderInfo is missing value then
                            set reminderNotes to ""
                        else
                            set reminderNotes to my encode_field(body of reminderInfo)
                        end if
                        if reminderDueValue is missing value then
                            set reminderDue to ""
                        else
                            set reminderDue to my format_reminder_date(reminderDueValue)
                        end if
                        if completed of reminderInfo then
                            set reminderCompleted to "true"
                        else
                            set reminderCompleted to "false"
                        end if
                        set output to output & reminderId & tab & reminderTitle & tab & reminderNotes & tab & reminderDue & tab & reminderCompleted & tab & listName & ""#@ + REMINDER_SEPARATOR@ + r#""
                    end if
                end repeat
        "#@
}

/// The loop that prints the reminders of a list.
pub fn reminder_rows_block(filter_clause: Option<&str>) -> (r: String)
    ensures
        r@ == spec_reminder_rows_block(match filter_clause {
            Some(c) => c@,
            None => "set shouldInclude to true"@,
        }),
{
    let filter_clause = match filter_clause {
        Some(c) => c,
        None => "set shouldInclude to true",
    };
    let mut s = String::new();
    s.append(r"
                set reminderProps to properties of reminders of aList
                repeat with reminderInfo in reminderProps
                    set reminderDueValue to due date of reminderInfo
                    ");
    s.append(filter_clause);
    s.append(r#"
                    if shouldInclude then
                        set reminderId to my encode_field(id of reminderInfo)
                        set reminderTitle to my encode_field(name of reminderInfo)
                        if body of reminderInfo is missing value then
                            set reminderNotes to ""
                        else
                            set reminderNotes to my encode_field(body of reminderInfo)
                        end if
                        if reminderDueValue is missing value then
                            set reminderDue to ""
                        else
                            set reminderDue to my format_reminder_date(reminderDueValue)
                        end if
                        if completed of reminderInfo then
                            set reminderCompleted to "true"
                        else
                            set reminderCompleted to "false"
                        end if
                        set output to output & reminderId & tab & reminderTitle & tab & reminderNotes & tab & reminderDue & tab & reminderCompleted & tab & listName & ""#);
    s.append(REMINDER_SEPARATOR);
    s.append(r#""
                    end if
                end repeat
        "#);
    assert(s@ =~= spec_reminder_rows_block(filter_clause@));
    s
}

/// The script that lists the reminders (of one list, when named) as encoded records.
pub open spec fn spec_build_list_script(list_filter: Option<Seq<char>>) -> Seq<char> {
    r"
        "@ + spec_reminders_script_prelude() + r#"
        tell application "Reminders"
            set output to ""
            "#@ + spec_build_target_lists_block(list_filter) + r"
            repeat with aList in targetLists
                set listName to my encode_field(name of aList)
                "@ + spec_reminder_rows_block("set shouldInclude to true"@) + r"
            end repeat
            return output
        end tell
        "@
}

/// The script that lists the reminders (of one list, when named) as encoded records.
pub fn build_list_script(list_filter: Option<&str>) -> (r: String)
    ensures
        r@ == spec_build_list_script(opt_view(list_filter)),
{
    let mut s = String::new();
    s.append(r"
        ");
    let p = reminders_script_prelude();
    s.append(p.as_str());
    s.append(r#"
        tell application "Reminders"
            set output to ""
            "#);
    let b = build_target_lists_block(list_filter);
    s.append(b.as_str());
    s.append(r"
            repeat with aList in targetLists
                set listName to my encode_field(name of aList)
                ");
    let rows = reminder_rows_block(None);
    s.append(rows.as_str());
    s.append(r"
            end repeat
            return output
        end tell
        ");
    assert(s@ =~= spec_build_list_script(opt_view(list_filter)));
    s
}

/// A script that finds the reminder with id `reminder_id` and runs `action_block` on it.
pub open spec fn spec_build_reminder_lookup_script(reminder_id: Seq<char>, action_block: Seq<char>) -> Seq<char> {
    r#"
        tell application "Reminders"
            set targetReminder to missing value
            repeat with aList in lists
                repeat with aReminder in reminders of aList
                    if id of aReminder is ""#@ + quoted(reminder_id) + r#"" then
                        set targetReminder to aReminder
                        exit repeat
                    end if
                end repeat
                if targetReminder is not missing value then
                    exit repeat
                end if
            end repeat
            if targetReminder is missing value then
                error "reminder not found: "#@ + quoted(reminder_id) + r#""
            end if
            "#@ + action_block + r"
        end tell
        "@
}

/// A script that finds the reminder with id `reminder_id` and runs `action_block` on it.
pub fn build_reminder_lookup_script(reminder_id: &str, action_block: &str) -> (r: String)
    ensures
        r@ == spec_build_reminder_lookup_script(reminder_id@, action_block@),
{
    let mut s = String::new();
    s.append(r#"
        tell application "Reminders"
            set targetReminder to missing value
            repeat with aList in lists
                repeat with aReminder in reminders of aList
                    if id of aReminder is ""#);
    let e = escape(reminder_id);
    s.append(e.as_str());
    s.append(r#"" then
                        set targetReminder to aReminder
                        exit repeat
                    end if
                end repeat
                if targetReminder is not missing value then
                    exit repeat
                end if
            end repeat
            if targetReminder is missing value then
                error "reminder not found: "#);
    let e = escape(reminder_id);
    s.append(e.as_str());
    s.append(r#""
            end if
            "#);
    s.append(action_block);
    s.append(r"
        end tell
        ");
    assert(s@ =~= spec_build_reminder_lookup_script(reminder_id@, action_block@));
    s
}

/// Finds the list `list_name`, making it when there is none.
pub open spec fn spec_build_list_lookup_block(list_name: Seq<char>) -> Seq<char> {
    r#"try
                set targetList to list ""#@ + quoted(list_name) + r#""
            on error
                make new list with properties {name:""#@ + quoted(list_name) + r#""}
                set targetList to list ""#@ + quoted(list_name) + r#""
            end try"#@
}

/// Finds the list `list_name`, making it when there is none.
pub fn build_list_lookup_block(list_name: &str) -> (r: String)
    ensures
        r@ == spec_build_list_lookup_block(list_name@),
{
    let mut s = String::new();
    s.append(r#"try
                set targetList to list ""#);
    let e = escape(list_name);
    s.append(e.as_str());
    s.append(r#""
            on error
                make new list with properties {name:""#);
    let e = escape(list_name);
    s.append(e.as_str());
    s.append(r#""}
                set targetList to list ""#);
    let e = escape(list_name);
    s.append(e.as_str());
    s.append(r#""
            end try"#);
    assert(s@ =~= spec_build_list_lookup_block(list_name@));
    s
}

/// What the Reminders operations need from the machine.
pub trait RemindersHost {
    /// The reminders that EventKit reports (of one list, when named), or
    /// `None` when EventKit cannot be used and AppleScript must be.
    fn eventkit_list(&mut self, list_filter: Option<&str>) -> Result<Option<Vec<ReminderItem>>, MacosError>;

    /// Runs an AppleScript program and returns its standard output.
    fn run_capture(&mut self, script: &str, context: &str) -> Result<String, MacosError>;

    /// Runs an AppleScript program for its effect.
    fn run(&mut self, script: &str, context: &str) -> Result<(), MacosError>;

    /// Today's local date (year, month, day), and whether its midnight and
    /// its 23:59:59 exist on the local clock.
    fn local_today(&mut self) -> (i32, u32, u32, bool, bool);
}

/// A Reminders session on a host, with the record of the scripts run and
/// what each gave back (the output of a listing, an empty text for a script
/// run for its effect).
pub struct Reminders<H: RemindersHost> {
    pub host: H,
    pub scripts: Ghost<Seq<(Seq<char>, Result<Seq<char>, MacosErrorView>)>>,
    /// The EventKit listings asked for, in order: the list named, and what
    /// EventKit answered.
    pub eventkit: Ghost<Seq<(Option<Seq<char>>, Result<Option<Seq<ReminderItemView>>, MacosErrorView>)>>,
    /// The days the local clock reported, in order.
    pub days: Ghost<Seq<(i32, u32, u32, bool, bool)>>,
}

/// The view of what an EventKit listing answered.
pub open spec fn eventkit_view(r: Result<Option<Vec<ReminderItem>>, MacosError>) -> Result<Option<Seq<ReminderItemView>>, MacosErrorView> {
    match r {
        Ok(Some(v)) => Ok(Some(reminder_views(v@))),
        Ok(None) => Ok(None),
        Err(e) => Err(e@),
    }
}

/// What a listing answers, given what EventKit answered (`Ok(None)` when it
/// cannot be used), what the AppleScript fallback was, and how the logs
/// changed: the EventKit answer is one more entry of its log, and the
/// fallback runs only when EventKit cannot be used, as one more script.
pub open spec fn listing_contract(
    ek_before: Seq<(Option<Seq<char>>, Result<Option<Seq<ReminderItemView>>, MacosErrorView>)>,
    ek_after: Seq<(Option<Seq<char>>, Result<Option<Seq<ReminderItemView>>, MacosErrorView>)>,
    scripts_before: Seq<(Seq<char>, Result<Seq<char>, MacosErrorView>)>,
    scripts_after: Seq<(Seq<char>, Result<Seq<char>, MacosErrorView>)>,
    list_filter: Option<Seq<char>>,
    script: Seq<char>,
    from_eventkit: spec_fn(Seq<ReminderItemView>) -> Seq<ReminderItemView>,
    on_error: spec_fn(MacosErrorView) -> MacosErrorView,
    result: Result<Seq<ReminderItemView>, MacosErrorView>,
) -> bool {
    &&& ek_after.len() == ek_before.len() + 1
    &&& ek_after.drop_last() == ek_before
    &&& ek_after.last().0 == list_filter
    &&& match ek_after.last().1 {
        Ok(Some(items)) => scripts_after == scripts_before && result == Ok::<Seq<ReminderItemView>, MacosErrorView>(
            from_eventkit(items),
        ),
        Err(e) => scripts_after == scripts_before && result == Err::<Seq<ReminderItemView>, MacosErrorView>(on_error(e)),
        Ok(None) => {
            &&& scripts_after.len() == scripts_before.len() + 1
            &&& scripts_after.drop_last() == scripts_before
            &&& scripts_after.last().0 == script
            &&& result == match scripts_after.last().1 {
                Ok(stdout) => Ok(spec_parse_reminders_output(stdout)),
                Err(e) => Err(on_error(e)),
            }
        },
    }
}

/// The first and last second of a reported day.
pub open spec fn day_start(d: (i32, u32, u32, bool, bool)) -> LocalDateTimeParts {
    LocalDateTimeParts { year: d.0, month: d.1, day: d.2, seconds: 0 }
}

/// The last second of a reported day.
pub open spec fn day_end(d: (i32, u32, u32, bool, bool)) -> LocalDateTimeParts {
    LocalDateTimeParts { year: d.0, month: d.1, day: d.2, seconds: 86399 }
}

/// The views of a list of reminders, or the error.
pub open spec fn reminders_result(r: Result<Vec<ReminderItem>, MacosError>) -> Result<Seq<ReminderItemView>, MacosErrorView> {
    match r {
        Ok(v) => Ok(reminder_views(v@)),
        Err(e) => Err(e@),
    }
}

/// The view of a script's outcome with nothing to return.
pub open spec fn unit_outcome(r: Result<(), MacosError>) -> Result<Seq<char>, MacosErrorView> {
    match r {
        Ok(()) => Ok(seq![]),
        Err(e) => Err(e@),
    }
}

/// The reminders whose title is `title`, in order.
pub open spec fn titled(items: Seq<ReminderItemView>, title: Seq<char>) -> Seq<ReminderItemView>
    decreases items.len(),
{
    if items.len() == 0 {
        seq![]
    } else {
        let r = titled(items.drop_last(), title);
        if items.last().title == title {
            r.push(items.last())
        } else {
            r
        }
    }
}

/// The id a title names among `items`: that of its only reminder.
pub open spec fn spec_resolve_title(items: Seq<ReminderItemView>, title: Seq<char>) -> Result<Seq<char>, MacosErrorView> {
    let m = titled(items, title);
    if m.len() == 0 {
        Err(MacosErrorView::Other("reminder not found: "@ + title))
    } else if m.len() == 1 {
        Ok(m[0].id)
    } else {
        Err(MacosErrorView::Other("reminder title is ambiguous: "@ + title + " ("@ + crate::text::decimal(m.len()) + " matches)"@))
    }
}

impl<H: RemindersHost> Reminders<H> {
    /// A session on `host` that has run nothing yet.
    pub fn new(host: H) -> (s: Self)
        ensures
            s.scripts@ == Seq::<(Seq<char>, Result<Seq<char>, MacosErrorView>)>::empty(),
            s.eventkit@.len() == 0,
            s.days@.len() == 0,
    {
        Reminders { host, scripts: Ghost(Seq::empty()), eventkit: Ghost(Seq::empty()), days: Ghost(Seq::empty()) }
    }
}

/// Lists the reminders (of one list, when named): as EventKit reports them
/// when it can, else from the AppleScript listing.
pub fn list<H: RemindersHost>(session: &mut Reminders<H>, list_filter: Option<&str>) -> (r: Result<Vec<ReminderItem>, MacosError>)
    ensures
        final(session).scripts@ == old(session).scripts@ || ({
            let after = final(session).scripts@;
            &&& after.len() == old(session).scripts@.len() + 1
            &&& after.drop_last() == old(session).scripts@
            &&& after.last().0 == spec_build_list_script(opt_view(list_filter))
            &&& reminders_result(r) == match after.last().1 {
                Ok(stdout) => Ok(spec_parse_reminders_output(stdout)),
                Err(e) => Err(e),
            }
        }),
        listing_contract(
            old(session).eventkit@,
            final(session).eventkit@,
            old(session).scripts@,
            final(session).scripts@,
            opt_view(list_filter),
            spec_build_list_script(opt_view(list_filter)),
            |items: Seq<ReminderItemView>| items,
            |e: MacosErrorView| e,
            reminders_result(r),
        ),
        final(session).days == old(session).days,
{
    let listed = session.host.eventkit_list(list_filter);
    session.eventkit = Ghost(session.eventkit@.push((opt_view(list_filter), eventkit_view(listed))));
    assert(session.eventkit@.drop_last() =~= old(session).eventkit@);
    match listed {
        Ok(Some(items)) => {
            return Ok(items);
        },
        Ok(None) => {},
        Err(e) => {
            return Err(e);
        },
    }
    let script = build_list_script(list_filter);
    let out = session.host.run_capture(script.as_str(), "list_reminders");
    session.scripts = Ghost(session.scripts@.push((script@, result_view(out))));
    assert(session.scripts@.drop_last() =~= old(session).scripts@);
    match out {
        Ok(stdout) => Ok(parse_reminders_output(stdout.as_str())),
        Err(e) => Err(e),
    }
}

/// The id of the only reminder in `items` with the title.
pub fn select_by_title(items: &Vec<ReminderItem>, title: &str) -> (r: Result<String, MacosError>)
    ensures
        match spec_resolve_title(reminder_views(items@), title@) {
            Ok(id) => r matches Ok(x) && x@ == id,
            Err(e) => r matches Err(x) && x@ == e,
        },
{
    let t = chars_of(title);
    let mut found: Option<usize> = None;
    let mut count: usize = 0;
    let mut i: usize = 0;
    while i < items.len()
        invariant
            i <= items.len(),
            count <= i,
            count == titled(reminder_views(items@.take(i as int)), title@).len(),
            t@ == title@,
            count > 0 ==> (found matches Some(f) && f < items.len() && titled(reminder_views(items@.take(i as int)), title@)[0] == items@[f as int]@),
        decreases items.len() - i,
    {
        proof {
            assert(reminder_views(items@.take(i + 1)).drop_last() =~= reminder_views(items@.take(i as int)));
            assert(reminder_views(items@.take(i + 1)).last() == items@[i as int]@);
        }
        let c = chars_of(items[i].title.as_str());
        if chars_eq(c.as_slice(), t.as_slice()) {
            if count == 0 {
                found = Some(i);
            }
            proof {
                let prev = titled(reminder_views(items@.take(i as int)), title@);
                let now = titled(reminder_views(items@.take(i + 1)), title@);
                assert(now == prev.push(items@[i as int]@));
                if count > 0 {
                    assert(now[0] == prev[0]);
                }
            }
            count = count + 1;
        }
        i = i + 1;
    }
    assert(items@.take(items.len() as int) =~= items@);
    if count == 0 {
        let mut m = String::from_str("reminder not found: ");
        m.append(title);
        return Err(MacosError::Other(m));
    }
    if count > 1 {
        let mut m = String::from_str("reminder title is ambiguous: ");
        m.append(title);
        m.append(" (");
        crate::text::push_decimal(&mut m, count as u128);
        m.append(" matches)");
        return Err(MacosError::Other(m));
    }
    match found {
        Some(f) => Ok(items[f].id.clone()),
        None => Err(MacosError::Other(String::from_str("reminder not found"))),
    }
}

/// What the listing of all reminders gave, as `listing_contract` says, from
/// the logs before and after it.
pub open spec fn listed_all(
    ek_before: Seq<(Option<Seq<char>>, Result<Option<Seq<ReminderItemView>>, MacosErrorView>)>,
    ek_after: Seq<(Option<Seq<char>>, Result<Option<Seq<ReminderItemView>>, MacosErrorView>)>,
    scripts_before: Seq<(Seq<char>, Result<Seq<char>, MacosErrorView>)>,
    scripts_after: Seq<(Seq<char>, Result<Seq<char>, MacosErrorView>)>,
    listed: Result<Seq<ReminderItemView>, MacosErrorView>,
) -> bool {
    listing_contract(
        ek_before,
        ek_after,
        scripts_before,
        scripts_after,
        None,
        spec_build_list_script(None),
        |items: Seq<ReminderItemView>| items,
        |e: MacosErrorView| e,
        listed,
    )
}

/// The id a title names, from what the listing gave: the listing's error, or
/// the id of the only reminder with that title.
pub open spec fn id_by_title(listed: Result<Seq<ReminderItemView>, MacosErrorView>, title: Seq<char>) -> Result<Seq<char>, MacosErrorView> {
    match listed {
        Err(e) => Err(e),
        Ok(items) => spec_resolve_title(items, title),
    }
}

/// The id a selector names: the id itself, or that of the only reminder with
/// the title among those the listing returns.
pub fn resolve_selector<H: RemindersHost>(session: &mut Reminders<H>, selector: ReminderSelector) -> (r: Result<String, MacosError>)
    ensures
        selector matches ReminderSelector::Id(id) ==> (r matches Ok(x) && x@ == id@ && final(session).scripts == old(session).scripts
            && final(session).eventkit == old(session).eventkit),
        selector matches ReminderSelector::Title(title) ==> exists|listed: Result<Seq<ReminderItemView>, MacosErrorView>|
            #[trigger] listed_all(old(session).eventkit@, final(session).eventkit@, old(session).scripts@, final(session).scripts@, listed)
            && result_view(r) == id_by_title(listed, title@),
        final(session).days == old(session).days,
{
    match selector {
        ReminderSelector::Id(id) => Ok(id),
        ReminderSelector::Title(title) => {
            let listed = list(session, None);
            let ghost lv = reminders_result(listed);
            assert(listed_all(old(session).eventkit@, session.eventkit@, old(session).scripts@, session.scripts@, lv));
            let items = match listed {
                Ok(items) => items,
                Err(e) => {
                    return Err(e);
                },
            };
            let r = select_by_title(&items, title.as_str());
            assert(result_view(r) == id_by_title(lv, title@));
            r
        },
    }
}

/// What acting on the reminder a title names did: the listing, then, when
/// it named one reminder, the lookup script with the action for its id.
pub open spec fn acted_by_title(
    ek_before: Seq<(Option<Seq<char>>, Result<Option<Seq<ReminderItemView>>, MacosErrorView>)>,
    ek_after: Seq<(Option<Seq<char>>, Result<Option<Seq<ReminderItemView>>, MacosErrorView>)>,
    scripts_before: Seq<(Seq<char>, Result<Seq<char>, MacosErrorView>)>,
    scripts_after: Seq<(Seq<char>, Result<Seq<char>, MacosErrorView>)>,
    title: Seq<char>,
    wrap: Option<Seq<char>>,
    action: Seq<char>,
    r: Result<(), MacosError>,
) -> bool {
    exists|mid: Seq<(Seq<char>, Result<Seq<char>, MacosErrorView>)>, listed: Result<Seq<ReminderItemView>, MacosErrorView>|
        #[trigger] listed_all(ek_before, ek_after, scripts_before, mid, listed) && match id_by_title(listed, title) {
            Err(e) => fails_with_error(r, e) && scripts_after == mid,
            Ok(id) => {
                &&& scripts_after.len() == mid.len() + 1
                &&& scripts_after.drop_last() == mid
                &&& scripts_after.last().0 == spec_wrapped(wrap, spec_build_reminder_lookup_script(id, action))
                &&& unit_outcome(r) == scripts_after.last().1
            },
        }
}

/// A lookup script, after the lines `before` when there are some.
pub open spec fn spec_wrapped(before: Option<Seq<char>>, lookup: Seq<char>) -> Seq<char> {
    match before {
        Some(b) => "\n        "@ + b + "\n        "@ + lookup + "\n        "@,
        None => lookup,
    }
}

/// Runs `action_block` on the reminder the selector names, after the lines
/// `before` when there are some.
fn act_on_reminder<H: RemindersHost>(
    session: &mut Reminders<H>,
    selector: ReminderSelector,
    before: Option<&str>,
    action_block: &str,
    context: &str,
) -> (r: Result<(), MacosError>)
    ensures
        selector matches ReminderSelector::Id(id) ==> ({
            let after = final(session).scripts@;
            &&& after.len() == old(session).scripts@.len() + 1
            &&& after.drop_last() == old(session).scripts@
            &&& after.last().0 == spec_wrapped(opt_view(before), spec_build_reminder_lookup_script(id@, action_block@))
            &&& unit_outcome(r) == after.last().1
        }),
        selector matches ReminderSelector::Title(title) ==> acted_by_title(
            old(session).eventkit@,
            final(session).eventkit@,
            old(session).scripts@,
            final(session).scripts@,
            title@,
            opt_view(before),
            action_block@,
            r,
        ),
{
    let ghost sel = selector;
    let resolved = resolve_selector(session, selector);
    let ghost mid = session.scripts@;
    let ghost ek = session.eventkit@;
    let reminder_id = match resolved {
        Ok(id) => id,
        Err(e) => {
            proof {
                if let ReminderSelector::Title(title) = sel {
                    let listed = choose|listed: Result<Seq<ReminderItemView>, MacosErrorView>|
                        #[trigger] listed_all(old(session).eventkit@, ek, old(session).scripts@, mid, listed)
                        && result_view(Err::<String, MacosError>(e)) == id_by_title(listed, title@);
                    assert(listed_all(old(session).eventkit@, ek, old(session).scripts@, mid, listed));
                }
            }
            return Err(e);
        },
    };
    let lookup = build_reminder_lookup_script(reminder_id.as_str(), action_block);
    let script = match before {
        Some(b) => {
            let mut s = String::from_str("\n        ");
            s.append(b);
            s.append("\n        ");
            s.append(lookup.as_str());
            s.append("\n        ");
            s
        },
        None => lookup,
    };
    assert(script@ == spec_wrapped(opt_view(before), spec_build_reminder_lookup_script(reminder_id@, action_block@)));
    let r = session.host.run(script.as_str(), context);
    session.scripts = Ghost(session.scripts@.push((script@, unit_outcome(r))));
    proof {
        assert(session.scripts@.drop_last() =~= mid);
        if let ReminderSelector::Title(title) = sel {
            let listed = choose|listed: Result<Seq<ReminderItemView>, MacosErrorView>|
                #[trigger] listed_all(old(session).eventkit@, ek, old(session).scripts@, mid, listed)
                && result_view(Ok::<String, MacosError>(reminder_id)) == id_by_title(listed, title@);
            assert(listed_all(old(session).eventkit@, session.eventkit@, old(session).scripts@, mid, listed));
        }
    }
    r
}

/// Marks the reminder the selector names as completed: by id, the lookup
/// script for that id; by title, the listing, then that script for the id of
/// the only reminder with the title, or the error when there is none or more
/// than one.
pub fn complete_reminder<H: RemindersHost>(session: &mut Reminders<H>, selector: ReminderSelector) -> (r: Result<(), MacosError>)
    ensures
        selector matches ReminderSelector::Id(id) ==> ({
            let after = final(session).scripts@;
            &&& after.len() == old(session).scripts@.len() + 1
            &&& after.drop_last() == old(session).scripts@
            &&& after.last().0 == spec_build_reminder_lookup_script(id@, "set completed of targetReminder to true"@)
            &&& unit_outcome(r) == after.last().1
        }),
        selector matches ReminderSelector::Title(title) ==> acted_by_title(
            old(session).eventkit@,
            final(session).eventkit@,
            old(session).scripts@,
            final(session).scripts@,
            title@,
            None,
            "set completed of targetReminder to true"@,
            r,
        ),
{
    act_on_reminder(session, selector, None, "set completed of targetReminder to true", "failed to complete reminder")
}

/// Deletes the reminder the selector names: by id, the lookup script for
/// that id; by title, the listing, then that script for the id of the only
/// reminder with the title, or the error when there is none or more than one.
pub fn delete_reminder<H: RemindersHost>(session: &mut Reminders<H>, selector: ReminderSelector) -> (r: Result<(), MacosError>)
    ensures
        selector matches ReminderSelector::Id(id) ==> ({
            let after = final(session).scripts@;
            &&& after.len() == old(session).scripts@.len() + 1
            &&& after.drop_last() == old(session).scripts@
            &&& after.last().0 == spec_build_reminder_lookup_script(id@, "delete targetReminder"@)
            &&& unit_outcome(r) == after.last().1
        }),
        selector matches ReminderSelector::Title(title) ==> acted_by_title(
            old(session).eventkit@,
            final(session).eventkit@,
            old(session).scripts@,
            final(session).scripts@,
            title@,
            None,
            "delete targetReminder"@,
            r,
        ),
{
    act_on_reminder(session, selector, None, "delete targetReminder", "failed to delete reminder")
}

/// The lines that set the AppleScript date variable `name` to `d`.
pub open spec fn spec_date_block(name: Seq<char>, d: LocalDateTimeParts) -> Seq<char> {
    "set "@ + name + " to current date\n        set year of "@ + name + " to "@ + signed_decimal(d.year as int) + "\n        set month of "@
        + name + " to "@ + decimal(d.month as nat) + "\n        set day of "@ + name + " to "@ + decimal(d.day as nat)
        + "\n        set time of "@ + name + " to "@ + decimal(d.seconds as nat)
}

/// The lines that set the AppleScript date variable `name` to `d`.
pub fn date_block(name: &str, d: LocalDateTimeParts) -> (r: String)
    ensures
        r@ == spec_date_block(name@, d),
{
    let mut s = String::from_str("set ");
    s.append(name);
    s.append(" to current date\n        set year of ");
    s.append(name);
    s.append(" to ");
    push_signed_decimal(&mut s, d.year as i64);
    s.append("\n        set month of ");
    s.append(name);
    s.append(" to ");
    push_decimal(&mut s, d.month as u128);
    s.append("\n        set day of ");
    s.append(name);
    s.append(" to ");
    push_decimal(&mut s, d.day as u128);
    s.append("\n        set time of ");
    s.append(name);
    s.append(" to ");
    push_decimal(&mut s, d.seconds as u128);
    assert(s@ =~= spec_date_block(name@, d));
    s
}

/// The due-date lines of a script: none without a due date.
pub open spec fn spec_due_block(due: Option<LocalDateTimeParts>) -> Seq<char> {
    match due {
        Some(d) => spec_date_block("dueDate"@, d),
        None => Seq::empty(),
    }
}

fn due_block(due: Option<LocalDateTimeParts>) -> (r: String)
    ensures
        r@ == spec_due_block(due),
{
    match due {
        Some(d) => date_block("dueDate", d),
        None => String::new(),
    }
}

/// The script that makes a reminder in the list `list` (made when missing),
/// with its title and notes, and its due date and priority when given.
pub open spec fn spec_build_create_script(
    title: Seq<char>,
    notes: Seq<char>,
    list: Seq<char>,
    due: Option<LocalDateTimeParts>,
    priority: Option<u8>,
) -> Seq<char> {
    "\n        "@ + spec_due_block(due) + "\n        tell application \"Reminders\"\n            "@ + spec_build_list_lookup_block(list)
        + "\n            make new reminder at targetList with properties {name:\""@ + quoted(title) + "\", body:"@
        + body_expression(notes) + (if due is Some {
        ", due date:dueDate"@
    } else {
        Seq::empty()
    }) + match priority {
        Some(p) => ", priority:"@ + decimal(p as nat),
        None => Seq::empty(),
    } + "}\n        end tell\n        "@
}

/// The script that makes a reminder.
pub fn build_create_script(title: &str, notes: &str, list: &str, due: Option<LocalDateTimeParts>, priority: Option<u8>) -> (r: String)
    ensures
        r@ == spec_build_create_script(title@, notes@, list@, due, priority),
{
    let mut s = String::from_str("\n        ");
    let d = due_block(due);
    s.append(d.as_str());
    s.append("\n        tell application \"Reminders\"\n            ");
    let l = build_list_lookup_block(list);
    s.append(l.as_str());
    s.append("\n            make new reminder at targetList with properties {name:\"");
    let t = escape(title);
    s.append(t.as_str());
    s.append("\", body:");
    let b = escape_body(notes);
    s.append(b.as_str());
    if due.is_some() {
        s.append(", due date:dueDate");
    }
    match priority {
        Some(p) => {
            s.append(", priority:");
            push_decimal(&mut s, p as u128);
        },
        None => {},
    }
    s.append("}\n        end tell\n        ");
    assert(s@ =~= spec_build_create_script(title@, notes@, list@, due, priority));
    s
}

/// Makes a reminder in the list `list` (made when missing): runs the
/// script for it once, and gives what running it gave.
pub fn create_reminder<H: RemindersHost>(
    session: &mut Reminders<H>,
    title: &str,
    notes: &str,
    list: &str,
    due: Option<LocalDateTimeParts>,
    priority: Option<u8>,
) -> (r: Result<(), MacosError>)
    ensures
        final(session).scripts@.len() == old(session).scripts@.len() + 1,
        final(session).scripts@.drop_last() == old(session).scripts@,
        final(session).scripts@.last().0 == spec_build_create_script(title@, notes@, list@, due, priority),
        unit_outcome(r) == final(session).scripts@.last().1,
        final(session).eventkit == old(session).eventkit,
{
    let script = build_create_script(title, notes, list, due, priority);
    let r = session.host.run(script.as_str(), "failed to create reminder");
    session.scripts = Ghost(session.scripts@.push((script@, unit_outcome(r))));
    assert(session.scripts@.drop_last() =~= old(session).scripts@);
    r
}

/// The actions that update a reminder: a new title, the due date, new
/// notes, a priority, and a move to another list (made when missing), each
/// when given, in that order.
pub open spec fn spec_update_actions(
    new_title: Option<Seq<char>>,
    due: bool,
    notes: Option<Seq<char>>,
    list: Option<Seq<char>>,
    priority: Option<u8>,
) -> Seq<Seq<char>> {
    (match new_title {
        Some(t) => seq!["set name of targetReminder to \""@ + quoted(t) + "\""@],
        None => Seq::empty(),
    }) + (if due {
        seq!["set due date of targetReminder to dueDate"@]
    } else {
        Seq::empty()
    }) + (match notes {
        Some(n) => seq!["set body of targetReminder to "@ + body_expression(n)],
        None => Seq::empty(),
    }) + (match priority {
        Some(p) => seq!["set priority of targetReminder to "@ + decimal(p as nat)],
        None => Seq::empty(),
    }) + (match list {
        Some(l) => seq![spec_build_list_lookup_block(l), "move targetReminder to targetList"@],
        None => Seq::empty(),
    })
}

/// The separator between update actions.
pub open spec fn action_separator() -> Seq<char> {
    "\n            "@
}

fn update_actions(new_title: Option<&str>, due: bool, notes: Option<&str>, list: Option<&str>, priority: Option<u8>) -> (r: String)
    ensures
        r@ == join(spec_update_actions(opt_view(new_title), due, opt_view(notes), opt_view(list), priority), action_separator()),
{
    let mut parts: Vec<Vec<char>> = Vec::new();
    match new_title {
        Some(t) => {
            let mut a = String::from_str("set name of targetReminder to \"");
            let e = escape(t);
            a.append(e.as_str());
            a.append("\"");
            parts.push(chars_of(a.as_str()));
        },
        None => {},
    }
    if due {
        parts.push(chars_of("set due date of targetReminder to dueDate"));
    }
    match notes {
        Some(n) => {
            let mut a = String::from_str("set body of targetReminder to ");
            let b = escape_body(n);
            a.append(b.as_str());
            parts.push(chars_of(a.as_str()));
        },
        None => {},
    }
    match priority {
        Some(p) => {
            let mut a = String::from_str("set priority of targetReminder to ");
            push_decimal(&mut a, p as u128);
            parts.push(chars_of(a.as_str()));
        },
        None => {},
    }
    match list {
        Some(l) => {
            let b = build_list_lookup_block(l);
            parts.push(chars_of(b.as_str()));
            parts.push(chars_of("move targetReminder to targetList"));
        },
        None => {},
    }
    assert(views(parts@) =~= spec_update_actions(opt_view(new_title), due, opt_view(notes), opt_view(list), priority));
    let sep = chars_of("\n            ");
    join_chars(&parts, sep.as_slice())
}

/// Updates the reminder the selector names: without any change given, the
/// error and nothing run; otherwise, as for completing, the update script with
/// the due-date lines before it and the actions for the changes given.
pub fn update_reminder<H: RemindersHost>(
    session: &mut Reminders<H>,
    selector: ReminderSelector,
    new_title: Option<&str>,
    due: Option<LocalDateTimeParts>,
    notes: Option<&str>,
    list: Option<&str>,
    priority: Option<u8>,
) -> (r: Result<(), MacosError>)
    ensures
        new_title is None && due is None && notes is None && list is None && priority is None ==> (fails_with_error(
            r,
            MacosErrorView::Other("no reminder updates specified"@),
        ) && final(session).scripts == old(session).scripts && final(session).eventkit == old(session).eventkit),
        !(new_title is None && due is None && notes is None && list is None && priority is None) ==> ({
            let actions = join(
                spec_update_actions(opt_view(new_title), due is Some, opt_view(notes), opt_view(list), priority),
                action_separator(),
            );
            &&& selector matches ReminderSelector::Id(id) ==> ({
                let after = final(session).scripts@;
                &&& after.len() == old(session).scripts@.len() + 1
                &&& after.drop_last() == old(session).scripts@
                &&& after.last().0 == spec_wrapped(Some(spec_due_block(due)), spec_build_reminder_lookup_script(id@, actions))
                &&& unit_outcome(r) == after.last().1
            })
            &&& selector matches ReminderSelector::Title(title) ==> acted_by_title(
                old(session).eventkit@,
                final(session).eventkit@,
                old(session).scripts@,
                final(session).scripts@,
                title@,
                Some(spec_due_block(due)),
                actions,
                r,
            )
        }),
{
    if new_title.is_none() && due.is_none() && notes.is_none() && list.is_none() && priority.is_none() {
        return Err(MacosError::Other(String::from_str("no reminder updates specified")));
    }
    let before = due_block(due);
    let actions = update_actions(new_title, due.is_some(), notes, list, priority);
    act_on_reminder(session, selector, Some(before.as_str()), actions.as_str(), "failed to update reminder")
}

/// A local date and time as AppleScript sets it: year, month, day, and
/// seconds since midnight.
#[derive(Debug, Clone, Copy, PartialEq, Eq)]
pub struct LocalDateTimeParts {
    pub year: i32,
    pub month: u32,
    pub day: u32,
    pub seconds: u32,
}

/// The rows the due-range listing writes for a list: each reminder with a due
/// date in the range, read by position from bulk lookups. Its record separator
/// is the placeholder text `{REMINDER_SEPARATOR}`, written as it stands.
pub const DUE_RANGE_ROWS: &'static str = r#"
                set reminderRefs to reminders of aList
                set reminderDueValues to due date of every reminder of aList
                set reminderCount to count of reminderDueValues
                repeat with idx from 1 to reminderCount
                    set reminderDueValue to item idx of reminderDueValues
                    if reminderDueValue is not missing value then
                        if reminderDueValue is greater than or equal to fromDate and reminderDueValue is less than or equal to toDate then
                            set reminderRef to item idx of reminderRefs
                            set reminderId to my encode_field(id of reminderRef)
                            set reminderTitle to my encode_field(name of reminderRef)
                            if body of reminderRef is missing value then
                                set reminderNotes to ""
                            else
                                set reminderNotes to my encode_field(body of reminderRef)
                            end if
                            set reminderDue to my format_reminder_date(reminderDueValue)
                            if completed of reminderRef then
                                set reminderCompleted to "true"
                            else
                                set reminderCompleted to "false"
                            end if
                            set output to output & reminderId & tab & reminderTitle & tab & reminderNotes & tab & reminderDue & tab & reminderCompleted & tab & listName & "{REMINDER_SEPARATOR}"
                        end if
                    end if
                end repeat
    "#;

/// The script that lists the reminders (of one list, when named) due between
/// `from` and `to`, both included.
pub open spec fn spec_build_due_range_script(from: LocalDateTimeParts, to: LocalDateTimeParts, list_filter: Option<Seq<char>>) -> Seq<char> {
    r#"
        "#@
        + spec_reminders_script_prelude() + r#"
        tell application "Reminders"
            set fromDate to current date
            set year of fromDate to "#@
        + signed_decimal(from.year as int) + r#"
            set month of fromDate to "#@
        + decimal(from.month as nat) + r#"
            set day of fromDate to "#@
        + decimal(from.day as nat) + r#"
            set time of fromDate to "#@
        + decimal(from.seconds as nat) + r#"
            set toDate to current date
            set year of toDate to "#@
        + signed_decimal(to.year as int) + r#"
            set month of toDate to "#@
        + decimal(to.month as nat) + r#"
            set day of toDate to "#@
        + decimal(to.day as nat) + r#"
            set time of toDate to "#@
        + decimal(to.seconds as nat) + r#"
            set output to ""
            "#@
        + spec_build_target_lists_block(list_filter) + r#"
            repeat with aList in targetLists
                set listName to my encode_field(name of aList)
                "#@
        + DUE_RANGE_ROWS@ + r#"
            end repeat
            return output
        end tell
        "#@
}

/// The script that lists the reminders due between `from` and `to`.
pub fn build_due_range_script(from: LocalDateTimeParts, to: LocalDateTimeParts, list_filter: Option<&str>) -> (r: String)
    ensures
        r@ == spec_build_due_range_script(from, to, opt_view(list_filter)),
{
    let mut s = String::from_str(r#"
        "#);
    { let p = reminders_script_prelude(); s.append(p.as_str()); }
    s.append(r#"
        tell application "Reminders"
            set fromDate to current date
            set year of fromDate to "#);
    push_signed_decimal(&mut s, from.year as i64);
    s.append(r#"
            set month of fromDate to "#);
    push_decimal(&mut s, from.month as u128);
    s.append(r#"
            set day of fromDate to "#);
    push_decimal(&mut s, from.day as u128);
    s.append(r#"
            set time of fromDate to "#);
    push_decimal(&mut s, from.seconds as u128);
    s.append(r#"
            set toDate to current date
            set year of toDate to "#);
    push_signed_decimal(&mut s, to.year as i64);
    s.append(r#"
            set month of toDate to "#);
    push_decimal(&mut s, to.month as u128);
    s.append(r#"
            set day of toDate to "#);
    push_decimal(&mut s, to.day as u128);
    s.append(r#"
            set time of toDate to "#);
    push_decimal(&mut s, to.seconds as u128);
    s.append(r#"
            set output to ""
            "#);
    { let b = build_target_lists_block(list_filter); s.append(b.as_str()); }
    s.append(r#"
            repeat with aList in targetLists
                set listName to my encode_field(name of aList)
                "#);
    s.append(DUE_RANGE_ROWS);
    s.append(r#"
            end repeat
            return output
        end tell
        "#);
    assert(s@ =~= spec_build_due_range_script(from, to, opt_view(list_filter)));
    s
}

/// The script that lists the reminders of all lists due between `from` and `to`.
pub fn build_today_script(from: LocalDateTimeParts, to: LocalDateTimeParts) -> (r: String)
    ensures
        r@ == spec_build_due_range_script(from, to, None),
{
    build_due_range_script(from, to, None)
}

/// The local date and time that `s` denotes when read with the `chrono`
/// format string `format`, as `chrono::NaiveDateTime::parse_from_str` reads
/// it, if it is one.
pub uninterp spec fn naive_due_parts(s: Seq<char>, format: Seq<char>) -> Option<LocalDateTimeParts>;

/// How due dates are written: `chrono`'s `%Y-%m-%dT%H:%M:%S`.
pub open spec fn due_date_format() -> Seq<char> {
    "%Y-%m-%dT%H:%M:%S"@
}

/// Calls `chrono::NaiveDateTime::parse_from_str` on `s` with the format
/// string `format` and takes the date's year, month, day and the seconds
/// since midnight. The contract names the outcome.
#[verifier::external_body]
fn parse_due_parts(s: &str, format: &str) -> (r: Option<LocalDateTimeParts>)
    ensures
        r == naive_due_parts(s@, format@),
{
    chrono::NaiveDateTime::parse_from_str(s, format).ok().map(|n| LocalDateTimeParts {
        year: n.year(),
        month: n.month(),
        day: n.day(),
        seconds: n.num_seconds_from_midnight(),
    })
}

/// `a` is not later than `b` on the local clock.
pub open spec fn not_later(a: LocalDateTimeParts, b: LocalDateTimeParts) -> bool {
    ||| a.year < b.year
    ||| a.year == b.year && a.month < b.month
    ||| a.year == b.year && a.month == b.month && a.day < b.day
    ||| a.year == b.year && a.month == b.month && a.day == b.day && a.seconds <= b.seconds
}

/// `not_later` orders moments as the calendar does: an earlier year comes
/// first whatever the month, day and time; within a year an earlier month;
/// within a month an earlier day; within a day the earlier time.
pub proof fn lemma_not_later_is_calendar_order(a: LocalDateTimeParts, b: LocalDateTimeParts)
    ensures
        a.year < b.year ==> not_later(a, b),
        a.year > b.year ==> !not_later(a, b),
        a.year == b.year && a.month < b.month ==> not_later(a, b),
        a.year == b.year && a.month > b.month ==> !not_later(a, b),
        a.year == b.year && a.month == b.month && a.day < b.day ==> not_later(a, b),
        a.year == b.year && a.month == b.month && a.day > b.day ==> !not_later(a, b),
        a.year == b.year && a.month == b.month && a.day == b.day ==> (not_later(a, b) <==> a.seconds <= b.seconds),
{
}

/// `not_later` is a total order: every moment is not later than itself, of
/// two moments one is not later than the other, two moments each not later
/// than the other are the same, and it chains.
pub proof fn lemma_not_later_total_order(a: LocalDateTimeParts, b: LocalDateTimeParts, c: LocalDateTimeParts)
    ensures
        not_later(a, a),
        not_later(a, b) || not_later(b, a),
        not_later(a, b) && not_later(b, a) ==> a == b,
        not_later(a, b) && not_later(b, c) ==> not_later(a, c),
{
}

fn not_later_exec(a: LocalDateTimeParts, b: LocalDateTimeParts) -> (r: bool)
    ensures
        r == not_later(a, b),
{
    a.year < b.year || (a.year == b.year && a.month < b.month)
        || (a.year == b.year && a.month == b.month && a.day < b.day)
        || (a.year == b.year && a.month == b.month && a.day == b.day && a.seconds <= b.seconds)
}

/// A reminder due between `from` and `to`, both included; one without a due
/// date, or with one that does not read, is not.
pub open spec fn spec_due_in_range(item: ReminderItemView, from: LocalDateTimeParts, to: LocalDateTimeParts) -> bool {
    match item.due_date {
        Some(d) => match naive_due_parts(d, due_date_format()) {
            Some(p) => not_later(from, p) && not_later(p, to),
            None => false,
        },
        None => false,
    }
}

/// A reminder whose due date falls in a year after `from`'s and before
/// `to`'s is in the range; one due in a year before `from`'s or after `to`'s
/// is not, whatever the month, day and time.
pub proof fn lemma_due_in_range_by_year(item: ReminderItemView, from: LocalDateTimeParts, to: LocalDateTimeParts, due: LocalDateTimeParts)
    requires
        item.due_date is Some,
        naive_due_parts(item.due_date->Some_0, due_date_format()) == Some(due),
    ensures
        from.year < due.year && due.year < to.year ==> spec_due_in_range(item, from, to),
        due.year < from.year || due.year > to.year ==> !spec_due_in_range(item, from, to),
{
}

/// Whether a reminder is due between `from` and `to`, both included.
pub fn reminder_due_in_range(item: &ReminderItem, from: LocalDateTimeParts, to: LocalDateTimeParts) -> (r: bool)
    ensures
        r == spec_due_in_range(item@, from, to),
{
    match &item.due_date {
        Some(d) => match parse_due_parts(d.as_str(), "%Y-%m-%dT%H:%M:%S") {
            Some(p) => not_later_exec(from, p) && not_later_exec(p, to),
            None => false,
        },
        None => false,
    }
}

/// The reminders due in the range, in order.
pub open spec fn due_in_range(items: Seq<ReminderItemView>, from: LocalDateTimeParts, to: LocalDateTimeParts) -> Seq<ReminderItemView>
    decreases items.len(),
{
    if items.len() == 0 {
        Seq::empty()
    } else {
        let r = due_in_range(items.drop_last(), from, to);
        if spec_due_in_range(items.last(), from, to) {
            r.push(items.last())
        } else {
            r
        }
    }
}

/// The reminders due between `from` and `to`, in order.
pub fn filter_due_in_range(items: Vec<ReminderItem>, from: LocalDateTimeParts, to: LocalDateTimeParts) -> (r: Vec<ReminderItem>)
    ensures
        reminder_views(r@) == due_in_range(reminder_views(items@), from, to),
{
    let ghost all = reminder_views(items@);
    let mut out: Vec<ReminderItem> = Vec::new();
    let mut rest = items;
    let ghost mut done: int = 0;
    while rest.len() > 0
        invariant
            0 <= done <= all.len(),
            reminder_views(rest@) == all.skip(done),
            reminder_views(out@) == due_in_range(all.take(done), from, to),
        decreases rest.len(),
    {
        let ghost old_rest = rest@;
        let item = rest.remove(0);
        proof {
            assert(reminder_views(old_rest).len() == old_rest.len());
            assert(all.skip(done).len() > 0);
            assert(reminder_views(old_rest)[0] == item@);
            assert(all.skip(done)[0] == all[done]);
            assert(rest@ =~= old_rest.drop_first());
            assert(reminder_views(rest@) =~= reminder_views(old_rest).drop_first());
            assert(all.skip(done).drop_first() =~= all.skip(done + 1));
            assert(reminder_views(rest@) =~= all.skip(done + 1));
            assert(all.take(done + 1).drop_last() =~= all.take(done));
            assert(all.take(done + 1).last() == all[done]);
        }
        if reminder_due_in_range(&item, from, to) {
            let ghost before = out@;
            out.push(item);
            assert(reminder_views(out@) =~= reminder_views(before).push(all[done]));
        }
        proof {
            done = done + 1;
        }
    }
    assert(all.take(done) =~= all);
    out
}

/// Every reminder listed is due in the range.
pub proof fn lemma_due_in_range_only_due(items: Seq<ReminderItemView>, from: LocalDateTimeParts, to: LocalDateTimeParts)
    ensures
        forall|i: int| 0 <= i < due_in_range(items, from, to).len() ==>
            spec_due_in_range(#[trigger] due_in_range(items, from, to)[i], from, to),
    decreases items.len(),
{
    if items.len() > 0 {
        lemma_due_in_range_only_due(items.drop_last(), from, to);
        let r = due_in_range(items.drop_last(), from, to);
        let all = due_in_range(items, from, to);
        assert forall|i: int| 0 <= i < all.len() implies spec_due_in_range(#[trigger] all[i], from, to) by {
            if i < r.len() {
                assert(all[i] == r[i]);
            }
        }
    }
}

/// Lists the reminders (of one list, when named) due between `from` and
/// `to`: those EventKit reports, filtered, when it can; else the due-range
/// AppleScript listing.
pub fn list_due_between<H: RemindersHost>(
    session: &mut Reminders<H>,
    from: LocalDateTimeParts,
    to: LocalDateTimeParts,
    list_filter: Option<&str>,
) -> (r: Result<Vec<ReminderItem>, MacosError>)
    ensures
        final(session).scripts@ == old(session).scripts@ ==> (r matches Ok(items) ==> forall|i: int|
            0 <= i < items@.len() ==> spec_due_in_range(#[trigger] items@[i]@, from, to)),
        listing_contract(
            old(session).eventkit@,
            final(session).eventkit@,
            old(session).scripts@,
            final(session).scripts@,
            opt_view(list_filter),
            spec_build_due_range_script(from, to, opt_view(list_filter)),
            |items: Seq<ReminderItemView>| due_in_range(items, from, to),
            |e: MacosErrorView| e,
            reminders_result(r),
        ),
        final(session).days == old(session).days,
        final(session).scripts@ == old(session).scripts@ || ({
            let after = final(session).scripts@;
            &&& after.len() == old(session).scripts@.len() + 1
            &&& after.drop_last() == old(session).scripts@
            &&& after.last().0 == spec_build_due_range_script(from, to, opt_view(list_filter))
            &&& reminders_result(r) == match after.last().1 {
                Ok(stdout) => Ok(spec_parse_reminders_output(stdout)),
                Err(e) => Err(e),
            }
        }),
{
    let listed = session.host.eventkit_list(list_filter);
    session.eventkit = Ghost(session.eventkit@.push((opt_view(list_filter), eventkit_view(listed))));
    assert(session.eventkit@.drop_last() =~= old(session).eventkit@);
    match listed {
        Ok(Some(items)) => {
            let kept = filter_due_in_range(items, from, to);
            proof {
                lemma_due_in_range_only_due(reminder_views(items@), from, to);
                assert forall|i: int| 0 <= i < kept@.len() implies spec_due_in_range(#[trigger] kept@[i]@, from, to) by {
                    assert(reminder_views(kept@)[i] == kept@[i]@);
                }
            }
            return Ok(kept);
        },
        Ok(None) => {},
        Err(e) => {
            return Err(e);
        },
    }
    let script = build_due_range_script(from, to, list_filter);
    let out = session.host.run_capture(script.as_str(), "list_reminders_due_between");
    session.scripts = Ghost(session.scripts@.push((script@, result_view(out))));
    assert(session.scripts@.drop_last() =~= old(session).scripts@);
    match out {
        Ok(stdout) => Ok(parse_reminders_output(stdout.as_str())),
        Err(e) => Err(e),
    }
}

/// What listing today's reminders answers for what the listing gave: its
/// other errors get the prefix `today_reminders: `.
pub open spec fn spec_today_error(e: MacosErrorView) -> MacosErrorView {
    match e {
        MacosErrorView::Other(m) => MacosErrorView::Other("today_reminders: "@ + m),
        other => other,
    }
}

/// Lists the reminders of all lists due today, from midnight to 23:59:59
/// local time.
pub fn today<H: RemindersHost>(session: &mut Reminders<H>) -> (r: Result<Vec<ReminderItem>, MacosError>)
    ensures
        final(session).scripts@ == old(session).scripts@ || ({
            let after = final(session).scripts@;
            &&& after.len() == old(session).scripts@.len() + 1
            &&& after.drop_last() == old(session).scripts@
            &&& exists|from: LocalDateTimeParts, to: LocalDateTimeParts|
                #[trigger] spec_build_due_range_script(from, to, None) == after.last().0
                    && from.seconds == 0 && to.seconds == 86399
                    && from.year == to.year && from.month == to.month && from.day == to.day
            &&& match after.last().1 {
                Ok(stdout) => reminders_result(r) == Ok::<Seq<ReminderItemView>, MacosErrorView>(spec_parse_reminders_output(stdout)),
                Err(e) => fails_with_error(r, spec_today_error(e)),
            }
        }),
        final(session).days@.len() == old(session).days@.len() + 1,
        final(session).days@.drop_last() == old(session).days@,
        ({
            let d = final(session).days@.last();
            &&& !d.3 ==> final(session).eventkit == old(session).eventkit && final(session).scripts == old(session).scripts
                && fails_with_error(r, MacosErrorView::Other("failed to determine start of today"@))
            &&& d.3 && !d.4 ==> final(session).eventkit == old(session).eventkit && final(session).scripts
                == old(session).scripts && fails_with_error(r, MacosErrorView::Other("failed to determine end of today"@))
            &&& d.3 && d.4 ==> listing_contract(
                old(session).eventkit@,
                final(session).eventkit@,
                old(session).scripts@,
                final(session).scripts@,
                None,
                spec_build_due_range_script(day_start(d), day_end(d), None),
                |items: Seq<ReminderItemView>| due_in_range(items, day_start(d), day_end(d)),
                |e: MacosErrorView| spec_today_error(e),
                reminders_result(r),
            )
        }),
{
    let day = session.host.local_today();
    session.days = Ghost(session.days@.push(day));
    assert(session.days@.drop_last() =~= old(session).days@);
    let (from, to) = match today_bounds(day) {
        Ok(b) => b,
        Err(e) => {
            return Err(e);
        },
    };
    match list_due_between(session, from, to, None) {
        Ok(items) => Ok(items),
        Err(MacosError::Other(m)) => {
            let mut msg = String::from_str("today_reminders: ");
            msg.append(m.as_str());
            Err(MacosError::Other(msg))
        },
        Err(e) => Err(e),
    }
}

/// `r` failed with the error `e`.
pub open spec fn fails_with_error<T>(r: Result<T, MacosError>, e: MacosErrorView) -> bool {
    r matches Err(x) && x@ == e
}

/// The first and last second of a local day, given what the clock tells of
/// them: the day itself, and whether its midnight and its 23:59:59 exist on
/// the local clock (a time-zone change can skip them).
pub fn today_bounds(day: (i32, u32, u32, bool, bool)) -> (r: Result<(LocalDateTimeParts, LocalDateTimeParts), MacosError>)
    ensures
        !day.3 ==> fails_with_error(r, MacosErrorView::Other("failed to determine start of today"@)),
        day.3 && !day.4 ==> fails_with_error(r, MacosErrorView::Other("failed to determine end of today"@)),
        day.3 && day.4 ==> r == Ok::<(LocalDateTimeParts, LocalDateTimeParts), MacosError>((
            LocalDateTimeParts { year: day.0, month: day.1, day: day.2, seconds: 0 },
            LocalDateTimeParts { year: day.0, month: day.1, day: day.2, seconds: 86399 },
        )),
{
    let (year, month, d, has_start, has_end) = day;
    if !has_start {
        return Err(MacosError::Other(String::from_str("failed to determine start of today")));
    }
    if !has_end {
        return Err(MacosError::Other(String::from_str("failed to determine end of today")));
    }
    Ok((
        LocalDateTimeParts { year, month, day: d, seconds: 0 },
        LocalDateTimeParts { year, month, day: d, seconds: 86399 },
    ))
}
} // verus!
