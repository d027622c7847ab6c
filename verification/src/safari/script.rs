//! Builders for the AppleScript programs that drive Safari, and parsers for the
//! records those programs print.
use vstd::prelude::*;

use crate::applescript::{
    body_expression, decode, decode_field_with, encode_field_steps, escape, escape_body,
    escape_js_string, lemma_decode_encode, lemma_encode_field_steps, plain_separator, quoted,
};
use crate::safari::types::{opt_view, SafariTab, SafariTabView};
use crate::text::{
    chars_of, ends_with, parse_i64, parse_i64_chars, parse_usize, parse_usize_chars, push_decimal,
    decimal, slice_chars, split, split_chars, trim, trim_chars, views, chars_eq, ends_with_exec,
};

verus! {

broadcast use vstd::string::group_string_axioms;

/// Separates the records that the tab-listing scripts print.
pub const TAB_SEPARATOR: &'static str = "---TAB_SEP---";

/// Separates the fields of one tab record.
pub const FIELD_SEPARATOR: &'static str = "<<<FIELD_SEP>>>";

/// The record separator, as characters.
pub open spec fn tab_sep() -> Seq<char> {
    seq!['-', '-', '-', 'T', 'A', 'B', '_', 'S', 'E', 'P', '-', '-', '-']
}

/// The field separator, as characters.
pub open spec fn field_sep() -> Seq<char> {
    seq!['<', '<', '<', 'F', 'I', 'E', 'L', 'D', '_', 'S', 'E', 'P', '>', '>', '>']
}

pub fn tab_sep_chars() -> (r: Vec<char>)
    ensures
        r@ == tab_sep(),
{
    let r = vec!['-', '-', '-', 'T', 'A', 'B', '_', 'S', 'E', 'P', '-', '-', '-'];
    assert(r@ =~= tab_sep());
    r
}

pub fn field_sep_chars() -> (r: Vec<char>)
    ensures
        r@ == field_sep(),
{
    let r = vec!['<', '<', '<', 'F', 'I', 'E', 'L', 'D', '_', 'S', 'E', 'P', '>', '>', '>'];
    assert(r@ =~= field_sep());
    r
}

/// Decodes one field of a tab record.
pub fn decode_field(value: &[char]) -> (r: String)
    ensures
        r@ == decode(value@, tab_sep()),
{
    let sep = tab_sep_chars();
    decode_field_with(value, sep.as_slice())
}

/// Decoding a field gives back any text that the scripts' `encode_field`
/// handler encoded.
pub proof fn lemma_decode_field_inverts_encode_field(s: Seq<char>)
    ensures
        decode(encode_field_steps(s, tab_sep()), tab_sep()) == s,
{
    assert(plain_separator(tab_sep()));
    lemma_encode_field_steps(s, tab_sep());
    lemma_decode_encode(s, tab_sep());
}

/// The AppleScript handlers every Safari script starts with.
pub open spec fn spec_safari_script_prelude() -> Seq<char> {
    r#"
        on replace_text(find_text, replace_text, source_text)
            set previous_delimiters to AppleScript's text item delimiters
            set AppleScript's text item delimiters to find_text
            set chunks to every text item of source_text
            set AppleScript's text item delimiters to replace_text
            set replaced_text to chunks as text
            set AppleScript's text item delimiters to previous_delimiters
            return replaced_text
        end replace_text

        on encode_field(source_text)
            if source_text is missing value then
                return ""
            end if
            set escaped_text to my replace_text("\\", "\\\\", source_text)
            set escaped_text to my replace_text(tab, "\\t", escaped_text)
            set escaped_text to my replace_text(return, "\\r", escaped_text)
            set escaped_text to my replace_text(linefeed, "\\n", escaped_text)
            set escaped_text to my replace_text(""#@ + "---TAB_SEP---"@ + r#"", "\\s", escaped_text)
            return escaped_text
        end encode_field
    "#@
}

/// The AppleScript handlers every Safari script starts with.
pub fn safari_script_prelude() -> (r: String)
    ensures
        r@ == spec_safari_script_prelude(),
{
    let mut s = String::new();
    s.append(r#"
        on replace_text(find_text, replace_text, source_text)
            set previous_delimiters to AppleScript's text item delimiters
            set AppleScript's text item delimiters to find_text
            set chunks to every text item of source_text
            set AppleScript's text item delimiters to replace_text
            set replaced_text to chunks as text
            set AppleScript's text item delimiters to previous_delimiters
            return replaced_text
        end replace_text

        on encode_field(source_text)
            if source_text is missing value then
                return ""
            end if
            set escaped_text to my replace_text("\\", "\\\\", source_text)
            set escaped_text to my replace_text(tab, "\\t", escaped_text)
            set escaped_text to my replace_text(return, "\\r", escaped_text)
            set escaped_text to my replace_text(linefeed, "\\n", escaped_text)
            set escaped_text to my replace_text(""#);
    s.append("---TAB_SEP---");
    s.append(r#"", "\\s", escaped_text)
            return escaped_text
        end encode_field
    "#);
    assert(s@ =~= spec_safari_script_prelude());
    s
}

/// Selects the window `w` to act on: the first whose name contains the profile,
/// or the front window.
pub open spec fn spec_target_window_block(profile_filter: Option<Seq<char>>) -> Seq<char> {
    match profile_filter {
        Some(p) => r#"set w to missing value
            repeat with candidate in every window
                if (name of candidate contains ""#@ + quoted(p) + r#"") then
                    set w to candidate
                    exit repeat
                end if
            end repeat
            if w is missing value then
                return ""
            end if"#@,
        None => "set w to front window"@,
    }
}

pub fn target_window_block(profile_filter: Option<&str>) -> (r: String)
    ensures
        r@ == spec_target_window_block(opt_view(profile_filter)),
{
    match profile_filter {
        Some(p) => {
            let mut s = String::new();
            s.append(r#"set w to missing value
            repeat with candidate in every window
                if (name of candidate contains ""#);
            let e = escape(p);
            s.append(e.as_str());
            s.append(r#"") then
                    set w to candidate
                    exit repeat
                end if
            end repeat
            if w is missing value then
                return ""
            end if"#);
            assert(s@ =~= spec_target_window_block(opt_view(profile_filter)));
            s
        },
        None => String::from_str("set w to front window"),
    }
}

/// Returns one tab of window `w` as a record.
pub open spec fn spec_build_tab_return_block(tab_ref: Seq<char>, active_flag: Seq<char>) -> Seq<char> {
    r"set winId to id of w
            set winName to my encode_field(name of w)
            set tabIndex to (index of "@ + tab_ref + r") - 1
            set tabTitle to my encode_field(name of "@ + tab_ref + r")
            set tabURL to my encode_field(URL of "@ + tab_ref + r#")
            return (winId as text) & ""#@ + "<<<FIELD_SEP>>>"@ + r#"" & winName & ""#@ + "<<<FIELD_SEP>>>"@ + r#"" & (tabIndex as text) & ""#@ + "<<<FIELD_SEP>>>"@ + r#"" & tabTitle & ""#@ + "<<<FIELD_SEP>>>"@ + r#"" & tabURL & ""#@ + "<<<FIELD_SEP>>>"@ + r#"" & ""#@ + active_flag + r#"""#@
}

/// Returns one tab of window `w` as a record.
pub fn build_tab_return_block(tab_ref: &str, active_flag: &str) -> (r: String)
    ensures
        r@ == spec_build_tab_return_block(tab_ref@, active_flag@),
{
    let mut s = String::new();
    s.append(r"set winId to id of w
            set winName to my encode_field(name of w)
            set tabIndex to (index of ");
    s.append(tab_ref);
    s.append(r") - 1
            set tabTitle to my encode_field(name of ");
    s.append(tab_ref);
    s.append(r")
            set tabURL to my encode_field(URL of ");
    s.append(tab_ref);
    s.append(r#")
            return (winId as text) & ""#);
    s.append("<<<FIELD_SEP>>>");
    s.append(r#"" & winName & ""#);
    s.append("<<<FIELD_SEP>>>");
    s.append(r#"" & (tabIndex as text) & ""#);
    s.append("<<<FIELD_SEP>>>");
    s.append(r#"" & tabTitle & ""#);
    s.append("<<<FIELD_SEP>>>");
    s.append(r#"" & tabURL & ""#);
    s.append("<<<FIELD_SEP>>>");
    s.append(r#"" & ""#);
    s.append(active_flag);
    s.append(r#"""#);
    assert(s@ =~= spec_build_tab_return_block(tab_ref@, active_flag@));
    s
}

/// Lists every tab of every window.
pub open spec fn spec_build_tabs_script() -> Seq<char> {
    r"
        "@ + spec_safari_script_prelude() + r#"
        tell application "Safari"
            set output to ""
            repeat with w in every window
                set winId to id of w
                set winName to my encode_field(name of w)
                set activeTabIndex to index of current tab of w
                repeat with t in tabs of w
                    set tabIndex to (index of t) - 1
                    set tabTitle to my encode_field(name of t)
                    set tabURL to my encode_field(URL of t)
                    if (index of t) is activeTabIndex then
                        set isActive to "true"
                    else
                        set isActive to "false"
                    end if
                    set output to output & (winId as text) & ""#@ + "<<<FIELD_SEP>>>"@ + r#"" & winName & ""#@ + "<<<FIELD_SEP>>>"@ + r#"" & (tabIndex as text) & ""#@ + "<<<FIELD_SEP>>>"@ + r#"" & tabTitle & ""#@ + "<<<FIELD_SEP>>>"@ + r#"" & tabURL & ""#@ + "<<<FIELD_SEP>>>"@ + r#"" & isActive & ""#@ + "---TAB_SEP---"@ + r#""
                end repeat
            end repeat
            return output
        end tell
    "#@
}

/// Lists every tab of every window.
pub fn build_tabs_script() -> (r: String)
    ensures
        r@ == spec_build_tabs_script(),
{
    let mut s = String::new();
    s.append(r"
        ");
    let p = safari_script_prelude();
    s.append(p.as_str());
    s.append(r#"
        tell application "Safari"
            set output to ""
            repeat with w in every window
                set winId to id of w
                set winName to my encode_field(name of w)
                set activeTabIndex to index of current tab of w
                repeat with t in tabs of w
                    set tabIndex to (index of t) - 1
                    set tabTitle to my encode_field(name of t)
                    set tabURL to my encode_field(URL of t)
                    if (index of t) is activeTabIndex then
                        set isActive to "true"
                    else
                        set isActive to "false"
                    end if
                    set output to output & (winId as text) & ""#);
    s.append("<<<FIELD_SEP>>>");
    s.append(r#"" & winName & ""#);
    s.append("<<<FIELD_SEP>>>");
    s.append(r#"" & (tabIndex as text) & ""#);
    s.append("<<<FIELD_SEP>>>");
    s.append(r#"" & tabTitle & ""#);
    s.append("<<<FIELD_SEP>>>");
    s.append(r#"" & tabURL & ""#);
    s.append("<<<FIELD_SEP>>>");
    s.append(r#"" & isActive & ""#);
    s.append("---TAB_SEP---");
    s.append(r#""
                end repeat
            end repeat
            return output
        end tell
    "#);
    assert(s@ =~= spec_build_tabs_script());
    s
}

/// Reports the current tab of the target window.
pub open spec fn spec_build_active_tab_script(profile_filter: Option<Seq<char>>) -> Seq<char> {
    r"
        "@ + spec_safari_script_prelude() + r#"
        tell application "Safari"
            if (count of windows) is 0 then
                return ""
            end if
            "#@ + spec_target_window_block(profile_filter) + r"
            set t to current tab of w
            "@ + spec_build_tab_return_block("t"@, "true"@) + r"
        end tell
    "@
}

/// Reports the current tab of the target window.
pub fn build_active_tab_script(profile_filter: Option<&str>) -> (r: String)
    ensures
        r@ == spec_build_active_tab_script(opt_view(profile_filter)),
{
    let mut s = String::new();
    s.append(r"
        ");
    let p = safari_script_prelude();
    s.append(p.as_str());
    s.append(r#"
        tell application "Safari"
            if (count of windows) is 0 then
                return ""
            end if
            "#);
    let tw = target_window_block(profile_filter);
    s.append(tw.as_str());
    s.append(r"
            set t to current tab of w
            ");
    let tr = build_tab_return_block("t", "true");
    s.append(tr.as_str());
    s.append(r"
        end tell
    ");
    assert(s@ =~= spec_build_active_tab_script(opt_view(profile_filter)));
    s
}

/// Runs `jsCode` in `target` within a bounded Apple Event timeout; a timeout is reported as `CUEWARD_JS_APPLE_EVENT_TIMEOUT`.
pub open spec fn spec_js_apple_event_command(target: Seq<char>) -> Seq<char> {
    r"with timeout of 15 seconds
                    try
                        set rawResult to do JavaScript jsCode in "@ + target + r#"
                    on error errMsg number errNum
                        if errNum is -1712 then error "CUEWARD_JS_APPLE_EVENT_TIMEOUT" number errNum
                        error errMsg number errNum
                    end try
                end timeout"#@
}

/// Runs `jsCode` in `target` within a bounded Apple Event timeout; a timeout is reported as `CUEWARD_JS_APPLE_EVENT_TIMEOUT`.
pub fn js_apple_event_command(target: &str) -> (r: String)
    ensures
        r@ == spec_js_apple_event_command(target@),
{
    let mut s = String::new();
    s.append(r"with timeout of 15 seconds
                    try
                        set rawResult to do JavaScript jsCode in ");
    s.append(target);
    s.append(r#"
                    on error errMsg number errNum
                        if errNum is -1712 then error "CUEWARD_JS_APPLE_EVENT_TIMEOUT" number errNum
                        error errMsg number errNum
                    end try
                end timeout"#);
    assert(s@ =~= spec_js_apple_event_command(target@));
    s
}

/// Runs JavaScript in the current tab of the target window and returns its encoded result.
pub open spec fn spec_build_exec_script_for_profile(js_code: Seq<char>, profile_filter: Option<Seq<char>>) -> Seq<char> {
    r"
        "@ + spec_safari_script_prelude() + r#"
        tell application "Safari"
            if (count of windows) is 0 then
                return ""
            end if
            "#@ + spec_target_window_block(profile_filter) + r"
            set targetTab to current tab of w
            set targetWindowId to (id of w) as text
            set targetTabIndex to ((index of targetTab) - 1) as text
            set jsCode to "@ + body_expression(js_code) + r"
            set rawResult to missing value
            try
                "@ + spec_js_apple_event_command("targetTab"@) + r#"
            on error errMsg number errNum
                if errMsg is "CUEWARD_JS_APPLE_EVENT_TIMEOUT" then error "CUEWARD_JS_APPLE_EVENT_TIMEOUT:" & targetWindowId & "|" & targetTabIndex number errNum
                error errMsg number errNum
            end try
            if rawResult is missing value then
                return ""
            end if
            set rawResult to rawResult as string
            return my encode_field(rawResult)
        end tell
    "#@
}

/// Runs JavaScript in the current tab of the target window and returns its encoded result.
pub fn build_exec_script_for_profile(js_code: &str, profile_filter: Option<&str>) -> (r: String)
    ensures
        r@ == spec_build_exec_script_for_profile(js_code@, opt_view(profile_filter)),
{
    let mut s = String::new();
    s.append(r"
        ");
    let p = safari_script_prelude();
    s.append(p.as_str());
    s.append(r#"
        tell application "Safari"
            if (count of windows) is 0 then
                return ""
            end if
            "#);
    let tw = target_window_block(profile_filter);
    s.append(tw.as_str());
    s.append(r"
            set targetTab to current tab of w
            set targetWindowId to (id of w) as text
            set targetTabIndex to ((index of targetTab) - 1) as text
            set jsCode to ");
    let js = escape_body(js_code);
    s.append(js.as_str());
    s.append(r"
            set rawResult to missing value
            try
                ");
    let cmd = js_apple_event_command("targetTab");
    s.append(cmd.as_str());
    s.append(r#"
            on error errMsg number errNum
                if errMsg is "CUEWARD_JS_APPLE_EVENT_TIMEOUT" then error "CUEWARD_JS_APPLE_EVENT_TIMEOUT:" & targetWindowId & "|" & targetTabIndex number errNum
                error errMsg number errNum
            end try
            if rawResult is missing value then
                return ""
            end if
            set rawResult to rawResult as string
            return my encode_field(rawResult)
        end tell
    "#);
    assert(s@ =~= spec_build_exec_script_for_profile(js_code@, opt_view(profile_filter)));
    s
}

/// Opens `url` in a new tab of the target window, or in a new window when none is open.
pub open spec fn spec_build_open_script(url: Seq<char>, profile_filter: Option<Seq<char>>) -> Seq<char> {
    r"
        "@ + spec_safari_script_prelude() + r#"
        tell application "Safari"
            if (count of windows) is 0 then
                make new document with properties {URL:""#@ + quoted(url) + r#""}
                set w to front window
            else
                "#@ + spec_target_window_block(profile_filter) + r#"
                set t to make new tab at end of tabs of w with properties {URL:""#@ + quoted(url) + r#""}
                set current tab of w to t
            end if
            delay 0.1
            set t to current tab of w
            "#@ + spec_build_tab_return_block("t"@, "true"@) + r"
        end tell
    "@
}

/// Opens `url` in a new tab of the target window, or in a new window when none is open.
pub fn build_open_script(url: &str, profile_filter: Option<&str>) -> (r: String)
    ensures
        r@ == spec_build_open_script(url@, opt_view(profile_filter)),
{
    let mut s = String::new();
    s.append(r"
        ");
    let p = safari_script_prelude();
    s.append(p.as_str());
    s.append(r#"
        tell application "Safari"
            if (count of windows) is 0 then
                make new document with properties {URL:""#);
    let u = escape(url);
    s.append(u.as_str());
    s.append(r#""}
                set w to front window
            else
                "#);
    let tw = target_window_block(profile_filter);
    s.append(tw.as_str());
    s.append(r#"
                set t to make new tab at end of tabs of w with properties {URL:""#);
    let u = escape(url);
    s.append(u.as_str());
    s.append(r#""}
                set current tab of w to t
            end if
            delay 0.1
            set t to current tab of w
            "#);
    let tr = build_tab_return_block("t", "true");
    s.append(tr.as_str());
    s.append(r"
        end tell
    ");
    assert(s@ =~= spec_build_open_script(url@, opt_view(profile_filter)));
    s
}

/// Selects the tab `t` to close: tab `index` (counted from 0) of the front
/// window, or its current tab.
pub open spec fn spec_close_target_block(index: Option<usize>) -> Seq<char> {
    match index {
        Some(i) => r"if "@ + decimal((i + 1) as nat) + r#" > (count of tabs of w) then
                    error "tab index out of range"
                end if
                set t to tab "#@ + decimal((i + 1) as nat) + r" of w"@,
        None => "set t to current tab of w"@,
    }
}

fn close_target_block(index: Option<usize>) -> (r: String)
    ensures
        r@ == spec_close_target_block(index),
{
    match index {
        Some(i) => {
            let mut s = String::new();
            s.append(r"if ");
            push_decimal(&mut s, i as u128 + 1);
            s.append(r#" > (count of tabs of w) then
                    error "tab index out of range"
                end if
                set t to tab "#);
            push_decimal(&mut s, i as u128 + 1);
            s.append(r" of w");
            assert(s@ =~= spec_close_target_block(index));
            s
        },
        None => String::from_str("set t to current tab of w"),
    }
}

pub open spec fn spec_build_close_script(index: Option<usize>) -> Seq<char> {
    r#"
        tell application "Safari"
            if (count of windows) is 0 then
                return "false"
            end if
            set w to front window
            "#@ + spec_close_target_block(index) + r#"
            close t
            return "true"
        end tell
    "#@
}

/// Closes tab `index` (counted from 0) of the front window, or its current tab.
pub fn build_close_script(index: Option<usize>) -> (r: String)
    ensures
        r@ == spec_build_close_script(index),
{
    let mut s = String::new();
    s.append(r#"
        tell application "Safari"
            if (count of windows) is 0 then
                return "false"
            end if
            set w to front window
            "#);
    let tb = close_target_block(index);
    s.append(tb.as_str());
    s.append(r#"
            close t
            return "true"
        end tell
    "#);
    assert(s@ =~= spec_build_close_script(index));
    s
}

/// Runs JavaScript in the current tab of the front window and returns its encoded result.
pub open spec fn spec_build_exec_script(js_code: Seq<char>) -> Seq<char> {
    r"
        "@ + spec_safari_script_prelude() + r#"
        tell application "Safari"
            if (count of windows) is 0 then
                return ""
            end if
            set jsCode to "#@ + body_expression(js_code) + r#"
            set rawResult to missing value
            try
                set rawResult to do JavaScript jsCode in current tab of front window
            on error errMsg number errNum
                error errMsg number errNum
            end try
            if rawResult is missing value then
                return ""
            end if
            set rawResult to rawResult as string
            return my encode_field(rawResult)
        end tell
    "#@
}

/// Runs JavaScript in the current tab of the front window and returns its encoded result.
pub fn build_exec_script(js_code: &str) -> (r: String)
    ensures
        r@ == spec_build_exec_script(js_code@),
{
    let mut s = String::new();
    s.append(r"
        ");
    let p = safari_script_prelude();
    s.append(p.as_str());
    s.append(r#"
        tell application "Safari"
            if (count of windows) is 0 then
                return ""
            end if
            set jsCode to "#);
    let js = escape_body(js_code);
    s.append(js.as_str());
    s.append(r#"
            set rawResult to missing value
            try
                set rawResult to do JavaScript jsCode in current tab of front window
            on error errMsg number errNum
                error errMsg number errNum
            end try
            if rawResult is missing value then
                return ""
            end if
            set rawResult to rawResult as string
            return my encode_field(rawResult)
        end tell
    "#);
    assert(s@ =~= spec_build_exec_script(js_code@));
    s
}

/// JavaScript that returns the trimmed text of the first element matching `selector`.
pub open spec fn spec_selector_text_js(selector: Seq<char>) -> Seq<char> {
    r#"(() => {
            const el = document.querySelector(""#@ + quoted(selector) + r#"");
            if (!el) throw new Error("selector not found");
            return (el.innerText ?? el.textContent ?? "").trim();
        })()"#@
}

/// JavaScript that returns the trimmed text of the first element matching `selector`.
pub fn selector_text_js(selector: &str) -> (r: String)
    ensures
        r@ == spec_selector_text_js(selector@),
{
    let mut s = String::new();
    s.append(r#"(() => {
            const el = document.querySelector(""#);
    let e = escape_js_string(selector);
    s.append(e.as_str());
    s.append(r#"");
            if (!el) throw new Error("selector not found");
            return (el.innerText ?? el.textContent ?? "").trim();
        })()"#);
    assert(s@ =~= spec_selector_text_js(selector@));
    s
}

/// JavaScript that tells whether an element matches `selector`.
pub open spec fn spec_selector_exists_js(selector: Seq<char>) -> Seq<char> {
    r#"(() => document.querySelector(""#@ + quoted(selector) + r#"") ? "true" : "false")()"#@
}

/// JavaScript that tells whether an element matches `selector`.
pub fn selector_exists_js(selector: &str) -> (r: String)
    ensures
        r@ == spec_selector_exists_js(selector@),
{
    let mut s = String::new();
    s.append(r#"(() => document.querySelector(""#);
    let e = escape_js_string(selector);
    s.append(e.as_str());
    s.append(r#"") ? "true" : "false")()"#);
    assert(s@ =~= spec_selector_exists_js(selector@));
    s
}


/// The profile name in a window title of the form `<profile> — <active tab title>`.
pub open spec fn spec_extract_profile(window_name: Seq<char>, active_tab_title: Seq<char>) -> Option<Seq<char>> {
    let suffix = " — "@ + active_tab_title;
    if ends_with(window_name, suffix) {
        let p = trim(window_name.take(window_name.len() - suffix.len()));
        if p.len() > 0 {
            Some(p)
        } else {
            None
        }
    } else {
        None
    }
}

pub fn extract_profile(window_name: &str, active_tab_title: &str) -> (r: Option<String>)
    ensures
        opt_string_view(r) == spec_extract_profile(window_name@, active_tab_title@),
{
    let mut suffix = String::from_str(" — ");
    suffix.append(active_tab_title);
    let name = chars_of(window_name);
    let suf = chars_of(suffix.as_str());
    if !ends_with_exec(name.as_slice(), suf.as_slice()) {
        return None;
    }
    let head = slice_chars(name.as_slice(), 0, name.len() - suf.len());
    assert(head@ =~= name@.take(name@.len() - suf@.len()));
    let p = trim_chars(head.as_slice());
    if p.len() > 0 {
        Some(crate::text::string_of(p.as_slice()))
    } else {
        None
    }
}

/// The view of an optional string.
pub open spec fn opt_string_view(o: Option<String>) -> Option<Seq<char>> {
    crate::safari::types::opt_string(o)
}

/// The tab a record line describes: six fields separated by `FIELD_SEPARATOR`,
/// namely window id, window name, tab index, title, URL and the active flag.
pub open spec fn spec_parse_tab_line(line: Seq<char>) -> Option<SafariTabView> {
    let parts = split(line, field_sep());
    if parts.len() != 6 {
        None
    } else {
        match (parse_i64(trim(parts[0])), parse_usize(trim(parts[2]))) {
            (Some(window_id), Some(index)) => Some(
                SafariTabView {
                    window_id,
                    window_name: decode(parts[1], tab_sep()),
                    profile: None,
                    index,
                    title: decode(parts[3], tab_sep()),
                    url: decode(parts[4], tab_sep()),
                    active: trim(parts[5]) == "true"@,
                },
            ),
            _ => None,
        }
    }
}

pub open spec fn opt_tab_view(t: Option<SafariTab>) -> Option<SafariTabView> {
    match t {
        Some(t) => Some(t@),
        None => None,
    }
}

pub fn parse_tab_line_chars(line: &[char]) -> (r: Option<SafariTab>)
    ensures
        opt_tab_view(r) == spec_parse_tab_line(line@),
{
    let sep = field_sep_chars();
    let parts = split_chars(line, sep.as_slice());
    let ghost pv = views(parts@);
    if parts.len() != 6 {
        return None;
    }
    assert(pv[0] == parts@[0]@ && pv[1] == parts@[1]@ && pv[2] == parts@[2]@);
    assert(pv[3] == parts@[3]@ && pv[4] == parts@[4]@ && pv[5] == parts@[5]@);
    let id_text = trim_chars(parts[0].as_slice());
    let window_id = match parse_i64_chars(id_text.as_slice()) {
        Some(v) => v,
        None => {
            return None;
        },
    };
    let index_text = trim_chars(parts[2].as_slice());
    let index = match parse_usize_chars(index_text.as_slice()) {
        Some(v) => v,
        None => {
            return None;
        },
    };
    let window_name = decode_field(parts[1].as_slice());
    let title = decode_field(parts[3].as_slice());
    let url = decode_field(parts[4].as_slice());
    let flag = trim_chars(parts[5].as_slice());
    let true_chars = chars_of("true");
    let active = chars_eq(flag.as_slice(), true_chars.as_slice());
    Some(SafariTab { window_id, window_name, profile: None, index, title, url, active })
}

/// Parses one tab record.
pub fn parse_tab_line(line: &str) -> (r: Option<SafariTab>)
    ensures
        opt_tab_view(r) == spec_parse_tab_line(line@),
{
    let v = chars_of(line);
    parse_tab_line_chars(v.as_slice())
}

/// The tabs described by the non-blank records among `lines`, in order.
pub open spec fn parsed_tabs(lines: Seq<Seq<char>>) -> Seq<SafariTabView>
    decreases lines.len(),
{
    if lines.len() == 0 {
        seq![]
    } else {
        let rest = parsed_tabs(lines.drop_last());
        let l = lines.last();
        if trim(l).len() == 0 {
            rest
        } else {
            match spec_parse_tab_line(l) {
                Some(t) => rest.push(t),
                None => rest,
            }
        }
    }
}

/// The profile of window `w`: taken from the last active tab of that window
/// whose window title names one.
pub open spec fn window_profile(tabs: Seq<SafariTabView>, w: i64) -> Option<Seq<char>>
    decreases tabs.len(),
{
    if tabs.len() == 0 {
        None
    } else {
        let t = tabs.last();
        if t.window_id == w && t.active && spec_extract_profile(t.window_name, t.title) is Some {
            spec_extract_profile(t.window_name, t.title)
        } else {
            window_profile(tabs.drop_last(), w)
        }
    }
}

/// A tab with its profile set from its window.
pub open spec fn with_window_profile(t: SafariTabView, tabs: Seq<SafariTabView>) -> SafariTabView {
    SafariTabView { profile: window_profile(tabs, t.window_id), ..t }
}

/// The tabs a tab-listing script printed, each with its window's profile.
pub open spec fn spec_parse_tabs_output(stdout: Seq<char>) -> Seq<SafariTabView> {
    let tabs = parsed_tabs(split(stdout, tab_sep()));
    tabs.map_values(|t: SafariTabView| with_window_profile(t, tabs))
}

fn window_profile_exec(tabs: &Vec<SafariTab>, w: i64) -> (r: Option<String>)
    ensures
        opt_string_view(r) == window_profile(crate::safari::types::tab_views(tabs@), w),
{
    let ghost tv = crate::safari::types::tab_views(tabs@);
    let mut i: usize = tabs.len();
    assert(tv.take(i as int) =~= tv);
    while i > 0
        invariant
            i <= tabs.len(),
            tv == crate::safari::types::tab_views(tabs@),
            window_profile(tv, w) == window_profile(tv.take(i as int), w),
        decreases i,
    {
        let t = &tabs[i - 1];
        proof {
            assert(tv.take(i as int).last() == t@);
            assert(tv.take(i as int).drop_last() =~= tv.take(i - 1));
        }
        if t.window_id == w && t.active {
            let p = extract_profile(t.window_name.as_str(), t.title.as_str());
            if p.is_some() {
                return p;
            }
        }
        i = i - 1;
    }
    None
}

/// Parses the output of the tab-listing script.
pub fn parse_tabs_output(stdout: &str) -> (r: Vec<SafariTab>)
    ensures
        crate::safari::types::tab_views(r@) == spec_parse_tabs_output(stdout@),
{
    let v = chars_of(stdout);
    let sep = tab_sep_chars();
    let lines = split_chars(v.as_slice(), sep.as_slice());
    let ghost lv = views(lines@);
    let mut tabs: Vec<SafariTab> = Vec::new();
    let mut i: usize = 0;
    while i < lines.len()
        invariant
            i <= lines.len(),
            lv == views(lines@),
            crate::safari::types::tab_views(tabs@) == parsed_tabs(lv.take(i as int)),
        decreases lines.len() - i,
    {
        let line = &lines[i];
        let ghost before = tabs@;
        proof {
            assert(lv.take(i + 1).drop_last() =~= lv.take(i as int));
            assert(lv.take(i + 1).last() == line@);
        }
        let t = trim_chars(line.as_slice());
        if t.len() > 0 {
            match parse_tab_line_chars(line.as_slice()) {
                Some(tab) => {
                    tabs.push(tab);
                    assert(crate::safari::types::tab_views(tabs@) =~= crate::safari::types::tab_views(
                        before,
                    ).push(tab@));
                },
                None => {},
            }
        }
        i = i + 1;
    }
    assert(lv.take(lines.len() as int) =~= lv);
    let ghost all = crate::safari::types::tab_views(tabs@);
    let mut result: Vec<SafariTab> = Vec::new();
    let mut j: usize = 0;
    while j < tabs.len()
        invariant
            j <= tabs.len(),
            all == crate::safari::types::tab_views(tabs@),
            crate::safari::types::tab_views(result@) == all.take(j as int).map_values(
                |t: SafariTabView| with_window_profile(t, all),
            ),
        decreases tabs.len() - j,
    {
        let profile = window_profile_exec(&tabs, tabs[j].window_id);
        let tab = SafariTab {
            window_id: tabs[j].window_id,
            window_name: tabs[j].window_name.clone(),
            profile,
            index: tabs[j].index,
            title: tabs[j].title.clone(),
            url: tabs[j].url.clone(),
            active: tabs[j].active,
        };
        let ghost before = result@;
        proof {
            assert(all[j as int] == tabs@[j as int]@);
            assert(tab@ == with_window_profile(all[j as int], all));
        }
        result.push(tab);
        proof {
            assert(result@ =~= before.push(tab));
            assert(crate::safari::types::tab_views(result@) =~= crate::safari::types::tab_views(before).push(tab@));
            assert(all.take(j + 1).map_values(|t: SafariTabView| with_window_profile(t, all)) =~= all.take(j as int).map_values(|t: SafariTabView| with_window_profile(t, all)).push(with_window_profile(all[j as int], all)));
            assert(crate::safari::types::tab_views(result@) =~= all.take(j + 1).map_values(
                |t: SafariTabView| with_window_profile(t, all),
            ));
        }
        j = j + 1;
    }
    assert(all.take(tabs.len() as int) =~= all);
    result
}

} // verus!
