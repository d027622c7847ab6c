//! Apple Notes notes and macOS notifications: the AppleScript programs that
//! make them, and what their runs answer.
use vstd::prelude::*;

use crate::error::{result_view, MacosError, MacosErrorView};
use crate::text::{replace_all, replace_str};

verus! {

broadcast use vstd::string::group_string_axioms;

/// Text with each double quote preceded by a backslash.
pub open spec fn quote_escaped(s: Seq<char>) -> Seq<char> {
    replace_all(s, "\""@, "\\\""@)
}

/// A note body: double quotes escaped, and line breaks written as `\n`.
pub open spec fn body_escaped(s: Seq<char>) -> Seq<char> {
    replace_all(quote_escaped(s), "\n"@, "\\n"@)
}

fn escape_quotes(s: &str) -> (r: String)
    ensures
        r@ == quote_escaped(s@),
{
    proof {
        reveal_strlit("\"");
    }
    replace_str(s, "\"", "\\\"")
}

/// The program that makes a note titled `title` with `body` in the Notes
/// folder `folder`, making the folder first when there is none.
pub open spec fn spec_note_script(title: Seq<char>, body: Seq<char>, folder: Seq<char>) -> Seq<char> {
    "\n        tell application \"Notes\"\n            try\n                set targetFolder to folder \""@ + folder
        + "\"\n            on error\n                make new folder with properties {name:\""@ + folder
        + "\"}\n                set targetFolder to folder \""@ + folder
        + "\"\n            end try\n            make new note at targetFolder with properties {name:\""@ + quote_escaped(title)
        + "\", body:\""@ + body_escaped(body) + "\"}\n        end tell\n        "@
}

/// The program that makes a note.
pub fn note_script(title: &str, body: &str, folder: &str) -> (r: String)
    ensures
        r@ == spec_note_script(title@, body@, folder@),
{
    let t = escape_quotes(title);
    let b0 = escape_quotes(body);
    proof {
        reveal_strlit("\n");
    }
    let b = replace_str(b0.as_str(), "\n", "\\n");
    let mut s = String::from_str("\n        tell application \"Notes\"\n            try\n                set targetFolder to folder \"");
    s.append(folder);
    s.append("\"\n            on error\n                make new folder with properties {name:\"");
    s.append(folder);
    s.append("\"}\n                set targetFolder to folder \"");
    s.append(folder);
    s.append("\"\n            end try\n            make new note at targetFolder with properties {name:\"");
    s.append(t.as_str());
    s.append("\", body:\"");
    s.append(b.as_str());
    s.append("\"}\n        end tell\n        ");
    s
}

/// The program that shows a notification with `title` and `message`.
pub open spec fn spec_notification_script(title: Seq<char>, message: Seq<char>) -> Seq<char> {
    "display notification \""@ + quote_escaped(message) + "\" with title \""@ + quote_escaped(title) + "\""@
}

/// The program that shows a notification.
pub fn notification_script(title: &str, message: &str) -> (r: String)
    ensures
        r@ == spec_notification_script(title@, message@),
{
    let t = escape_quotes(title);
    let m = escape_quotes(message);
    let mut s = String::from_str("display notification \"");
    s.append(m.as_str());
    s.append("\" with title \"");
    s.append(t.as_str());
    s.append("\"");
    s
}

/// What a run of `osascript` answers: it could not start (the reason), or it
/// ran and succeeded or failed (with its error output); failures are reported
/// as a denied permission, the failed run's message after `failure`.
pub open spec fn spec_run_outcome(run: Result<(bool, Seq<char>), Seq<char>>, failure: Seq<char>) -> Result<(), MacosErrorView> {
    match run {
        Err(e) => Err(MacosErrorView::PermissionDenied("osascript: "@ + e)),
        Ok((true, _)) => Ok(()),
        Ok((false, stderr)) => Err(MacosErrorView::PermissionDenied(failure + stderr)),
    }
}

/// The view of a run.
pub open spec fn run_view(run: Result<(bool, String), String>) -> Result<(bool, Seq<char>), Seq<char>> {
    match run {
        Ok((ok, stderr)) => Ok((ok, stderr@)),
        Err(e) => Err(e@),
    }
}

/// What a run of `osascript` answers.
pub fn run_outcome(run: Result<(bool, String), String>, failure: &str) -> (r: Result<(), MacosError>)
    ensures
        result_view(r) == spec_run_outcome(run_view(run), failure@),
{
    match run {
        Err(e) => {
            let mut m = String::from_str("osascript: ");
            m.append(e.as_str());
            Err(MacosError::PermissionDenied(m))
        },
        Ok((true, _)) => Ok(()),
        Ok((false, stderr)) => {
            let mut m = String::from_str(failure);
            m.append(stderr.as_str());
            Err(MacosError::PermissionDenied(m))
        },
    }
}

/// What making a note answers, given the run of its program.
pub fn note_outcome(run: Result<(bool, String), String>) -> (r: Result<(), MacosError>)
    ensures
        result_view(r) == spec_run_outcome(run_view(run), "failed to create note: "@),
{
    run_outcome(run, "failed to create note: ")
}

/// What showing a notification answers, given the run of its program.
pub fn notification_outcome(run: Result<(bool, String), String>) -> (r: Result<(), MacosError>)
    ensures
        result_view(r) == spec_run_outcome(run_view(run), "notification failed: "@),
{
    run_outcome(run, "notification failed: ")
}

} // verus!
