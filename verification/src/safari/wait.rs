//! Waiting in a tab until a condition holds: the conditions, the JavaScript
//! that checks one, and the reading of its reply.
use vstd::prelude::*;

use crate::error::{MacosError, MacosErrorView};
use crate::json::{json_quote, json_string};
use crate::text::{chars_eq, chars_of, starts_with, starts_with_exec};

verus! {

broadcast use vstd::string::group_string_axioms;

/// A condition to poll in one Safari tab.
#[derive(Debug, Clone, PartialEq, Eq)]
pub enum WaitCondition {
    SelectorPresent(String),
    SelectorAbsent(String),
    Text(String),
    JavaScript(String),
    UrlContains(String),
    Navigation,
}

/// Where the tab was when waiting for a navigation began: its URL and the
/// page's time origin, as the JavaScript number text that names it.
#[derive(Debug, Clone, PartialEq, Eq)]
pub struct NavigationStart {
    pub url: String,
    pub origin: String,
}

/// The name of a condition, as messages give it.
pub open spec fn spec_condition_name(c: WaitCondition) -> Seq<char> {
    match c {
        WaitCondition::SelectorPresent(_) => "selector-present"@,
        WaitCondition::SelectorAbsent(_) => "selector-absent"@,
        WaitCondition::Text(_) => "text"@,
        WaitCondition::JavaScript(_) => "javascript"@,
        WaitCondition::UrlContains(_) => "url-contains"@,
        WaitCondition::Navigation => "navigation"@,
    }
}

/// The selector a condition is about, if any.
pub open spec fn spec_condition_selector(c: WaitCondition) -> Option<Seq<char>> {
    match c {
        WaitCondition::SelectorPresent(s) => Some(s@),
        WaitCondition::SelectorAbsent(s) => Some(s@),
        _ => None,
    }
}

/// The JavaScript expression that is true when the condition holds.
pub open spec fn spec_predicate(c: WaitCondition, start: Option<NavigationStart>) -> Result<Seq<char>, MacosErrorView> {
    match c {
        WaitCondition::SelectorPresent(s) => Ok("Boolean(document.querySelector("@ + json_quote(s@) + "))"@),
        WaitCondition::SelectorAbsent(s) => Ok("!document.querySelector("@ + json_quote(s@) + ")"@),
        WaitCondition::Text(t) => Ok("(document.body?.innerText || '').includes("@ + json_quote(t@) + ")"@),
        WaitCondition::JavaScript(code) => Ok(spec_sync_condition_js(code@)),
        WaitCondition::UrlContains(u) => Ok("location.href.includes("@ + json_quote(u@) + ")"@),
        WaitCondition::Navigation => match start {
            None => Err(MacosErrorView::Other("navigation start state missing"@)),
            Some(st) => Ok("(location.href !== "@ + json_quote(st.url@) + " || performance.timeOrigin !== "@ + st.origin@
                + ") && document.readyState === 'complete'"@),
        },
    }
}

/// A user's condition, evaluated synchronously and turned into a boolean.
pub open spec fn spec_sync_condition_js(code: Seq<char>) -> Seq<char> {
    r"(() => { const value = ("@ + code + r"); if (value?.then) throw new Error('wait --js requires a synchronous condition'); return Boolean(value); })()"@
}

/// The check script around a predicate: it prints `true`, `false`, or
/// `error:` and the message.
pub open spec fn spec_check_script(predicate: Seq<char>) -> Seq<char> {
    r"(() => {
              try { return ("@ + predicate + r") ? 'true' : 'false'; }
              catch (error) { return 'error:' + String(error?.message || error); }
            })()"@
}

/// The check script of a condition.
pub open spec fn spec_check_js(c: WaitCondition, start: Option<NavigationStart>) -> Result<Seq<char>, MacosErrorView> {
    match spec_predicate(c, start) {
        Ok(p) => Ok(spec_check_script(p)),
        Err(e) => Err(e),
    }
}

fn wrap_literal(prefix: &str, text: &str, suffix: &str) -> (r: String)
    ensures
        r@ == prefix@ + json_quote(text@) + suffix@,
{
    let mut s = String::from_str(prefix);
    let q = json_string(text);
    s.append(q.as_str());
    s.append(suffix);
    s
}

fn check_script(predicate: String) -> (r: String)
    ensures
        r@ == spec_check_script(predicate@),
{
    let mut s = String::new();
    s.append(r"(() => {
              try { return (");
    s.append(predicate.as_str());
    s.append(r") ? 'true' : 'false'; }
              catch (error) { return 'error:' + String(error?.message || error); }
            })()");
    assert(s@ =~= spec_check_script(predicate@));
    s
}

impl WaitCondition {
    /// The condition's name.
    pub fn name(&self) -> (r: &'static str)
        ensures
            r@ == spec_condition_name(*self),
    {
        match self {
            WaitCondition::SelectorPresent(_) => "selector-present",
            WaitCondition::SelectorAbsent(_) => "selector-absent",
            WaitCondition::Text(_) => "text",
            WaitCondition::JavaScript(_) => "javascript",
            WaitCondition::UrlContains(_) => "url-contains",
            WaitCondition::Navigation => "navigation",
        }
    }

    /// The selector the condition is about, if any.
    pub fn selector(&self) -> (r: Option<String>)
        ensures
            crate::safari::types::opt_string(r) == spec_condition_selector(*self),
    {
        match self {
            WaitCondition::SelectorPresent(s) => Some(s.clone()),
            WaitCondition::SelectorAbsent(s) => Some(s.clone()),
            _ => None,
        }
    }

    /// The script that checks the condition once; a navigation is measured
    /// from `navigation_start`.
    pub fn check_js(&self, navigation_start: Option<&NavigationStart>) -> (r: Result<String, MacosError>)
        ensures
            crate::error::result_view(r) == spec_check_js(*self, match navigation_start {
                Some(n) => Some(*n),
                None => None,
            }),
    {
        let predicate = match self {
            WaitCondition::SelectorPresent(s) => wrap_literal("Boolean(document.querySelector(", s.as_str(), "))"),
            WaitCondition::SelectorAbsent(s) => wrap_literal("!document.querySelector(", s.as_str(), ")"),
            WaitCondition::Text(t) => wrap_literal("(document.body?.innerText || '').includes(", t.as_str(), ")"),
            WaitCondition::JavaScript(code) => {
                let mut s = String::new();
                s.append(r"(() => { const value = (");
                s.append(code.as_str());
                s.append(r"); if (value?.then) throw new Error('wait --js requires a synchronous condition'); return Boolean(value); })()");
                assert(s@ =~= spec_sync_condition_js(code@));
                s
            },
            WaitCondition::UrlContains(u) => wrap_literal("location.href.includes(", u.as_str(), ")"),
            WaitCondition::Navigation => match navigation_start {
                None => {
                    return Err(MacosError::Other(String::from_str("navigation start state missing")));
                },
                Some(st) => {
                    let mut s = wrap_literal("(location.href !== ", st.url.as_str(), " || performance.timeOrigin !== ");
                    s.append(st.origin.as_str());
                    s.append(") && document.readyState === 'complete'");
                    s
                },
            },
        };
        Ok(check_script(predicate))
    }
}

/// What one reply of a check script means: the condition holds (`Some(true)`),
/// does not yet (`Some(false)`), or an error.
pub open spec fn spec_wait_reply(reply: Seq<char>) -> Result<bool, MacosErrorView> {
    if reply == "true"@ {
        Ok(true)
    } else if reply == "false"@ {
        Ok(false)
    } else if starts_with(reply, "error:"@) {
        Err(MacosErrorView::Other(reply))
    } else {
        Err(MacosErrorView::Other("invalid Safari wait response: "@ + reply))
    }
}

/// Reads one reply of a check script.
pub fn wait_reply(reply: &str) -> (r: Result<bool, MacosError>)
    ensures
        match r {
            Ok(b) => spec_wait_reply(reply@) == Ok::<bool, MacosErrorView>(b),
            Err(e) => spec_wait_reply(reply@) == Err::<bool, MacosErrorView>(e@),
        },
{
    let v = chars_of(reply);
    if chars_eq(v.as_slice(), chars_of("true").as_slice()) {
        Ok(true)
    } else if chars_eq(v.as_slice(), chars_of("false").as_slice()) {
        Ok(false)
    } else if starts_with_exec(v.as_slice(), chars_of("error:").as_slice()) {
        Err(MacosError::Other(String::from_str(reply)))
    } else {
        let mut m = String::from_str("invalid Safari wait response: ");
        m.append(reply);
        Err(MacosError::Other(m))
    }
}

} // verus!
