//! Choosing the tab an operation acts on, and the script that runs JavaScript in
//! exactly that tab.
use vstd::prelude::*;

use crate::applescript::{body_expression, escape, escape_body, quoted};
use crate::error::{MacosError, MacosErrorView};
use crate::safari::script::{spec_js_apple_event_command, spec_safari_script_prelude, js_apple_event_command, safari_script_prelude};
use crate::safari::types::{tab_views, SafariTab, SafariTabView};
use crate::text::{
    chars_of, contains, contains_exec, contains_str, parse_usize, parse_usize_chars, push_decimal, push_signed_decimal, decimal, signed_decimal,
};

verus! {

broadcast use vstd::string::group_string_axioms;

/// Unicode lower-casing of a text, as `str::to_lowercase` does it.
pub uninterp spec fn lowercase(s: Seq<char>) -> Seq<char>;

/// Calls `str::to_lowercase`; the contract names its result.
#[verifier::external_body]
pub fn to_lowercase(s: &str) -> (r: String)
    ensures
        r@ == lowercase(s@),
{
    s.to_lowercase()
}

/// Whether a tab's URL or title contains the lower-cased query.
pub open spec fn tab_matches(t: SafariTabView, query: Seq<char>) -> bool {
    contains(lowercase(t.url), query) || contains(lowercase(t.title), query)
}

/// The tabs that match the query, in order.
pub open spec fn matching_tabs(tabs: Seq<SafariTabView>, query: Seq<char>) -> Seq<SafariTabView>
    decreases tabs.len(),
{
    if tabs.len() == 0 {
        seq![]
    } else {
        let r = matching_tabs(tabs.drop_last(), query);
        if tab_matches(tabs.last(), query) {
            r.push(tabs.last())
        } else {
            r
        }
    }
}

pub open spec fn no_tab_message(selector: Seq<char>) -> Seq<char> {
    "no tab matching '"@ + selector + "'"@
}

pub open spec fn ambiguous_tab_message(selector: Seq<char>) -> Seq<char> {
    "tab selector is ambiguous: '"@ + selector + "'; use a unique URL/title or numeric --tab index"@
}

/// The tab a selector picks: a number is an index into the list; any other text
/// must match exactly one tab by URL or title, ignoring case.
pub open spec fn spec_select_tab(tabs: Seq<SafariTabView>, selector: Seq<char>) -> Result<SafariTabView, MacosErrorView> {
    match parse_usize(selector) {
        Some(i) => if i < tabs.len() {
            Ok(tabs[i as int])
        } else {
            Err(MacosErrorView::Other(no_tab_message(selector)))
        },
        None => {
            let m = matching_tabs(tabs, lowercase(selector));
            if m.len() == 0 {
                Err(MacosErrorView::Other(no_tab_message(selector)))
            } else if m.len() == 1 {
                Ok(m[0])
            } else {
                Err(MacosErrorView::Other(ambiguous_tab_message(selector)))
            }
        },
    }
}

fn tab_matches_exec(t: &SafariTab, query: &[char]) -> (r: bool)
    ensures
        r == tab_matches(t@, query@),
{
    let url = to_lowercase(t.url.as_str());
    let title = to_lowercase(t.title.as_str());
    let u = chars_of(url.as_str());
    let ti = chars_of(title.as_str());
    contains_exec(u.as_slice(), query) || contains_exec(ti.as_slice(), query)
}

fn no_tab_error(selector: &str) -> (e: MacosError)
    ensures
        e@ == MacosErrorView::Other(no_tab_message(selector@)),
{
    let mut s = String::from_str("no tab matching '");
    s.append(selector);
    s.append("'");
    MacosError::Other(s)
}

/// Picks the tab a selector names.
pub fn select_tab(all_tabs: Vec<SafariTab>, selector: &str) -> (r: Result<SafariTab, MacosError>)
    ensures
        crate::error::result_view(r) == spec_select_tab(tab_views(all_tabs@), selector@),
{
    let sel = chars_of(selector);
    let ghost tv = tab_views(all_tabs@);
    match parse_usize_chars(sel.as_slice()) {
        Some(index) => {
            if index < all_tabs.len() {
                let mut tabs = all_tabs;
                assert(tv[index as int] == tabs@[index as int]@);
                return Ok(tabs.swap_remove(index));
            }
            return Err(no_tab_error(selector));
        },
        None => {},
    }
    let lowered = to_lowercase(selector);
    let query = chars_of(lowered.as_str());
    let mut first: Option<usize> = None;
    let mut count: usize = 0;
    let mut i: usize = 0;
    while i < all_tabs.len()
        invariant
            i <= all_tabs.len(),
            tv == tab_views(all_tabs@),
            query@ == lowercase(selector@),
            count == matching_tabs(tv.take(i as int), query@).len(),
            count <= i,
            count > 0 ==> (first matches Some(f) && f < all_tabs.len() && matching_tabs(tv.take(i as int), query@)[0] == tv[f as int]),
            count == 0 ==> first is None,
        decreases all_tabs.len() - i,
    {
        let ghost prev = matching_tabs(tv.take(i as int), query@);
        proof {
            assert(tv.take(i + 1).drop_last() =~= tv.take(i as int));
            assert(tv.take(i + 1).last() == tv[i as int]);
            assert(tv[i as int] == all_tabs@[i as int]@);
        }
        if tab_matches_exec(&all_tabs[i], query.as_slice()) {
            if count == 0 {
                first = Some(i);
            }
            proof {
                let now = matching_tabs(tv.take(i + 1), query@);
                assert(now == prev.push(tv[i as int]));
                if count > 0 {
                    assert(now[0] == prev[0]);
                }
            }
            count = count + 1;
        }
        i = i + 1;
    }
    assert(tv.take(all_tabs.len() as int) =~= tv);
    if count == 0 {
        return Err(no_tab_error(selector));
    }
    if count > 1 {
        let mut s = String::from_str("tab selector is ambiguous: '");
        s.append(selector);
        s.append("'; use a unique URL/title or numeric --tab index");
        return Err(MacosError::Other(s));
    }
    match first {
        Some(f) => {
            let mut tabs = all_tabs;
            assert(tv[f as int] == tabs@[f as int]@);
            Ok(tabs.swap_remove(f))
        },
        None => Err(no_tab_error(selector)),
    }
}

/// Fails unless the target tab still shows the same URL and title, case included.
pub open spec fn spec_tab_metadata_guard(tab: SafariTabView) -> Seq<char> {
    r#"set targetURL to URL of targetTab
              if targetURL is missing value then set targetURL to ""
              set targetTitle to name of targetTab
              if targetTitle is missing value then set targetTitle to ""
              considering case
                if targetURL is not ""#@ + quoted(tab.url) + r#"" then error "target tab changed; list tabs and retry"
                if targetTitle is not ""#@ + quoted(tab.title) + r#"" then error "target tab changed; list tabs and retry"
              end considering"#@
}

/// Fails unless the target tab still shows the same URL and title, case included.
pub fn tab_metadata_guard(tab: &SafariTab) -> (r: String)
    ensures
        r@ == spec_tab_metadata_guard(tab@),
{
    let mut s = String::new();
    s.append(r#"set targetURL to URL of targetTab
              if targetURL is missing value then set targetURL to ""
              set targetTitle to name of targetTab
              if targetTitle is missing value then set targetTitle to ""
              considering case
                if targetURL is not ""#);
    let u = escape(tab.url.as_str());
    s.append(u.as_str());
    s.append(r#"" then error "target tab changed; list tabs and retry"
                if targetTitle is not ""#);
    let t = escape(tab.title.as_str());
    s.append(t.as_str());
    s.append(r#"" then error "target tab changed; list tabs and retry"
              end considering"#);
    assert(s@ =~= spec_tab_metadata_guard(tab@));
    s
}

/// Selects `targetTab`, the tab at the recorded index of window `w`, and checks that it is still the recorded tab.
pub open spec fn spec_tab_identity_guard(tab: SafariTabView) -> Seq<char> {
    r"if (count of tabs of w) < "@ + decimal((tab.index + 1) as nat) + r#" then error "target tab closed"
              set targetTab to tab "#@ + decimal((tab.index + 1) as nat) + r" of w
              "@ + spec_tab_metadata_guard(tab)
}

/// Selects `targetTab`, the tab at the recorded index of window `w`, and checks that it is still the recorded tab.
pub fn tab_identity_guard(tab: &SafariTab) -> (r: String)
    ensures
        r@ == spec_tab_identity_guard(tab@),
{
    let mut s = String::new();
    s.append(r"if (count of tabs of w) < ");
    push_decimal(&mut s, tab.index as u128 + 1);
    s.append(r#" then error "target tab closed"
              set targetTab to tab "#);
    push_decimal(&mut s, tab.index as u128 + 1);
    s.append(r" of w
              ");
    let g = tab_metadata_guard(tab);
    s.append(g.as_str());
    assert(s@ =~= spec_tab_identity_guard(tab@));
    s
}

/// Runs JavaScript in the recorded tab after checking that it is still that tab, and returns the encoded result.
pub open spec fn spec_build_tab_js_script(js_code: Seq<char>, tab: SafariTabView) -> Seq<char> {
    r"
        "@ + spec_safari_script_prelude() + r#"
        tell application "Safari"
          repeat with w in every window
            if (id of w) is "#@ + signed_decimal(tab.window_id as int) + r" then
              "@ + spec_tab_identity_guard(tab) + r"
              set jsCode to "@ + body_expression(js_code) + r"
              "@ + spec_js_apple_event_command("targetTab"@) + r#"
              if rawResult is missing value then error "JavaScript did not return a string"
              return my encode_field(rawResult as string)
            end if
          end repeat
          error "target window closed"
        end tell
        "#@
}

/// Runs JavaScript in the recorded tab after checking that it is still that tab, and returns the encoded result.
pub fn build_tab_js_script(js_code: &str, tab: &SafariTab) -> (r: String)
    ensures
        r@ == spec_build_tab_js_script(js_code@, tab@),
{
    let mut s = String::new();
    s.append(r"
        ");
    let p = safari_script_prelude();
    s.append(p.as_str());
    s.append(r#"
        tell application "Safari"
          repeat with w in every window
            if (id of w) is "#);
    push_signed_decimal(&mut s, tab.window_id);
    s.append(r" then
              ");
    let g = tab_identity_guard(tab);
    s.append(g.as_str());
    s.append(r"
              set jsCode to ");
    let js = escape_body(js_code);
    s.append(js.as_str());
    s.append(r"
              ");
    let cmd = js_apple_event_command("targetTab");
    s.append(cmd.as_str());
    s.append(r#"
              if rawResult is missing value then error "JavaScript did not return a string"
              return my encode_field(rawResult as string)
            end if
          end repeat
          error "target window closed"
        end tell
        "#);
    assert(s@ =~= spec_build_tab_js_script(js_code@, tab@));
    s
}


/// The message for a JavaScript call that timed out in the tab `identity`.
pub open spec fn js_timeout_message(identity: Seq<char>) -> Seq<char> {
    "JavaScript in Safari "@ + identity + " did not answer within 15 seconds"@
}

pub open spec fn spec_map_js_timeout(error: MacosErrorView, identity: Seq<char>) -> MacosErrorView {
    match error {
        MacosErrorView::Other(m) => if contains(m, "CUEWARD_JS_APPLE_EVENT_TIMEOUT"@) {
            MacosErrorView::Other(js_timeout_message(identity))
        } else {
            error
        },
        _ => error,
    }
}

/// Turns the timeout marker the scripts raise into a readable error.
pub fn map_js_timeout(error: MacosError, identity: &str) -> (r: MacosError)
    ensures
        r@ == spec_map_js_timeout(error@, identity@),
{
    match error {
        MacosError::Other(m) => {
            let v = chars_of(m.as_str());
            if contains_str(v.as_slice(), "CUEWARD_JS_APPLE_EVENT_TIMEOUT") {
                let mut s = String::from_str("JavaScript in Safari ");
                s.append(identity);
                s.append(" did not answer within 15 seconds");
                MacosError::Other(s)
            } else {
                MacosError::Other(m)
            }
        },
        other => other,
    }
}

} // verus!
