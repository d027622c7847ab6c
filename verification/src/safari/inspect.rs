//! An outline of the page with short-lived element references, and a batch
//! of element actions run in one script.
use vstd::prelude::*;

use crate::error::{result_view, MacosError, MacosErrorView};
use crate::json::{json_array_len, json_array_length, json_quote, json_string};
use crate::safari::eval::{json_reparse, reparse_json};
use crate::safari::interaction::RUNTIME;
use crate::safari::ops::{fails_with, js_in_target, tab_js_result, tab_js_runs, Safari, SafariHost};
use crate::safari::types::opt_view;
use crate::text::{decimal, push_decimal};

verus! {

broadcast use vstd::string::group_string_axioms;

/// The script that outlines the page: up to `limit` visible elements that are
/// interactive or hold text of their own, each with a reference
/// `snapshot:n` that later actions can name.
pub open spec fn spec_inspect_js(limit: usize, snapshot: Seq<char>) -> Seq<char> {
    r#"(() => {
          "#@ + RUNTIME@ + r#"
          const state = {snapshot: "#@ + json_quote(snapshot)
        + r#", nodes: new Map()};
          window.__cuewardRefState = state;
          const nodes = [];
          let skippedFrames = 0;
          cuewardVisitRoots(document, root => {
            for (const el of root.querySelectorAll?.('*') || []) {
              if (el.tagName === 'IFRAME') {
                try { if (!el.contentDocument) skippedFrames += 1; }
                catch (_) { skippedFrames += 1; }
              }
              if (nodes.length >= "#@ + decimal(limit as nat)
        + r#" || el.getClientRects?.().length === 0) continue;
              const tag = (el.tagName || '').toLowerCase();
              const role = el.getAttribute?.('role') || null;
              const interactive = ['a', 'button', 'input', 'textarea', 'select'].includes(tag)
                || ['button', 'link', 'textbox', 'checkbox', 'radio', 'slider', 'menuitem'].includes(role);
              const hasTextChild = [...el.children || []].some(child =>
                (child.innerText || '').trim().length > 0);
              const text = (el.innerText || el.textContent || '').trim().slice(0, 160);
              if (!interactive && (!text || hasTextChild)) continue;
              const labelledBy = (el.getAttribute?.('aria-labelledby') || '').split(/\s+/)
                .map(id => el.ownerDocument.getElementById(id)?.innerText || '').join(' ').trim();
              const labels = Array.from(el.labels || [])
                .map(label => label.innerText || '').join(' ').trim();
              const ref = `${state.snapshot}:${state.nodes.size + 1}`;
              state.nodes.set(ref, el);
              nodes.push({
                ref, tag, role,
                name: (el.getAttribute?.('aria-label') || labelledBy || labels ||
                  el.getAttribute?.('title') || el.getAttribute?.('placeholder') || text).slice(0, 160),
                text, href: el.getAttribute?.('href') || null
              });
            }
          });
          return JSON.stringify({
            url: location.href, title: document.title, snapshot: state.snapshot,
            nodes, skipped_frames: skippedFrames
          });
        })()"#@
}

/// The outline script for `limit` elements under the name `snapshot`.
pub fn inspect_js(limit: usize, snapshot: &str) -> (r: String)
    ensures
        r@ == spec_inspect_js(limit, snapshot@),
{
    let mut s = String::from_str(r#"(() => {
          "#);
    s.append(RUNTIME);
    s.append(r#"
          const state = {snapshot: "#);
    let q = json_string(snapshot);
    s.append(q.as_str());
    s.append(r#", nodes: new Map()};
          window.__cuewardRefState = state;
          const nodes = [];
          let skippedFrames = 0;
          cuewardVisitRoots(document, root => {
            for (const el of root.querySelectorAll?.('*') || []) {
              if (el.tagName === 'IFRAME') {
                try { if (!el.contentDocument) skippedFrames += 1; }
                catch (_) { skippedFrames += 1; }
              }
              if (nodes.length >= "#);
    push_decimal(&mut s, limit as u128);
    s.append(r#" || el.getClientRects?.().length === 0) continue;
              const tag = (el.tagName || '').toLowerCase();
              const role = el.getAttribute?.('role') || null;
              const interactive = ['a', 'button', 'input', 'textarea', 'select'].includes(tag)
                || ['button', 'link', 'textbox', 'checkbox', 'radio', 'slider', 'menuitem'].includes(role);
              const hasTextChild = [...el.children || []].some(child =>
                (child.innerText || '').trim().length > 0);
              const text = (el.innerText || el.textContent || '').trim().slice(0, 160);
              if (!interactive && (!text || hasTextChild)) continue;
              const labelledBy = (el.getAttribute?.('aria-labelledby') || '').split(/\s+/)
                .map(id => el.ownerDocument.getElementById(id)?.innerText || '').join(' ').trim();
              const labels = Array.from(el.labels || [])
                .map(label => label.innerText || '').join(' ').trim();
              const ref = `${state.snapshot}:${state.nodes.size + 1}`;
              state.nodes.set(ref, el);
              nodes.push({
                ref, tag, role,
                name: (el.getAttribute?.('aria-label') || labelledBy || labels ||
                  el.getAttribute?.('title') || el.getAttribute?.('placeholder') || text).slice(0, 160),
                text, href: el.getAttribute?.('href') || null
              });
            }
          });
          return JSON.stringify({
            url: location.href, title: document.title, snapshot: state.snapshot,
            nodes, skipped_frames: skippedFrames
          });
        })()"#);
    s
}

/// What an outline or a batch answers, given what its script printed: the
/// JSON value (as `serde_json` writes it), or the error, whose message starts
/// with `prefix`.
pub open spec fn spec_json_reply(reply: Result<Seq<char>, MacosErrorView>, prefix: Seq<char>) -> Result<Seq<char>, MacosErrorView> {
    match reply {
        Err(e) => Err(e),
        Ok(raw) => match json_reparse(raw) {
            Ok(v) => Ok(v),
            Err(m) => Err(MacosErrorView::Other(prefix + m)),
        },
    }
}

fn json_reply(raw: Result<String, MacosError>, prefix: &str) -> (r: Result<String, MacosError>)
    ensures
        result_view(r) == spec_json_reply(result_view(raw), prefix@),
{
    let raw = match raw {
        Ok(raw) => raw,
        Err(e) => {
            return Err(e);
        },
    };
    match reparse_json(raw.as_str()) {
        Ok(v) => Ok(v),
        Err(m) => {
            let mut msg = String::from_str(prefix);
            msg.append(m.as_str());
            Err(MacosError::Other(msg))
        },
    }
}

/// The error for an outline limit out of range.
pub open spec fn inspect_limit_error() -> MacosErrorView {
    MacosErrorView::Other("inspect limit must be 1..=1000"@)
}

/// Outlines the target tab: up to `limit` (1 to 1000) elements, with
/// references named after a fresh snapshot; the outline as JSON text.
pub fn inspect<H: SafariHost>(
    safari: &mut Safari<H>,
    limit: usize,
    profile_filter: Option<&str>,
    tab_selector: Option<&str>,
) -> (r: Result<String, MacosError>)
    ensures
        limit == 0 || limit > 1000 ==> fails_with(r, inspect_limit_error()) && final(safari).runs@ == old(safari).runs@,
        1 <= limit <= 1000 ==> exists|snapshot: Seq<char>| {
            &&& tab_js_runs(old(safari).runs@, final(safari).runs@, opt_view(tab_selector), opt_view(profile_filter), #[trigger] spec_inspect_js(limit, snapshot))
            &&& result_view(r) == spec_json_reply(tab_js_result(old(safari).runs@, final(safari).runs@, opt_view(tab_selector), opt_view(profile_filter)), "invalid inspect response: "@)
        },
{
    if limit == 0 || limit > 1000 {
        return Err(MacosError::Other(String::from_str("inspect limit must be 1..=1000")));
    }
    let snapshot = safari.host.next_snapshot_id();
    let js = inspect_js(limit, snapshot.as_str());
    let raw = js_in_target(safari, js.as_str(), tab_selector, profile_filter, "safari_inspect");
    let r = json_reply(raw, "invalid inspect response: ");
    assert(spec_inspect_js(limit, snapshot@) == js@);
    r
}

/// The script that runs the steps (a JSON array, as text) in order and stops
/// at the first that fails, reporting the steps completed.
pub open spec fn spec_batch_js(steps: Seq<char>) -> Seq<char> {
    r#"(() => {
          "#@ + RUNTIME@ + r#"
          const steps = "#@ + steps
        + r#";
          const completed = [];
          for (let index = 0; index < steps.length; index++) {
            const step = steps[index];
            try {
              if (step.action === 'assert') {
                if (step.js != null && typeof step.js !== 'string')
                  throw new Error('assert js must be a string');
                const observed = step.js != null
                  ? (0, eval)(step.js) : cuewardResolve(step);
                if (observed?.then) throw new Error('assert requires a synchronous condition');
                const passes = Boolean(observed);
                if (!passes) throw new Error('assertion failed');
              } else {
                const el = cuewardResolve(step);
                switch (step.action) {
                  case 'click': cuewardClick(el); break;
                  case 'fill':
                    if (typeof step.value !== 'string') throw new Error('fill value must be a string');
                    cuewardFill(el, step.value); break;
                  case 'key':
                    if (typeof step.key !== 'string' || !step.key) throw new Error('key must be a string');
                    cuewardKey(el, step.key, step); break;
                  case 'select':
                    if (typeof step.value !== 'string') throw new Error('select value must be a string');
                    cuewardSelect(el, step.value); break;
                  case 'check':
                    if (typeof step.checked !== 'boolean') throw new Error('checked must be a boolean');
                    cuewardCheck(el, step.checked); break;
                  case 'scroll_into_view': cuewardScrollIntoView(el); break;
                  default: throw new Error('unknown action: ' + step.action);
                }
              }
              completed.push({index, action: step.action});
            } catch (error) {
              return JSON.stringify({ok: false, failed_step: index,
                error: String(error?.message || error), completed});
            }
          }
          return JSON.stringify({ok: true, completed});
        })()"#@
}

/// The batch script for the steps' JSON text.
pub fn batch_js(steps: &str) -> (r: String)
    ensures
        r@ == spec_batch_js(steps@),
{
    let mut s = String::from_str(r#"(() => {
          "#);
    s.append(RUNTIME);
    s.append(r#"
          const steps = "#);
    s.append(steps);
    s.append(r#";
          const completed = [];
          for (let index = 0; index < steps.length; index++) {
            const step = steps[index];
            try {
              if (step.action === 'assert') {
                if (step.js != null && typeof step.js !== 'string')
                  throw new Error('assert js must be a string');
                const observed = step.js != null
                  ? (0, eval)(step.js) : cuewardResolve(step);
                if (observed?.then) throw new Error('assert requires a synchronous condition');
                const passes = Boolean(observed);
                if (!passes) throw new Error('assertion failed');
              } else {
                const el = cuewardResolve(step);
                switch (step.action) {
                  case 'click': cuewardClick(el); break;
                  case 'fill':
                    if (typeof step.value !== 'string') throw new Error('fill value must be a string');
                    cuewardFill(el, step.value); break;
                  case 'key':
                    if (typeof step.key !== 'string' || !step.key) throw new Error('key must be a string');
                    cuewardKey(el, step.key, step); break;
                  case 'select':
                    if (typeof step.value !== 'string') throw new Error('select value must be a string');
                    cuewardSelect(el, step.value); break;
                  case 'check':
                    if (typeof step.checked !== 'boolean') throw new Error('checked must be a boolean');
                    cuewardCheck(el, step.checked); break;
                  case 'scroll_into_view': cuewardScrollIntoView(el); break;
                  default: throw new Error('unknown action: ' + step.action);
                }
              }
              completed.push({index, action: step.action});
            } catch (error) {
              return JSON.stringify({ok: false, failed_step: index,
                error: String(error?.message || error), completed});
            }
          }
          return JSON.stringify({ok: true, completed});
        })()"#);
    s
}

/// Runs a batch of element actions (`steps`, the JSON text of an array of 1
/// to 100 steps) in the target tab in one script; the report as JSON text.
pub fn batch<H: SafariHost>(
    safari: &mut Safari<H>,
    steps: &str,
    profile_filter: Option<&str>,
    tab_selector: Option<&str>,
) -> (r: Result<String, MacosError>)
    ensures
        match json_array_length(steps@) {
            None => fails_with(r, MacosErrorView::Other("batch steps must be a JSON array"@))
                && final(safari).runs@ == old(safari).runs@,
            Some(n) => if n == 0 || n > 100 {
                fails_with(r, MacosErrorView::Other("batch requires 1..=100 steps"@))
                    && final(safari).runs@ == old(safari).runs@
            } else {
                match json_reparse(steps@) {
                    Err(m) => fails_with(r, MacosErrorView::Other("invalid batch steps: "@ + m)),
                    Ok(canonical) => {
                        &&& tab_js_runs(old(safari).runs@, final(safari).runs@, opt_view(tab_selector), opt_view(profile_filter), spec_batch_js(canonical))
                        &&& result_view(r) == spec_json_reply(tab_js_result(old(safari).runs@, final(safari).runs@, opt_view(tab_selector), opt_view(profile_filter)), "invalid batch response: "@)
                    },
                }
            },
        },
{
    let n = match json_array_len(steps) {
        Some(n) => n,
        None => {
            return Err(MacosError::Other(String::from_str("batch steps must be a JSON array")));
        },
    };
    if n == 0 || n > 100 {
        return Err(MacosError::Other(String::from_str("batch requires 1..=100 steps")));
    }
    let canonical = match reparse_json(steps) {
        Ok(c) => c,
        Err(m) => {
            let mut msg = String::from_str("invalid batch steps: ");
            msg.append(m.as_str());
            return Err(MacosError::Other(msg));
        },
    };
    let js = batch_js(canonical.as_str());
    let raw = js_in_target(safari, js.as_str(), tab_selector, profile_filter, "safari_batch");
    json_reply(raw, "invalid batch response: ")
}

} // verus!
