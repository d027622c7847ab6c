//! Watching a page: a capture installed once per page records its console
//! messages and its network requests, and reads of that capture.
use vstd::prelude::*;

use crate::error::{result_view, MacosError, MacosErrorView};
use crate::json::{json_member_is_null, json_null_member, json_quote, json_string};
use crate::safari::eval::{json_reparse, reparse_json};
use crate::safari::ops::{fails_with, js_in_target, tab_js_result, tab_js_runs, Safari, SafariHost};
use crate::safari::types::opt_view;
use crate::text::{chars_eq, chars_of, decimal, push_decimal};

verus! {

broadcast use vstd::string::group_string_axioms;

/// Installs the capture in a page once: console calls and `fetch` and
/// `XMLHttpRequest` traffic are recorded, at most 300 of each kind.
pub const BOOTSTRAP: &'static str = r#"
  if (!window.__cuewardObserve || window.__cuewardObserve.version !== 1) {
    const state = {
      version: 1, started_at: new Date().toISOString(), sequence: 0,
      console: [], network: [], console_dropped: 0, network_dropped: 0
    };
    window.__cuewardObserve = state;
    const append = (kind, record) => {
      const list = state[kind];
      list.push(record);
      if (list.length > 300) {
        list.shift();
        state[kind + '_dropped']++;
      }
    };
    const preview = value => {
      try {
        if (value instanceof Error) return `${value.name}: ${value.message}\n${value.stack || ''}`.slice(0, 4096);
        if (typeof value === 'string') return value.slice(0, 4096);
        const encoded = JSON.stringify(value);
        return (encoded === undefined ? String(value) : encoded).slice(0, 4096);
      } catch (_) { return String(value).slice(0, 4096); }
    };
    for (const level of ['log', 'info', 'warn', 'error', 'debug']) {
      const original = console[level];
      if (typeof original !== 'function') continue;
      console[level] = function(...args) {
        append('console', {
          id: ++state.sequence, level, timestamp: new Date().toISOString(),
          text: args.map(preview).join(' ')
        });
        return original.apply(this, args);
      };
    }
    if (typeof window.fetch === 'function') {
      const originalFetch = window.fetch;
      window.fetch = function(input, init) {
        const id = ++state.sequence;
        const started = performance.now();
        const record = {
          id, type: 'fetch', timestamp: new Date().toISOString(),
          url: String(input?.url || input),
          method: String(init?.method || input?.method || 'GET').toUpperCase(),
          state: 'pending'
        };
        append('network', record);
        let promise;
        try { promise = originalFetch.apply(this, arguments); }
        catch (error) {
          Object.assign(record, {state: 'failed', duration_ms: Math.round(performance.now() - started), error: String(error)});
          throw error;
        }
        return Promise.resolve(promise).then(response => {
          Object.assign(record, {
            state: 'complete', status: response.status, status_text: response.statusText,
            duration_ms: Math.round(performance.now() - started),
            response_headers: Object.fromEntries(response.headers?.entries?.() || [])
          });
          try {
            const type = response.headers?.get?.('content-type') || '';
            if (/text|json|xml|javascript/i.test(type)) {
              response.clone().text().then(body => { record.response_preview = body.slice(0, 16384); }).catch(() => {});
            }
          } catch (_) { /* response body may be inaccessible */ }
          return response;
        }, error => {
          Object.assign(record, {state: 'failed', duration_ms: Math.round(performance.now() - started), error: String(error)});
          throw error;
        });
      };
    }
    if (typeof XMLHttpRequest !== 'undefined') {
      const metadata = new WeakMap();
      const originalOpen = XMLHttpRequest.prototype.open;
      const originalHeader = XMLHttpRequest.prototype.setRequestHeader;
      const originalSend = XMLHttpRequest.prototype.send;
      XMLHttpRequest.prototype.open = function(method, url) {
        metadata.set(this, {method: String(method).toUpperCase(), url: String(url), request_headers: {}});
        return originalOpen.apply(this, arguments);
      };
      XMLHttpRequest.prototype.setRequestHeader = function(name, value) {
        const meta = metadata.get(this);
        if (meta) meta.request_headers[String(name)] = String(value);
        return originalHeader.apply(this, arguments);
      };
      XMLHttpRequest.prototype.send = function() {
        const meta = metadata.get(this) || {method: 'GET', url: '', request_headers: {}};
        const started = performance.now();
        const record = {
          id: ++state.sequence, type: 'xhr', timestamp: new Date().toISOString(),
          url: meta.url, method: meta.method, request_headers: meta.request_headers,
          state: 'pending'
        };
        append('network', record);
        this.addEventListener('loadend', () => {
          Object.assign(record, {
            state: this.status ? 'complete' : 'failed', status: this.status,
            status_text: this.statusText,
            duration_ms: Math.round(performance.now() - started),
            response_headers: this.getAllResponseHeaders()
          });
          try {
            if (!this.responseType || this.responseType === 'text')
              record.response_preview = this.responseText.slice(0, 16384);
          } catch (_) { /* binary response */ }
        }, {once: true});
        try { return originalSend.apply(this, arguments); }
        catch (error) {
          Object.assign(record, {state: 'failed', duration_ms: Math.round(performance.now() - started), error: String(error)});
          throw error;
        }
      };
    }
  }
"#;

/// The script that installs the capture and returns the JSON text of `query`,
/// an expression over the capture's `state`.
pub open spec fn spec_observation_script(query: Seq<char>) -> Seq<char> {
    "(() => { "@ + BOOTSTRAP@ + " const state = window.__cuewardObserve; return JSON.stringify("@ + query
        + "); })()"@
}

/// The script that installs the capture and returns the JSON text of `query`.
pub fn observation_script(query: &str) -> (r: String)
    ensures
        r@ == spec_observation_script(query@),
{
    let mut s = String::from_str("(() => { ");
    s.append(BOOTSTRAP);
    s.append(" const state = window.__cuewardObserve; return JSON.stringify(");
    s.append(query);
    s.append("); })()");
    s
}

/// What reading the capture with `query` answers, given what the script
/// printed: the JSON value (as `serde_json` writes it), or the error.
pub open spec fn spec_observation(reply: Result<Seq<char>, MacosErrorView>) -> Result<Seq<char>, MacosErrorView> {
    match reply {
        Err(e) => Err(e),
        Ok(raw) => match json_reparse(raw) {
            Ok(v) => Ok(v),
            Err(m) => Err(MacosErrorView::Other("invalid Safari observation: "@ + m)),
        },
    }
}

/// Installs the capture in the target tab if needed and reads `query` from it.
pub fn read_observation<H: SafariHost>(
    safari: &mut Safari<H>,
    query: &str,
    profile_filter: Option<&str>,
    tab_selector: Option<&str>,
) -> (r: Result<String, MacosError>)
    ensures
        tab_js_runs(old(safari).runs@, final(safari).runs@, opt_view(tab_selector), opt_view(profile_filter), spec_observation_script(query@)),
        result_view(r) == spec_observation(tab_js_result(old(safari).runs@, final(safari).runs@, opt_view(tab_selector), opt_view(profile_filter))),
{
    let script = observation_script(query);
    let raw = match js_in_target(safari, script.as_str(), tab_selector, profile_filter, "safari_observe") {
        Ok(raw) => raw,
        Err(e) => {
            return Err(e);
        },
    };
    match reparse_json(raw.as_str()) {
        Ok(v) => Ok(v),
        Err(m) => {
            let mut msg = String::from_str("invalid Safari observation: ");
            msg.append(m.as_str());
            Err(MacosError::Other(msg))
        },
    }
}

/// The console levels the capture records.
pub open spec fn is_console_level(level: Seq<char>) -> bool {
    level == "log"@ || level == "info"@ || level == "warn"@ || level == "error"@ || level == "debug"@
}

/// The query for the console messages, all of them or those of one level.
pub open spec fn spec_console_query(level: Option<Seq<char>>) -> Seq<char> {
    let filter = match level {
        Some(l) => json_quote(l),
        None => "null"@,
    };
    "{started_at: state.started_at, dropped: state.console_dropped, messages: state.console.filter(item => "@
        + filter + " === null || item.level === "@ + filter + ")}"@
}

/// The query for the console messages, or the error for a level the capture
/// does not record.
pub fn console_query(level: Option<&str>) -> (r: Result<String, MacosError>)
    ensures
        match level {
            Some(l) if !is_console_level(l@) => fails_with(r, MacosErrorView::Other("unsupported console level: "@ + l@)),
            _ => r matches Ok(q) && q@ == spec_console_query(opt_view(level)),
        },
{
    let filter = match level {
        Some(l) => {
            let v = chars_of(l);
            let ok = chars_eq(v.as_slice(), chars_of("log").as_slice()) || chars_eq(v.as_slice(), chars_of("info").as_slice())
                || chars_eq(v.as_slice(), chars_of("warn").as_slice()) || chars_eq(v.as_slice(), chars_of("error").as_slice())
                || chars_eq(v.as_slice(), chars_of("debug").as_slice());
            if !ok {
                let mut msg = String::from_str("unsupported console level: ");
                msg.append(l);
                return Err(MacosError::Other(msg));
            }
            json_string(l)
        },
        None => String::from_str("null"),
    };
    let mut q = String::from_str("{started_at: state.started_at, dropped: state.console_dropped, messages: state.console.filter(item => ");
    q.append(filter.as_str());
    q.append(" === null || item.level === ");
    q.append(filter.as_str());
    q.append(")}");
    Ok(q)
}

/// The console messages the page logged since the capture was installed,
/// all of them or those of one level, as JSON text.
pub fn console_messages<H: SafariHost>(
    safari: &mut Safari<H>,
    level: Option<&str>,
    profile_filter: Option<&str>,
    tab_selector: Option<&str>,
) -> (r: Result<String, MacosError>)
    ensures
        match level {
            Some(l) if !is_console_level(l@) => {
                &&& fails_with(r, MacosErrorView::Other("unsupported console level: "@ + l@))
                &&& final(safari).runs@ == old(safari).runs@
            },
            _ => {
                &&& tab_js_runs(old(safari).runs@, final(safari).runs@, opt_view(tab_selector), opt_view(profile_filter), spec_observation_script(spec_console_query(opt_view(level))))
                &&& result_view(r) == spec_observation(tab_js_result(old(safari).runs@, final(safari).runs@, opt_view(tab_selector), opt_view(profile_filter)))
            },
        },
{
    let query = match console_query(level) {
        Ok(q) => q,
        Err(e) => {
            return Err(e);
        },
    };
    read_observation(safari, query.as_str(), profile_filter, tab_selector)
}

/// The query for one recorded request (by id), or for a summary of all.
pub open spec fn spec_network_query(id: Option<u64>) -> Seq<char> {
    match id {
        Some(n) => "{started_at: state.started_at, request: state.network.find(item => item.id === "@
            + decimal(n as nat) + ") || null}"@,
        None => "{started_at: state.started_at, dropped: state.network_dropped, requests: state.network.map(({id, type, timestamp, url, method, state: status, status: http_status, duration_ms, error}) => ({id, type, timestamp, url, method, state: status, status: http_status, duration_ms, error}))}"@,
    }
}

/// The query for one recorded request, or for a summary of all.
pub fn network_query(id: Option<u64>) -> (r: String)
    ensures
        r@ == spec_network_query(id),
{
    match id {
        Some(n) => {
            let mut q = String::from_str("{started_at: state.started_at, request: state.network.find(item => item.id === ");
            push_decimal(&mut q, n as u128);
            q.append(") || null}");
            q
        },
        None => String::from_str("{started_at: state.started_at, dropped: state.network_dropped, requests: state.network.map(({id, type, timestamp, url, method, state: status, status: http_status, duration_ms, error}) => ({id, type, timestamp, url, method, state: status, status: http_status, duration_ms, error}))}"),
    }
}

/// The message for a request id the capture does not hold.
pub open spec fn request_not_found(id: u64) -> MacosErrorView {
    MacosErrorView::Other("network request "@ + decimal(id as nat) + " not found in current page capture"@)
}

/// The requests the page made since the capture was installed (a summary of
/// each), or one of them in full, as JSON text.
pub fn network_requests<H: SafariHost>(
    safari: &mut Safari<H>,
    id: Option<u64>,
    profile_filter: Option<&str>,
    tab_selector: Option<&str>,
) -> (r: Result<String, MacosError>)
    ensures
        tab_js_runs(old(safari).runs@, final(safari).runs@, opt_view(tab_selector), opt_view(profile_filter), spec_observation_script(spec_network_query(id))),
        match spec_observation(tab_js_result(old(safari).runs@, final(safari).runs@, opt_view(tab_selector), opt_view(profile_filter))) {
            Err(e) => fails_with(r, e),
            Ok(v) => match id {
                Some(n) if json_null_member(v, "request"@) => fails_with(r, request_not_found(n)),
                _ => r matches Ok(t) && t@ == v,
            },
        },
{
    let query = network_query(id);
    let result = match read_observation(safari, query.as_str(), profile_filter, tab_selector) {
        Ok(v) => v,
        Err(e) => {
            return Err(e);
        },
    };
    match id {
        Some(n) => {
            if json_member_is_null(result.as_str(), "request") {
                let mut msg = String::from_str("network request ");
                push_decimal(&mut msg, n as u128);
                msg.append(" not found in current page capture");
                return Err(MacosError::Other(msg));
            }
        },
        None => {},
    }
    Ok(result)
}

} // verus!
