//! Evaluating JavaScript in a tab with its result's JSON type kept: the
//! evaluation script, the poll for a result that a promise delivers later, and
//! the decision taken on each reply.
use vstd::prelude::*;

use crate::error::{MacosError, MacosErrorView};
use crate::json::{json_quote, json_string};
use crate::text::{chars_eq, chars_of, replace_all, replace_str};

verus! {

broadcast use vstd::string::group_string_axioms;

/// The evaluation script before the source and token are put in.
pub const EVAL_TEMPLATE: &'static str = r"(() => {
          const code = __CODE__;
          const token = __TOKEN__;
          const store = window.__cuewardEvalPending ||= Object.create(null);
          const failure = (error) => JSON.stringify({
            status: 'error', error: String(error?.stack || error?.message || error)
          });
          const success = (value) => {
            let valueType = value === null ? 'null' :
              Array.isArray(value) ? 'array' : typeof value;
            if (valueType === 'undefined') return JSON.stringify({
              status: 'complete', value_type: valueType, result_json: 'null'
            });
            if (valueType === 'bigint') return JSON.stringify({
              status: 'complete', value_type: valueType,
              result_json: JSON.stringify(value.toString())
            });
            if (valueType === 'number' && !Number.isFinite(value)) {
              valueType = 'nonfinite-number';
              return JSON.stringify({status: 'complete', value_type: valueType,
                result_json: JSON.stringify(String(value))});
            }
            const encoded = JSON.stringify(value);
            if (encoded === undefined) throw new TypeError('JavaScript result is not JSON serializable');
            return JSON.stringify({status: 'complete', value_type: valueType,
              result_json: encoded});
          };
          let result;
          try {
            result = (0, eval)(code);
          } catch (error) {
            if (!(error instanceof SyntaxError) || !/\bawait\b/.test(code)) return failure(error);
            const AsyncFunction = Object.getPrototypeOf(async function() {}).constructor;
            try {
              result = new AsyncFunction('return (' + code + ')')();
            } catch (expressionError) {
              if (!(expressionError instanceof SyntaxError)) return failure(expressionError);
              try { result = new AsyncFunction(code)(); }
              catch (bodyError) { return failure(bodyError); }
            }
          }
          if (result && typeof result.then === 'function') {
            store[token] = JSON.stringify({status: 'running'});
            Promise.resolve(result).then(
              value => { try { store[token] = success(value); }
                         catch (error) { store[token] = failure(error); } },
              error => { store[token] = failure(error); }
            );
            return store[token];
          }
          try { return success(result); }
          catch (error) { return failure(error); }
        })()";

/// The evaluation script for `code`, tagged with `token` so that a later poll
/// finds a result that a promise delivers.
pub open spec fn spec_build_eval_js(code: Seq<char>, token: Seq<char>) -> Seq<char> {
    replace_all(replace_all(EVAL_TEMPLATE@, "__CODE__"@, json_quote(code)), "__TOKEN__"@, json_quote(token))
}

/// Builds the evaluation script for `code`.
pub fn build_eval_js(code: &str, token: &str) -> (r: String)
    ensures
        r@ == spec_build_eval_js(code@, token@),
{
    let c = json_string(code);
    let t = json_string(token);
    proof {
        reveal_strlit("__CODE__");
        reveal_strlit("__TOKEN__");
    }
    let with_code = replace_str(EVAL_TEMPLATE, "__CODE__", c.as_str());
    replace_str(with_code.as_str(), "__TOKEN__", t.as_str())
}

/// The script that fetches the pending result stored under `token`.
pub open spec fn spec_build_poll_js(token: Seq<char>) -> Seq<char> {
    r"(() => {
          const store = window.__cuewardEvalPending;
          const result = store?.["@ + json_quote(token) + r"];
          if (!result) return JSON.stringify({status: 'error', error: 'evaluation state lost'});
          if (JSON.parse(result).status !== 'running') delete store["@ + json_quote(token) + r"];
          return result;
        })()"@
}

/// Builds the poll script for `token`.
pub fn build_poll_js(token: &str) -> (r: String)
    ensures
        r@ == spec_build_poll_js(token@),
{
    let t = json_string(token);
    let mut s = String::new();
    s.append(r"(() => {
          const store = window.__cuewardEvalPending;
          const result = store?.[");
    s.append(t.as_str());
    s.append(r"];
          if (!result) return JSON.stringify({status: 'error', error: 'evaluation state lost'});
          if (JSON.parse(result).status !== 'running') delete store[");
    s.append(t.as_str());
    s.append(r"];
          return result;
        })()");
    assert(s@ =~= spec_build_poll_js(token@));
    s
}

/// The reply of the evaluation and poll scripts, field by field.
#[derive(Debug, Clone, PartialEq, Eq)]
pub struct EvalWire {
    pub status: String,
    pub value_type: Option<String>,
    pub result_json: Option<String>,
    pub error: Option<String>,
}

/// The JSON text that `serde_json` writes back for the value that `text`
/// holds, or the parser's message when `text` is no JSON.
pub uninterp spec fn json_reparse(text: Seq<char>) -> Result<Seq<char>, Seq<char>>;

/// Parses `text` as a JSON value with `serde_json::from_str` and writes the
/// value back with `to_string`; the error is the parser's message. The
/// contract names the outcome and says nothing more of it.
#[verifier::external_body]
pub(crate) fn reparse_json(text: &str) -> (r: Result<String, String>)
    ensures
        match r {
            Ok(v) => json_reparse(text@) == Ok::<Seq<char>, Seq<char>>(v@),
            Err(m) => json_reparse(text@) == Err::<Seq<char>, Seq<char>>(m@),
        },
{
    match serde_json::from_str::<serde_json::Value>(text) {
        Ok(value) => Ok(value.to_string()),
        Err(error) => Err(error.to_string()),
    }
}

/// The outcome a reply stands for: still running (`None`), a result (its JSON
/// text and type), or an error.
pub open spec fn spec_decode_eval_wire(
    status: Seq<char>,
    value_type: Option<Seq<char>>,
    result_json: Option<Seq<char>>,
    error: Option<Seq<char>>,
) -> Result<Option<(Seq<char>, Seq<char>)>, MacosErrorView> {
    if status == "running"@ {
        Ok(None)
    } else if status == "error"@ {
        Err(MacosErrorView::Other("JavaScript evaluation failed: "@ + match error {
            Some(e) => e,
            None => "unknown error"@,
        }))
    } else if status == "complete"@ {
        match result_json {
            None => Err(MacosErrorView::Other("JavaScript result had no value"@)),
            Some(j) => match json_reparse(j) {
                Err(m) => Err(MacosErrorView::Other("invalid serialized JavaScript result: "@ + m)),
                Ok(v) => match value_type {
                    None => Err(MacosErrorView::Other("JavaScript result had no type"@)),
                    Some(t) => Ok(Some((v, t))),
                },
            },
        }
    } else {
        Err(MacosErrorView::Other("unknown JavaScript evaluation status: "@ + status))
    }
}

/// The view of an optional string.
pub open spec fn opt_str(o: Option<String>) -> Option<Seq<char>> {
    match o {
        Some(s) => Some(s@),
        None => None,
    }
}

/// The view of a decoded reply.
pub open spec fn eval_outcome(r: Result<Option<crate::safari::types::SafariEvalResult>, MacosError>) -> Result<Option<(Seq<char>, Seq<char>)>, MacosErrorView> {
    match r {
        Ok(Some(v)) => Ok(Some((v.result@, v.value_type@))),
        Ok(None) => Ok(None),
        Err(e) => Err(e@),
    }
}

fn is(s: &String, lit: &str) -> (r: bool)
    ensures
        r == (s@ == lit@),
{
    let a = chars_of(s.as_str());
    let b = chars_of(lit);
    chars_eq(a.as_slice(), b.as_slice())
}

fn other_error(prefix: &str, detail: &str) -> (e: MacosError)
    ensures
        e@ == MacosErrorView::Other(prefix@ + detail@),
{
    let mut m = String::from_str(prefix);
    m.append(detail);
    MacosError::Other(m)
}

/// Decides what an evaluation reply means.
pub fn decode_eval_wire(wire: &EvalWire) -> (r: Result<Option<crate::safari::types::SafariEvalResult>, MacosError>)
    ensures
        eval_outcome(r) == spec_decode_eval_wire(wire.status@, opt_str(wire.value_type), opt_str(wire.result_json), opt_str(wire.error)),
{
    if is(&wire.status, "running") {
        Ok(None)
    } else if is(&wire.status, "error") {
        match &wire.error {
            Some(e) => Err(other_error("JavaScript evaluation failed: ", e.as_str())),
            None => Err(other_error("JavaScript evaluation failed: ", "unknown error")),
        }
    } else if is(&wire.status, "complete") {
        match &wire.result_json {
            None => Err(MacosError::Other(String::from_str("JavaScript result had no value"))),
            Some(j) => match reparse_json(j.as_str()) {
                Err(m) => Err(other_error("invalid serialized JavaScript result: ", m.as_str())),
                Ok(v) => match &wire.value_type {
                    None => Err(MacosError::Other(String::from_str("JavaScript result had no type"))),
                    Some(t) => Ok(Some(crate::safari::types::SafariEvalResult { result: v, value_type: t.clone() })),
                },
            },
        }
    } else {
        Err(other_error("unknown JavaScript evaluation status: ", wire.status.as_str()))
    }
}

} // verus!
