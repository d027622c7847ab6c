//! Setting ChatGPT's reasoning effort with the composer's slider.
use vstd::prelude::*;

use crate::error::{result_view, MacosError, MacosErrorView};
use crate::json::{json_i64_member, json_member_i64, json_quote, json_string};
use crate::safari::interaction::RUNTIME;
use crate::safari::ops::{eval_runs, exec, fails_with, spec_resolve_script, spec_resolved_tab, Safari, SafariHost};
use crate::safari::types::{opt_view, SafariEvalResult};
use crate::text::{chars_eq, chars_of, parse_u32, parse_u32_chars};

verus! {

broadcast use vstd::string::group_string_axioms;

/// An effort the slider can be set to: `pro` (its maximum) or a level number.
pub open spec fn is_effort_choice(choice: Seq<char>) -> bool {
    choice == "pro"@ || parse_u32(choice) is Some
}

/// The script (run as the body of an async function) that opens the effort
/// control, moves the slider one step at a time to the chosen level, and
/// returns the level reached with the slider's range.
pub open spec fn spec_effort_js(choice: Seq<char>) -> Seq<char> {
    r#"
        "#@ + RUNTIME@ + r#"
        const choice = "#@ + json_quote(choice) + r#";
        const pill = document.querySelector('button.__composer-pill');
        if (!pill) throw new Error('ChatGPT effort control not found');
        if (pill.getAttribute('aria-expanded') !== 'true') cuewardClick(pill);
        let slider;
        for (let attempt = 0; attempt < 10; attempt++) {
          slider = document.querySelector('[role="menu"] [role="slider"]');
          if (slider) break;
          await new Promise(resolve => setTimeout(resolve, 100));
        }
        if (!slider) throw new Error('ChatGPT effort slider not found');
        const min = Number(slider.getAttribute('aria-valuemin'));
        const max = Number(slider.getAttribute('aria-valuemax'));
        let current = Number(slider.getAttribute('aria-valuenow'));
        if (![min, max, current].every(Number.isInteger) || min > max || current < min || current > max)
          throw new Error('ChatGPT effort slider has invalid ARIA values');
        const target = choice === 'pro' ? max : Number(choice);
        if (!Number.isInteger(target) || target < min || target > max)
          throw new Error(`ChatGPT effort ${choice} is outside slider range ${min}-${max}`);
        slider.focus();
        for (let attempt = 0; current !== target && attempt <= max - min; attempt++) {
          const key = current < target ? 'ArrowRight' : 'ArrowLeft';
          const keyCode = key === 'ArrowRight' ? 39 : 37;
          const event = type => new KeyboardEvent(type, {
            key, code: key, keyCode, which: keyCode,
            bubbles: true, cancelable: true, composed: true
          });
          slider.dispatchEvent(event('keydown'));
          slider.dispatchEvent(event('keyup'));
          await new Promise(resolve => setTimeout(resolve, 100));
          const next = Number(slider.getAttribute('aria-valuenow'));
          if (!Number.isInteger(next) || next === current)
            throw new Error('ChatGPT effort slider did not respond to arrow key');
          current = next;
        }
        if (current !== target) throw new Error('ChatGPT effort slider did not reach requested level');
        return {level: current, min, max};
        "#@
}

/// The error for a choice that is neither a number nor `pro`.
pub open spec fn effort_choice_error() -> MacosErrorView {
    MacosErrorView::Other("ChatGPT --effort must be a slider number or 'pro'"@)
}

/// The slider script for `choice`, or the error when it names no level.
pub fn build_effort_js(choice: &str) -> (r: Result<String, MacosError>)
    ensures
        is_effort_choice(choice@) ==> (r matches Ok(js) && js@ == spec_effort_js(choice@)),
        !is_effort_choice(choice@) ==> fails_with(r, effort_choice_error()),
{
    let v = chars_of(choice);
    let pro = chars_of("pro");
    if !chars_eq(v.as_slice(), pro.as_slice()) && parse_u32_chars(v.as_slice()).is_none() {
        return Err(MacosError::Other(String::from_str("ChatGPT --effort must be a slider number or 'pro'")));
    }
    let mut s = String::from_str(r#"
        "#);
    s.append(RUNTIME);
    s.append(r#"
        const choice = "#);
    let q = json_string(choice);
    s.append(q.as_str());
    s.append(r#";
        const pill = document.querySelector('button.__composer-pill');
        if (!pill) throw new Error('ChatGPT effort control not found');
        if (pill.getAttribute('aria-expanded') !== 'true') cuewardClick(pill);
        let slider;
        for (let attempt = 0; attempt < 10; attempt++) {
          slider = document.querySelector('[role="menu"] [role="slider"]');
          if (slider) break;
          await new Promise(resolve => setTimeout(resolve, 100));
        }
        if (!slider) throw new Error('ChatGPT effort slider not found');
        const min = Number(slider.getAttribute('aria-valuemin'));
        const max = Number(slider.getAttribute('aria-valuemax'));
        let current = Number(slider.getAttribute('aria-valuenow'));
        if (![min, max, current].every(Number.isInteger) || min > max || current < min || current > max)
          throw new Error('ChatGPT effort slider has invalid ARIA values');
        const target = choice === 'pro' ? max : Number(choice);
        if (!Number.isInteger(target) || target < min || target > max)
          throw new Error(`ChatGPT effort ${choice} is outside slider range ${min}-${max}`);
        slider.focus();
        for (let attempt = 0; current !== target && attempt <= max - min; attempt++) {
          const key = current < target ? 'ArrowRight' : 'ArrowLeft';
          const keyCode = key === 'ArrowRight' ? 39 : 37;
          const event = type => new KeyboardEvent(type, {
            key, code: key, keyCode, which: keyCode,
            bubbles: true, cancelable: true, composed: true
          });
          slider.dispatchEvent(event('keydown'));
          slider.dispatchEvent(event('keyup'));
          await new Promise(resolve => setTimeout(resolve, 100));
          const next = Number(slider.getAttribute('aria-valuenow'));
          if (!Number.isInteger(next) || next === current)
            throw new Error('ChatGPT effort slider did not respond to arrow key');
          current = next;
        }
        if (current !== target) throw new Error('ChatGPT effort slider did not reach requested level');
        return {level: current, min, max};
        "#);
    Ok(s)
}

/// What setting the effort answers, given what evaluating the script gave:
/// its error, or success when the value holds an integer `level`.
pub open spec fn spec_effort_outcome(evaluated: Result<Seq<char>, MacosErrorView>) -> Result<(), MacosErrorView> {
    match evaluated {
        Err(e) => Err(e),
        Ok(value) => if json_i64_member(value, "level"@) is Some {
            Ok(())
        } else {
            Err(MacosErrorView::Other("ChatGPT effort result did not contain a level"@))
        },
    }
}

/// The value's JSON text, or the error.
pub open spec fn evaluated_value(r: Result<SafariEvalResult, MacosError>) -> Result<Seq<char>, MacosErrorView> {
    match r {
        Ok(v) => Ok(v.result@),
        Err(e) => Err(e@),
    }
}

/// Judges what evaluating the slider script gave.
pub fn effort_outcome(evaluated: Result<SafariEvalResult, MacosError>) -> (r: Result<(), MacosError>)
    ensures
        result_view(r) == spec_effort_outcome(evaluated_value(evaluated)),
{
    let value = match evaluated {
        Ok(v) => v,
        Err(e) => {
            return Err(e);
        },
    };
    match json_member_i64(value.result.as_str(), "level") {
        Some(_) => Ok(()),
        None => Err(MacosError::Other(String::from_str("ChatGPT effort result did not contain a level"))),
    }
}

/// Sets ChatGPT's reasoning effort in the current tab to `choice` (a slider
/// level, or `pro` for the highest), waiting up to ten seconds for the slider.
pub fn set_chatgpt_effort<H: SafariHost>(safari: &mut Safari<H>, choice: &str, profile_filter: Option<&str>) -> (r: Result<(), MacosError>)
    ensures
        !is_effort_choice(choice@) ==> fails_with(r, effort_choice_error()) && final(safari).runs@ == old(safari).runs@,
        is_effort_choice(choice@) ==> ({
            let before = old(safari).runs@;
            let after = final(safari).runs@;
            &&& after.len() >= before.len() + 1
            &&& after.take(before.len() as int) == before
            &&& after[before.len() as int].script == spec_resolve_script(None, opt_view(profile_filter))
            &&& match spec_resolved_tab(None, opt_view(profile_filter), after[before.len() as int].outcome) {
                Err(e) => after.len() == before.len() + 1 && fails_with(r, e),
                Ok(tab) => exists|token: Seq<char>| #[trigger] eval_runs(after.skip(before.len() + 1int), spec_effort_js(choice@), token, tab),
            }
        }),
{
    let code = match build_effort_js(choice) {
        Ok(c) => c,
        Err(e) => {
            return Err(e);
        },
    };
    let evaluated = exec(safari, code.as_str(), profile_filter, None, 10);
    effort_outcome(evaluated)
}

} // verus!
