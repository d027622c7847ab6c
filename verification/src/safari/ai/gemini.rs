//! Scripts that drive Gemini in a Safari tab.
use vstd::prelude::*;

use crate::applescript::{escape_js_string, quoted};

verus! {

broadcast use vstd::string::group_string_axioms;


/// Navigates the tab to the Gemini app.
pub open spec fn spec_build_gemini_go_home_js() -> Seq<char> {
    r#"(function() {
        window.location.href = "https://gemini.google.com/app";
        return "true";
    })()"#@
}

/// Navigates the tab to the Gemini app.
pub fn build_gemini_go_home_js() -> (r: String)
    ensures
        r@ == spec_build_gemini_go_home_js(),
{
    String::from_str(r#"(function() {
        window.location.href = "https://gemini.google.com/app";
        return "true";
    })()"#)
}

/// Reads the placeholder of the Gemini prompt box.
pub open spec fn spec_build_gemini_placeholder_read_js() -> Seq<char> {
    r#"(function() {
        var input = document.querySelector(".ql-editor, rich-textarea .ProseMirror, div[role='textbox'][contenteditable='true'], div[contenteditable='true']");
        if (!input) return "";
        return String(
          input.getAttribute("data-placeholder") ||
          input.getAttribute("placeholder") ||
          input.getAttribute("aria-label") ||
          ""
        );
    })()"#@
}

/// Reads the placeholder of the Gemini prompt box.
pub fn build_gemini_placeholder_read_js() -> (r: String)
    ensures
        r@ == spec_build_gemini_placeholder_read_js(),
{
    String::from_str(r#"(function() {
        var input = document.querySelector(".ql-editor, rich-textarea .ProseMirror, div[role='textbox'][contenteditable='true'], div[contenteditable='true']");
        if (!input) return "";
        return String(
          input.getAttribute("data-placeholder") ||
          input.getAttribute("placeholder") ||
          input.getAttribute("aria-label") ||
          ""
        );
    })()"#)
}

/// Reads the text of the latest Gemini response.
pub open spec fn spec_gemini_response_extract_js() -> Seq<char> {
    r#"(() => {
        const selectors = [
          ".model-response-text",
          ".message-content",
          ".markdown",
          "div[data-test-id='message-content']"
        ];
        for (const selector of selectors) {
          const elements = document.querySelectorAll(selector);
          if (!elements.length) continue;
          const last = elements[elements.length - 1];
          const text = (last.innerText || last.textContent || "").trim();
          if (text) return text;
        }
        return "";
    })()"#@
}

/// Reads the text of the latest Gemini response.
pub fn gemini_response_extract_js() -> (r: String)
    ensures
        r@ == spec_gemini_response_extract_js(),
{
    String::from_str(r#"(() => {
        const selectors = [
          ".model-response-text",
          ".message-content",
          ".markdown",
          "div[data-test-id='message-content']"
        ];
        for (const selector of selectors) {
          const elements = document.querySelectorAll(selector);
          if (!elements.length) continue;
          const last = elements[elements.length - 1];
          const text = (last.innerText || last.textContent || "").trim();
          if (text) return text;
        }
        return "";
    })()"#)
}

/// Types `prompt` into the Gemini prompt box.
pub open spec fn spec_build_gemini_fill_input_js(prompt: Seq<char>) -> Seq<char> {
    r#"(() => {
            const input = document.querySelector(
              ".ql-editor, rich-textarea .ProseMirror, div[role='textbox'][contenteditable='true'], div[contenteditable='true']"
            );
            if (!input) throw new Error("gemini input not found");
            input.focus();
            input.textContent = "";
            document.execCommand("insertText", false, ""#@ + quoted(prompt) + r#"");
            return "true";
        })()"#@
}

/// Types `prompt` into the Gemini prompt box.
pub fn build_gemini_fill_input_js(prompt: &str) -> (r: String)
    ensures
        r@ == spec_build_gemini_fill_input_js(prompt@),
{
    let mut s = String::new();
    s.append(r#"(() => {
            const input = document.querySelector(
              ".ql-editor, rich-textarea .ProseMirror, div[role='textbox'][contenteditable='true'], div[contenteditable='true']"
            );
            if (!input) throw new Error("gemini input not found");
            input.focus();
            input.textContent = "";
            document.execCommand("insertText", false, ""#);
    let e = escape_js_string(prompt);
    s.append(e.as_str());
    s.append(r#"");
            return "true";
        })()"#);
    assert(s@ =~= spec_build_gemini_fill_input_js(prompt@));
    s
}

/// Presses the send button: prints `true`, `disabled`, or `false` when there is none.
pub open spec fn spec_build_gemini_click_send_js() -> Seq<char> {
    r#"(() => {
        const sendLabels = ["傳送訊息", "Send message"];
        const buttons = [...document.querySelectorAll('button,[role="button"]')];
        for (const button of buttons) {
          const label = [
            button.getAttribute("aria-label"),
            button.getAttribute("title"),
            button.innerText,
            button.textContent
          ].filter(Boolean).join(" ");
          if (!sendLabels.some((v) => label.includes(v))) continue;
          if (button.disabled) return "disabled";
          button.click();
          return "true";
        }
        return "false";
    })()"#@
}

/// Presses the send button: prints `true`, `disabled`, or `false` when there is none.
pub fn build_gemini_click_send_js() -> (r: String)
    ensures
        r@ == spec_build_gemini_click_send_js(),
{
    String::from_str(r#"(() => {
        const sendLabels = ["傳送訊息", "Send message"];
        const buttons = [...document.querySelectorAll('button,[role="button"]')];
        for (const button of buttons) {
          const label = [
            button.getAttribute("aria-label"),
            button.getAttribute("title"),
            button.innerText,
            button.textContent
          ].filter(Boolean).join(" ");
          if (!sendLabels.some((v) => label.includes(v))) continue;
          if (button.disabled) return "disabled";
          button.click();
          return "true";
        }
        return "false";
    })()"#)
}

/// Reports the state of a deep research run (plan ready, running, complete), as JSON.
pub open spec fn spec_gemini_deep_research_poll_js() -> Seq<char> {
    r#"(() => {
        const text = document.body.innerText || "";
        const selectors = [
          ".model-response-text",
          ".message-content",
          ".markdown",
          "div[data-test-id='message-content']"
        ];
        const extractLastResponse = () => {
          for (const selector of selectors) {
            const elements = document.querySelectorAll(selector);
            if (!elements.length) continue;
            const last = elements[elements.length - 1];
            const content = (last.innerText || last.textContent || "").trim();
            if (content) return content;
          }
          return "";
        };

        if (text.includes("開始研究") || text.includes("Start research") || text.includes("編輯計畫") || text.includes("Edit plan")) {
          return JSON.stringify({
            status: "plan_ready",
            plan: extractLastResponse(),
            actions: ["confirm", "edit"]
          });
        }
        if (text.includes("研究中") || text.includes("Researching") || text.includes("Generating report")) {
          return JSON.stringify({ status: "running" });
        }

        const content = extractLastResponse();
        if (content) {
          return JSON.stringify({ status: "complete", response: content });
        }

        return JSON.stringify({ status: "running" });
    })()"#@
}

/// Reports the state of a deep research run (plan ready, running, complete), as JSON.
pub fn gemini_deep_research_poll_js() -> (r: String)
    ensures
        r@ == spec_gemini_deep_research_poll_js(),
{
    String::from_str(r#"(() => {
        const text = document.body.innerText || "";
        const selectors = [
          ".model-response-text",
          ".message-content",
          ".markdown",
          "div[data-test-id='message-content']"
        ];
        const extractLastResponse = () => {
          for (const selector of selectors) {
            const elements = document.querySelectorAll(selector);
            if (!elements.length) continue;
            const last = elements[elements.length - 1];
            const content = (last.innerText || last.textContent || "").trim();
            if (content) return content;
          }
          return "";
        };

        if (text.includes("開始研究") || text.includes("Start research") || text.includes("編輯計畫") || text.includes("Edit plan")) {
          return JSON.stringify({
            status: "plan_ready",
            plan: extractLastResponse(),
            actions: ["confirm", "edit"]
          });
        }
        if (text.includes("研究中") || text.includes("Researching") || text.includes("Generating report")) {
          return JSON.stringify({ status: "running" });
        }

        const content = extractLastResponse();
        if (content) {
          return JSON.stringify({ status: "complete", response: content });
        }

        return JSON.stringify({ status: "running" });
    })()"#)
}

} // verus!
