//! Scripts that drive Grok in a Safari tab.
use vstd::prelude::*;

use crate::applescript::{escape_js_string, quoted};

verus! {

broadcast use vstd::string::group_string_axioms;


/// Navigates the tab to Grok.
pub open spec fn spec_build_grok_go_home_js() -> Seq<char> {
    r#"(function() {
        window.location.href = "https://grok.com/";
        return "true";
    })()"#@
}

/// Navigates the tab to Grok.
pub fn build_grok_go_home_js() -> (r: String)
    ensures
        r@ == spec_build_grok_go_home_js(),
{
    String::from_str(r#"(function() {
        window.location.href = "https://grok.com/";
        return "true";
    })()"#)
}

/// Types `prompt` into the Grok prompt box.
pub open spec fn spec_build_grok_fill_input_js(prompt: Seq<char>) -> Seq<char> {
    r#"(() => {
            const input = document.querySelector(
              "textarea, textarea[placeholder], div[contenteditable='true'][role='textbox'], div[contenteditable='true']"
            );
            if (!input) throw new Error("grok input not found");
            input.focus();
            if ("value" in input) {
              input.value = "";
            } else {
              input.textContent = "";
            }
            document.execCommand("insertText", false, ""#@ + quoted(prompt) + r#"");
            return "true";
        })()"#@
}

/// Types `prompt` into the Grok prompt box.
pub fn build_grok_fill_input_js(prompt: &str) -> (r: String)
    ensures
        r@ == spec_build_grok_fill_input_js(prompt@),
{
    let mut s = String::new();
    s.append(r#"(() => {
            const input = document.querySelector(
              "textarea, textarea[placeholder], div[contenteditable='true'][role='textbox'], div[contenteditable='true']"
            );
            if (!input) throw new Error("grok input not found");
            input.focus();
            if ("value" in input) {
              input.value = "";
            } else {
              input.textContent = "";
            }
            document.execCommand("insertText", false, ""#);
    let e = escape_js_string(prompt);
    s.append(e.as_str());
    s.append(r#"");
            return "true";
        })()"#);
    assert(s@ =~= spec_build_grok_fill_input_js(prompt@));
    s
}

/// Presses the send button: prints `true`, `disabled`, or `false` when there is none.
pub open spec fn spec_build_grok_click_send_js() -> Seq<char> {
    r#"(() => {
        const sendLabels = ["send", "ask grok", "提交", "傳送", "送出"];
        const buttons = [...document.querySelectorAll('button,[role="button"]')];
        for (const button of buttons) {
          const label = [
            button.getAttribute("aria-label"),
            button.getAttribute("title"),
            button.getAttribute("data-testid"),
            button.innerText,
            button.textContent
          ].filter(Boolean).join(" ").toLowerCase();
          if (!sendLabels.some((v) => label.includes(v))) continue;
          if (button.disabled || button.getAttribute("aria-disabled") == "true") return "disabled";
          button.click();
          return "true";
        }
        return "false";
    })()"#@
}

/// Presses the send button: prints `true`, `disabled`, or `false` when there is none.
pub fn build_grok_click_send_js() -> (r: String)
    ensures
        r@ == spec_build_grok_click_send_js(),
{
    String::from_str(r#"(() => {
        const sendLabels = ["send", "ask grok", "提交", "傳送", "送出"];
        const buttons = [...document.querySelectorAll('button,[role="button"]')];
        for (const button of buttons) {
          const label = [
            button.getAttribute("aria-label"),
            button.getAttribute("title"),
            button.getAttribute("data-testid"),
            button.innerText,
            button.textContent
          ].filter(Boolean).join(" ").toLowerCase();
          if (!sendLabels.some((v) => label.includes(v))) continue;
          if (button.disabled || button.getAttribute("aria-disabled") == "true") return "disabled";
          button.click();
          return "true";
        }
        return "false";
    })()"#)
}

/// Reports the latest Grok answer, whether it is still being written, and the conversation URL, as JSON.
pub open spec fn spec_grok_response_extract_js() -> Seq<char> {
    r#"(() => {
        const getConversationUrl = () => {
          const url = window.location.href || "";
          if (/grok\.com\/share\//i.test(url)) return url;
          if (/grok\.com\/c\//i.test(url)) return url;
          if (/grok\.com\/history/i.test(url)) return url;
          return null;
        };
        const extractText = (node) => (node?.innerText || node?.textContent || "").trim();
        const selectors = [
          'article',
          '[data-testid*="message"]',
          '[data-testid*="conversation"]',
          'main .prose',
          'main article'
        ];

        let response = "";
        for (const selector of selectors) {
          const nodes = [...document.querySelectorAll(selector)];
          for (let i = nodes.length - 1; i >= 0; i--) {
            const text = extractText(nodes[i]);
            if (text) {
              response = text;
              break;
            }
          }
          if (response) break;
        }

        const controls = [...document.querySelectorAll('button,[role="button"]')]
          .map((button) => [
            button.getAttribute("aria-label"),
            button.getAttribute("title"),
            button.innerText,
            button.textContent
          ].filter(Boolean).join(" "))
          .join(" ");
        const isRunning = /Stop generating|Stop responding|停止生成|停止回應|Thinking\.\.\.|Generating/i.test(controls);

        return JSON.stringify({
          status: response ? (isRunning ? "running" : "complete") : "running",
          response,
          conversation_url: getConversationUrl()
        });
    })()"#@
}

/// Reports the latest Grok answer, whether it is still being written, and the conversation URL, as JSON.
pub fn grok_response_extract_js() -> (r: String)
    ensures
        r@ == spec_grok_response_extract_js(),
{
    String::from_str(r#"(() => {
        const getConversationUrl = () => {
          const url = window.location.href || "";
          if (/grok\.com\/share\//i.test(url)) return url;
          if (/grok\.com\/c\//i.test(url)) return url;
          if (/grok\.com\/history/i.test(url)) return url;
          return null;
        };
        const extractText = (node) => (node?.innerText || node?.textContent || "").trim();
        const selectors = [
          'article',
          '[data-testid*="message"]',
          '[data-testid*="conversation"]',
          'main .prose',
          'main article'
        ];

        let response = "";
        for (const selector of selectors) {
          const nodes = [...document.querySelectorAll(selector)];
          for (let i = nodes.length - 1; i >= 0; i--) {
            const text = extractText(nodes[i]);
            if (text) {
              response = text;
              break;
            }
          }
          if (response) break;
        }

        const controls = [...document.querySelectorAll('button,[role="button"]')]
          .map((button) => [
            button.getAttribute("aria-label"),
            button.getAttribute("title"),
            button.innerText,
            button.textContent
          ].filter(Boolean).join(" "))
          .join(" ");
        const isRunning = /Stop generating|Stop responding|停止生成|停止回應|Thinking\.\.\.|Generating/i.test(controls);

        return JSON.stringify({
          status: response ? (isRunning ? "running" : "complete") : "running",
          response,
          conversation_url: getConversationUrl()
        });
    })()"#)
}

/// Lists the Grok conversations of the sidebar, as JSON.
pub open spec fn spec_grok_list_conversations_js() -> Seq<char> {
    r#"(() => {
        const items = Array.from(document.querySelectorAll('a[href^="/c/"], a.peer\\/menu-button[href^="/c/"]'));
        const convos = [];
        const seen = new Set();
        for (const a of items) {
          const href = a.getAttribute("href") || "";
          const title = (a.innerText || a.textContent || a.getAttribute("aria-label") || "").trim();
          if (!href || !title) continue;
          const url = href.startsWith("http") ? href : "https://grok.com" + href;
          if (!/grok\.com\/c\//i.test(url)) continue;
          if (seen.has(url)) continue;
          seen.add(url);
          convos.push({ title, url });
        }
        return JSON.stringify(convos);
    })()"#@
}

/// Lists the Grok conversations of the sidebar, as JSON.
pub fn grok_list_conversations_js() -> (r: String)
    ensures
        r@ == spec_grok_list_conversations_js(),
{
    String::from_str(r#"(() => {
        const items = Array.from(document.querySelectorAll('a[href^="/c/"], a.peer\\/menu-button[href^="/c/"]'));
        const convos = [];
        const seen = new Set();
        for (const a of items) {
          const href = a.getAttribute("href") || "";
          const title = (a.innerText || a.textContent || a.getAttribute("aria-label") || "").trim();
          if (!href || !title) continue;
          const url = href.startsWith("http") ? href : "https://grok.com" + href;
          if (!/grok\.com\/c\//i.test(url)) continue;
          if (seen.has(url)) continue;
          seen.add(url);
          convos.push({ title, url });
        }
        return JSON.stringify(convos);
    })()"#)
}

} // verus!
