//! Scripts that drive ChatGPT in a Safari tab, and the reading of what its
//! image view reports.
use vstd::prelude::*;

use crate::applescript::{escape_js_string, quoted};

verus! {

broadcast use vstd::string::group_string_axioms;


/// Navigates the tab to a new ChatGPT chat.
pub open spec fn spec_build_chatgpt_go_home_js() -> Seq<char> {
    r#"(function() {
        window.location.href = "https://chatgpt.com/";
        return "true";
    })()"#@
}

/// Navigates the tab to a new ChatGPT chat.
pub fn build_chatgpt_go_home_js() -> (r: String)
    ensures
        r@ == spec_build_chatgpt_go_home_js(),
{
    String::from_str(r#"(function() {
        window.location.href = "https://chatgpt.com/";
        return "true";
    })()"#)
}

/// Types `prompt` into the ChatGPT composer.
pub open spec fn spec_build_chatgpt_fill_input_js(prompt: Seq<char>) -> Seq<char> {
    r##"(() => {
            const input = document.querySelector(
              "#prompt-textarea, textarea[data-id], div[contenteditable='true'][role='textbox'], div[contenteditable='true']"
            );
            if (!input) throw new Error("chatgpt input not found");
            input.focus();
            if ("value" in input) {
              input.value = "";
            } else {
              input.textContent = "";
            }
            document.execCommand("insertText", false, ""##@ + quoted(prompt) + r#"");
            return "true";
        })()"#@
}

/// Types `prompt` into the ChatGPT composer.
pub fn build_chatgpt_fill_input_js(prompt: &str) -> (r: String)
    ensures
        r@ == spec_build_chatgpt_fill_input_js(prompt@),
{
    let mut s = String::new();
    s.append(r##"(() => {
            const input = document.querySelector(
              "#prompt-textarea, textarea[data-id], div[contenteditable='true'][role='textbox'], div[contenteditable='true']"
            );
            if (!input) throw new Error("chatgpt input not found");
            input.focus();
            if ("value" in input) {
              input.value = "";
            } else {
              input.textContent = "";
            }
            document.execCommand("insertText", false, ""##);
    let e = escape_js_string(prompt);
    s.append(e.as_str());
    s.append(r#"");
            return "true";
        })()"#);
    assert(s@ =~= spec_build_chatgpt_fill_input_js(prompt@));
    s
}

/// Presses the send button: prints `true`, `disabled`, or `false` when there is none.
pub open spec fn spec_build_chatgpt_click_send_js() -> Seq<char> {
    r#"(() => {
        const sendLabels = ["Send prompt", "Send message", "傳送訊息", "傳送提示"];
        const buttons = [...document.querySelectorAll('button,[role="button"]')];
        for (const button of buttons) {
          const label = [
            button.getAttribute("aria-label"),
            button.getAttribute("title"),
            button.getAttribute("data-testid"),
            button.innerText,
            button.textContent
          ].filter(Boolean).join(" ");
          if (!sendLabels.some((v) => label.includes(v))) continue;
          if (button.disabled || button.getAttribute("aria-disabled") == "true") return "disabled";
          button.click();
          return "true";
        }
        return "false";
    })()"#@
}

/// Presses the send button: prints `true`, `disabled`, or `false` when there is none.
pub fn build_chatgpt_click_send_js() -> (r: String)
    ensures
        r@ == spec_build_chatgpt_click_send_js(),
{
    String::from_str(r#"(() => {
        const sendLabels = ["Send prompt", "Send message", "傳送訊息", "傳送提示"];
        const buttons = [...document.querySelectorAll('button,[role="button"]')];
        for (const button of buttons) {
          const label = [
            button.getAttribute("aria-label"),
            button.getAttribute("title"),
            button.getAttribute("data-testid"),
            button.innerText,
            button.textContent
          ].filter(Boolean).join(" ");
          if (!sendLabels.some((v) => label.includes(v))) continue;
          if (button.disabled || button.getAttribute("aria-disabled") == "true") return "disabled";
          button.click();
          return "true";
        }
        return "false";
    })()"#)
}

/// Reports the latest answer, whether it is still being written, and the conversation URL, as JSON.
pub open spec fn spec_chatgpt_response_extract_js() -> Seq<char> {
    r#"(() => {
        const getConversationUrl = () => {
          const url = window.location.href || "";
          return /chatgpt\.com\/c\/[a-z0-9-]+/i.test(url) ? url : null;
        };
        const extractText = (node) => (node?.innerText || node?.textContent || "").trim();
        const selectors = [
          '[data-message-author-role="assistant"]',
          'article[data-testid^="conversation-turn-"]',
          'main article'
        ];

        let response = "";
        for (const selector of selectors) {
          const nodes = [...document.querySelectorAll(selector)];
          for (let i = nodes.length - 1; i >= 0; i--) {
            const text = extractText(nodes[i]);
            if (text) {
              response = text;
              break;
            }
          }
          if (response) break;
        }

        const controls = [...document.querySelectorAll('button,[role="button"]')]
          .map((button) => [
            button.getAttribute("aria-label"),
            button.getAttribute("title"),
            button.innerText,
            button.textContent
          ].filter(Boolean).join(" "))
          .join(" ");
        const isRunning = /Stop generating|Stop streaming|停止生成|停止串流/.test(controls);

        return JSON.stringify({
          status: response ? (isRunning ? "running" : "complete") : "running",
          response,
          conversation_url: getConversationUrl()
        });
    })()"#@
}

/// Reports the latest answer, whether it is still being written, and the conversation URL, as JSON.
pub fn chatgpt_response_extract_js() -> (r: String)
    ensures
        r@ == spec_chatgpt_response_extract_js(),
{
    String::from_str(r#"(() => {
        const getConversationUrl = () => {
          const url = window.location.href || "";
          return /chatgpt\.com\/c\/[a-z0-9-]+/i.test(url) ? url : null;
        };
        const extractText = (node) => (node?.innerText || node?.textContent || "").trim();
        const selectors = [
          '[data-message-author-role="assistant"]',
          'article[data-testid^="conversation-turn-"]',
          'main article'
        ];

        let response = "";
        for (const selector of selectors) {
          const nodes = [...document.querySelectorAll(selector)];
          for (let i = nodes.length - 1; i >= 0; i--) {
            const text = extractText(nodes[i]);
            if (text) {
              response = text;
              break;
            }
          }
          if (response) break;
        }

        const controls = [...document.querySelectorAll('button,[role="button"]')]
          .map((button) => [
            button.getAttribute("aria-label"),
            button.getAttribute("title"),
            button.innerText,
            button.textContent
          ].filter(Boolean).join(" "))
          .join(" ");
        const isRunning = /Stop generating|Stop streaming|停止生成|停止串流/.test(controls);

        return JSON.stringify({
          status: response ? (isRunning ? "running" : "complete") : "running",
          response,
          conversation_url: getConversationUrl()
        });
    })()"#)
}

/// Reports the generated images of the conversation (URL and whether each has loaded), the status and the conversation URL, as JSON.
pub open spec fn spec_chatgpt_image_list_js() -> Seq<char> {
    r#"(() => {
        const getConversationUrl = () => {
          const url = window.location.href || "";
          return /chatgpt\.com\/c\/[a-z0-9-]+/i.test(url) ? url : null;
        };
        const candidates = [...document.querySelectorAll("img")]
          .map((img) => ({
            alt: img.alt || "",
            src: img.src || "",
            width: img.naturalWidth || img.width || 0,
            height: img.naturalHeight || img.height || 0,
            loaded: Boolean(img.complete && img.naturalWidth > 0 && img.naturalHeight > 0)
          }))
          .filter((img) => {
            if (!img.src) return false;
            if (!/^https:\/\/chatgpt\.com\/backend-api\/estuary\/content/.test(img.src)) return false;
            if (img.width < 256 || img.height < 256) return false;
            return true;
          });

        const deduped = [];
        const seen = new Set();
        for (const img of candidates) {
          if (seen.has(img.src)) continue;
          seen.add(img.src);
          deduped.push({ url: img.src, loaded: img.loaded });
        }

        const controls = [...document.querySelectorAll('button,[role="button"]')]
          .map((button) => [
            button.getAttribute("aria-label"),
            button.getAttribute("title"),
            button.innerText,
            button.textContent
          ].filter(Boolean).join(" "))
          .join(" ");
        const isRunning = /Stop generating|Stop streaming|停止生成|停止串流/.test(controls);

        return JSON.stringify({
          status: isRunning ? "running" : "complete",
          conversation_url: getConversationUrl(),
          images: deduped
        });
    })()"#@
}

/// Reports the generated images of the conversation (URL and whether each has loaded), the status and the conversation URL, as JSON.
pub fn chatgpt_image_list_js() -> (r: String)
    ensures
        r@ == spec_chatgpt_image_list_js(),
{
    String::from_str(r#"(() => {
        const getConversationUrl = () => {
          const url = window.location.href || "";
          return /chatgpt\.com\/c\/[a-z0-9-]+/i.test(url) ? url : null;
        };
        const candidates = [...document.querySelectorAll("img")]
          .map((img) => ({
            alt: img.alt || "",
            src: img.src || "",
            width: img.naturalWidth || img.width || 0,
            height: img.naturalHeight || img.height || 0,
            loaded: Boolean(img.complete && img.naturalWidth > 0 && img.naturalHeight > 0)
          }))
          .filter((img) => {
            if (!img.src) return false;
            if (!/^https:\/\/chatgpt\.com\/backend-api\/estuary\/content/.test(img.src)) return false;
            if (img.width < 256 || img.height < 256) return false;
            return true;
          });

        const deduped = [];
        const seen = new Set();
        for (const img of candidates) {
          if (seen.has(img.src)) continue;
          seen.add(img.src);
          deduped.push({ url: img.src, loaded: img.loaded });
        }

        const controls = [...document.querySelectorAll('button,[role="button"]')]
          .map((button) => [
            button.getAttribute("aria-label"),
            button.getAttribute("title"),
            button.innerText,
            button.textContent
          ].filter(Boolean).join(" "))
          .join(" ");
        const isRunning = /Stop generating|Stop streaming|停止生成|停止串流/.test(controls);

        return JSON.stringify({
          status: isRunning ? "running" : "complete",
          conversation_url: getConversationUrl(),
          images: deduped
        });
    })()"#)
}

/// Reads the image at `url` from the page as base64 PNG data.
pub open spec fn spec_chatgpt_image_extract_js(url: Seq<char>) -> Seq<char> {
    r#"(() => {
            const target = ""#@ + quoted(url) + r#"";
            if (!target) return "";
            const img = [...document.querySelectorAll("img")].find((node) => (node.src || "") === target);
            if (!img) return "";
            const canvas = document.createElement("canvas");
            canvas.width = img.naturalWidth || img.width;
            canvas.height = img.naturalHeight || img.height;
            const ctx = canvas.getContext("2d");
            if (!ctx) return "";
            ctx.drawImage(img, 0, 0);
            const dataUrl = canvas.toDataURL("image/png");
            const idx = dataUrl.indexOf(",");
            return idx >= 0 ? dataUrl.substring(idx + 1) : "";
        })()"#@
}

/// Reads the image at `url` from the page as base64 PNG data.
pub fn chatgpt_image_extract_js(url: &str) -> (r: String)
    ensures
        r@ == spec_chatgpt_image_extract_js(url@),
{
    let mut s = String::new();
    s.append(r#"(() => {
            const target = ""#);
    let e = escape_js_string(url);
    s.append(e.as_str());
    s.append(r#"";
            if (!target) return "";
            const img = [...document.querySelectorAll("img")].find((node) => (node.src || "") === target);
            if (!img) return "";
            const canvas = document.createElement("canvas");
            canvas.width = img.naturalWidth || img.width;
            canvas.height = img.naturalHeight || img.height;
            const ctx = canvas.getContext("2d");
            if (!ctx) return "";
            ctx.drawImage(img, 0, 0);
            const dataUrl = canvas.toDataURL("image/png");
            const idx = dataUrl.indexOf(",");
            return idx >= 0 ? dataUrl.substring(idx + 1) : "";
        })()"#);
    assert(s@ =~= spec_chatgpt_image_extract_js(url@));
    s
}

/// Lists the conversations of the history sidebar, as JSON.
pub open spec fn spec_chatgpt_list_conversations_js() -> Seq<char> {
    r#"(() => {
        const navLabels = [
          "聊天歷程紀錄",
          "Chat history",
          "Conversation history"
        ];
        const nav = navLabels
          .map((label) => document.querySelector(`nav[aria-label="${label}"]`))
          .find(Boolean) || document.querySelector('nav[role="navigation"]');
        if (!nav) return JSON.stringify([]);
        const recentLabels = ["最近", "Recent"];
        const recentButton = Array.from(nav.querySelectorAll("button"))
          .find((button) => recentLabels.includes((button.innerText || button.textContent || "").trim()));
        if (recentButton && recentButton.getAttribute("aria-expanded") === "false") {
          recentButton.click();
        }
        const items = Array.from(nav.querySelectorAll('a[href^="/c/"]'));
        const convos = [];
        const seen = new Set();
        for (const a of items) {
          const href = a.getAttribute("href") || "";
          const title = (a.innerText || a.textContent || a.getAttribute("aria-label") || "").trim();
          if (!href || !title || seen.has(href)) continue;
          seen.add(href);
          convos.push({ title, url: "https://chatgpt.com" + href });
        }
        return JSON.stringify(convos);
    })()"#@
}

/// Lists the conversations of the history sidebar, as JSON.
pub fn chatgpt_list_conversations_js() -> (r: String)
    ensures
        r@ == spec_chatgpt_list_conversations_js(),
{
    String::from_str(r#"(() => {
        const navLabels = [
          "聊天歷程紀錄",
          "Chat history",
          "Conversation history"
        ];
        const nav = navLabels
          .map((label) => document.querySelector(`nav[aria-label="${label}"]`))
          .find(Boolean) || document.querySelector('nav[role="navigation"]');
        if (!nav) return JSON.stringify([]);
        const recentLabels = ["最近", "Recent"];
        const recentButton = Array.from(nav.querySelectorAll("button"))
          .find((button) => recentLabels.includes((button.innerText || button.textContent || "").trim()));
        if (recentButton && recentButton.getAttribute("aria-expanded") === "false") {
          recentButton.click();
        }
        const items = Array.from(nav.querySelectorAll('a[href^="/c/"]'));
        const convos = [];
        const seen = new Set();
        for (const a of items) {
          const href = a.getAttribute("href") || "";
          const title = (a.innerText || a.textContent || a.getAttribute("aria-label") || "").trim();
          if (!href || !title || seen.has(href)) continue;
          seen.add(href);
          convos.push({ title, url: "https://chatgpt.com" + href });
        }
        return JSON.stringify(convos);
    })()"#)
}

} // verus!
