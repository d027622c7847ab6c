//! Scrolling a tab, and reading the new content that scrolling reveals.
use vstd::prelude::*;

use crate::applescript::{escape_js_string, quoted};
use crate::error::{MacosError, MacosErrorView};
use crate::safari::types::{SafariScrollReadSnapshot};
use crate::text::{
    chars_eq, chars_of, push_decimal, decimal, slice_chars, split, split_chars, string_of, trim, trim_chars,
    views,
};

verus! {

broadcast use vstd::string::group_string_axioms;

/// The key by which blocks of text are told apart: their first 120 characters.
pub open spec fn fingerprint(t: Seq<char>) -> Seq<char> {
    if t.len() <= 120 {
        t
    } else {
        t.take(120)
    }
}

pub fn block_fingerprint(text: &[char]) -> (r: Vec<char>)
    ensures
        r@ == fingerprint(text@),
{
    if text.len() <= 120 {
        slice_chars(text, 0, text.len())
    } else {
        slice_chars(text, 0, 120)
    }
}

/// Whether some block of `list` has the fingerprint `fp`.
pub open spec fn has_fingerprint(list: Seq<Seq<char>>, fp: Seq<char>) -> bool {
    exists|i: int| 0 <= i < list.len() && #[trigger] fingerprint(list[i]) == fp
}

/// The trimmed, non-empty blocks of `raw` whose fingerprint is neither among
/// those of `seen` nor among those of an earlier block kept, in order.
pub open spec fn fresh_blocks(raw: Seq<Seq<char>>, seen: Seq<Seq<char>>) -> Seq<Seq<char>>
    decreases raw.len(),
{
    if raw.len() == 0 {
        seq![]
    } else {
        let r = fresh_blocks(raw.drop_last(), seen);
        let b = trim(raw.last());
        if b.len() == 0 || has_fingerprint(seen, fingerprint(b)) || has_fingerprint(r, fingerprint(b)) {
            r
        } else {
            r.push(b)
        }
    }
}

fn has_fingerprint_exec(list: &Vec<Vec<char>>, fp: &[char]) -> (r: bool)
    ensures
        r == has_fingerprint(views(list@), fp@),
{
    let ghost lv = views(list@);
    let mut i: usize = 0;
    while i < list.len()
        invariant
            i <= list.len(),
            lv == views(list@),
            forall|j: int| 0 <= j < i ==> #[trigger] fingerprint(lv[j]) != fp@,
        decreases list.len() - i,
    {
        let f = block_fingerprint(list[i].as_slice());
        assert(lv[i as int] == list@[i as int]@);
        if chars_eq(f.as_slice(), fp) {
            return true;
        }
        i = i + 1;
    }
    false
}

/// The blocks of `raw` that are new with respect to `seen`.
pub fn fresh_blocks_exec(raw: &Vec<Vec<char>>, seen: &Vec<Vec<char>>) -> (r: Vec<Vec<char>>)
    ensures
        views(r@) == fresh_blocks(views(raw@), views(seen@)),
{
    let ghost rv = views(raw@);
    let mut out: Vec<Vec<char>> = Vec::new();
    let mut i: usize = 0;
    while i < raw.len()
        invariant
            i <= raw.len(),
            rv == views(raw@),
            views(out@) == fresh_blocks(rv.take(i as int), views(seen@)),
        decreases raw.len() - i,
    {
        proof {
            assert(rv.take(i + 1).drop_last() =~= rv.take(i as int));
            assert(rv.take(i + 1).last() == raw@[i as int]@);
        }
        let b = trim_chars(raw[i].as_slice());
        let fp = block_fingerprint(b.as_slice());
        if b.len() > 0 && !has_fingerprint_exec(seen, fp.as_slice()) && !has_fingerprint_exec(&out, fp.as_slice()) {
            let ghost before = out@;
            out.push(b);
            assert(views(out@) =~= views(before).push(b@));
        }
        i = i + 1;
    }
    assert(rv.take(raw.len() as int) =~= rv);
    out
}

fn strings_to_chars(v: &Vec<String>) -> (r: Vec<Vec<char>>)
    ensures
        views(r@) == string_views(v@),
{
    let mut r: Vec<Vec<char>> = Vec::new();
    let mut i: usize = 0;
    while i < v.len()
        invariant
            i <= v.len(),
            r.len() == i,
            forall|j: int| 0 <= j < i ==> #[trigger] r@[j]@ == v@[j]@,
        decreases v.len() - i,
    {
        r.push(chars_of(v[i].as_str()));
        i = i + 1;
    }
    assert(views(r@) =~= string_views(v@));
    r
}

fn chars_to_strings(v: &Vec<Vec<char>>) -> (r: Vec<String>)
    ensures
        string_views(r@) == views(v@),
{
    let mut r: Vec<String> = Vec::new();
    let mut i: usize = 0;
    while i < v.len()
        invariant
            i <= v.len(),
            r.len() == i,
            forall|j: int| 0 <= j < i ==> #[trigger] r@[j]@ == v@[j]@,
        decreases v.len() - i,
    {
        r.push(string_of(v[i].as_slice()));
        i = i + 1;
    }
    assert(string_views(r@) =~= views(v@));
    r
}

/// The views of a list of strings.
pub open spec fn string_views(v: Seq<String>) -> Seq<Seq<char>> {
    v.map_values(|s: String| s@)
}

/// The blocks of page text (paragraphs split by blank lines) not yet seen.
pub open spec fn spec_new_content_blocks(content: Seq<char>, seen: Seq<Seq<char>>) -> Seq<Seq<char>> {
    fresh_blocks(split(content, seq!['\n', '\n']), seen)
}

pub fn scroll_read_new_content_blocks(content: &str, seen: &Vec<String>) -> (r: Vec<String>)
    ensures
        string_views(r@) == spec_new_content_blocks(content@, string_views(seen@)),
{
    let c = chars_of(content);
    let sep: [char; 2] = ['\n', '\n'];
    assert(sep@ =~= seq!['\n', '\n']);
    let raw = split_chars(c.as_slice(), &sep);
    let seen_chars = strings_to_chars(seen);
    let fresh = fresh_blocks_exec(&raw, &seen_chars);
    chars_to_strings(&fresh)
}

/// The new blocks of a poll: the structured blocks the page reported, when it
/// reported any, otherwise the paragraphs of its text.
pub open spec fn spec_snapshot_blocks(blocks: Seq<Seq<char>>, content: Seq<char>, seen: Seq<Seq<char>>) -> Seq<Seq<char>> {
    if blocks.len() > 0 {
        fresh_blocks(blocks, seen)
    } else {
        spec_new_content_blocks(content, seen)
    }
}

pub fn scroll_read_snapshot_blocks(snapshot: &SafariScrollReadSnapshot, seen: &Vec<String>) -> (r: Vec<String>)
    ensures
        string_views(r@) == spec_snapshot_blocks(
            string_views(snapshot.blocks@),
            snapshot.content@,
            string_views(seen@),
        ),
{
    if snapshot.blocks.len() > 0 {
        let raw = strings_to_chars(&snapshot.blocks);
        let seen_chars = strings_to_chars(seen);
        let fresh = fresh_blocks_exec(&raw, &seen_chars);
        chars_to_strings(&fresh)
    } else {
        scroll_read_new_content_blocks(snapshot.content.as_str(), seen)
    }
}

/// Whether a poll shows new content: more items, or different text.
pub open spec fn spec_detects_new_content(previous_text: Seq<char>, previous_count: usize, current_text: Seq<char>, current_count: usize) -> bool {
    current_count > previous_count || trim(current_text) != trim(previous_text)
}

pub fn scroll_read_detects_new_content(
    previous_text: &str,
    previous_count: usize,
    current_text: &str,
    current_count: usize,
) -> (r: bool)
    ensures
        r == spec_detects_new_content(previous_text@, previous_count, current_text@, current_count),
{
    if current_count > previous_count {
        return true;
    }
    let a = trim_chars(chars_of(current_text).as_slice());
    let b = trim_chars(chars_of(previous_text).as_slice());
    !chars_eq(a.as_slice(), b.as_slice())
}

/// The number of pixels to scroll: `amount` without its sign, 500 by default.
pub open spec fn scroll_pixels(amount: Option<i64>) -> nat {
    let a = match amount {
        Some(a) => a as int,
        None => 500,
    };
    if a < 0 {
        (-a) as nat
    } else {
        a as nat
    }
}

fn unsigned_abs(a: i64) -> (r: u64)
    ensures
        r == (if a < 0 { -(a as int) } else { a as int }),
{
    if a >= 0 {
        a as u64
    } else if a == i64::MIN {
        0x8000_0000_0000_0000u64
    } else {
        (-a) as u64
    }
}

pub open spec fn spec_scroll_js(direction: Seq<char>, amount: Option<i64>) -> Result<Seq<char>, MacosErrorView> {
    let position = "); return JSON.stringify({ x: Math.round(window.scrollX), y: Math.round(window.scrollY) }); })()"@;
    if direction == "down"@ {
        Ok("(function(){ window.scrollBy(0, "@ + decimal(scroll_pixels(amount)) + position)
    } else if direction == "up"@ {
        Ok("(function(){ window.scrollBy(0, -"@ + decimal(scroll_pixels(amount)) + position)
    } else if direction == "top"@ {
        Ok("(function(){ window.scrollTo(0, 0); return JSON.stringify({ x: 0, y: 0 }); })()"@)
    } else if direction == "bottom"@ {
        Ok("(function(){ window.scrollTo(0, document.body.scrollHeight); return JSON.stringify({ x: Math.round(window.scrollX), y: Math.round(window.scrollY) }); })()"@)
    } else {
        Err(MacosErrorView::Other("unknown scroll direction: "@ + direction + ". Use: up, down, top, bottom"@))
    }
}

/// The JavaScript that scrolls in `direction` (`down`, `up`, `top` or `bottom`)
/// and returns the new scroll position as JSON.
pub fn scroll_js(direction: &str, amount: Option<i64>) -> (r: Result<String, MacosError>)
    ensures
        crate::error::result_view(r) == spec_scroll_js(direction@, amount),
{
    let d = chars_of(direction);
    let pixels = unsigned_abs(match amount {
        Some(a) => a,
        None => 500,
    });
    if chars_eq(d.as_slice(), chars_of("down").as_slice()) {
        let mut s = String::from_str("(function(){ window.scrollBy(0, ");
        push_decimal(&mut s, pixels as u128);
        s.append("); return JSON.stringify({ x: Math.round(window.scrollX), y: Math.round(window.scrollY) }); })()");
        Ok(s)
    } else if chars_eq(d.as_slice(), chars_of("up").as_slice()) {
        let mut s = String::from_str("(function(){ window.scrollBy(0, -");
        push_decimal(&mut s, pixels as u128);
        s.append("); return JSON.stringify({ x: Math.round(window.scrollX), y: Math.round(window.scrollY) }); })()");
        Ok(s)
    } else if chars_eq(d.as_slice(), chars_of("top").as_slice()) {
        Ok(String::from_str("(function(){ window.scrollTo(0, 0); return JSON.stringify({ x: 0, y: 0 }); })()"))
    } else if chars_eq(d.as_slice(), chars_of("bottom").as_slice()) {
        Ok(String::from_str("(function(){ window.scrollTo(0, document.body.scrollHeight); return JSON.stringify({ x: Math.round(window.scrollX), y: Math.round(window.scrollY) }); })()"))
    } else {
        let mut s = String::from_str("unknown scroll direction: ");
        s.append(direction);
        s.append(". Use: up, down, top, bottom");
        Err(MacosError::Other(s))
    }
}

/// The element whose text is read: the first match of `selector`, or the body.
pub open spec fn spec_scroll_scope(selector: Option<Seq<char>>) -> Seq<char> {
    match selector {
        Some(sel) => "document.querySelector(\""@ + quoted(sel) + "\")"@,
        None => "document.body"@,
    }
}

fn scroll_scope(selector: Option<&str>) -> (r: String)
    ensures
        r@ == spec_scroll_scope(crate::safari::types::opt_view(selector)),
{
    match selector {
        Some(sel) => {
            let mut s = String::from_str("document.querySelector(\"");
            let e = escape_js_string(sel);
            s.append(e.as_str());
            s.append("\")");
            s
        },
        None => String::from_str("document.body"),
    }
}

pub open spec fn spec_scroll_read_poll_js(selector: Option<Seq<char>>) -> Seq<char> {
    r"(() => {
            const scope = "@ + spec_scroll_scope(selector) + r#";
            if (!scope) return JSON.stringify({ item_count: 0, content: "", blocks: [] });
            const text = (scope.innerText || scope.textContent || "").trim();
            const isVisible = (node) => {
              const rect = node.getBoundingClientRect();
              return rect.bottom > 0 && rect.top < window.innerHeight;
            };
            let itemNodes = [
              ...scope.querySelectorAll("shreddit-post"),
              ...scope.querySelectorAll("[data-testid='post-container']"),
              ...scope.querySelectorAll("article"),
              ...scope.querySelectorAll("[role='article']")
            ];
            if (itemNodes.length === 0) {
              const MIN_TEXT = 50;
              const MAX_TEXT = 3000;
              itemNodes = [...scope.querySelectorAll("div")].filter(el => {
                const t = (el.innerText || "").trim();
                if (t.length < MIN_TEXT || t.length > MAX_TEXT) return false;
                const kids = el.querySelectorAll(":scope > div");
                for (const c of kids) {
                  if ((c.innerText || "").trim().length > t.length * 0.8) return false;
                }
                return true;
              });
            }
            const visibleItemNodes = itemNodes.filter(isVisible);
            const blocks = [];
            const seen = new Set();
            for (const node of visibleItemNodes) {
              const block = (node.innerText || node.textContent || "").trim();
              if (!block || block.length < 20) continue;
              const key = block.slice(0, 120);
              if (seen.has(key)) continue;
              seen.add(key);
              blocks.push(block);
            }
            const itemCount = visibleItemNodes.length
              || scope.querySelectorAll("li").length
              || scope.children.length
              || 0;
            return JSON.stringify({
              item_count: itemCount,
              content: text,
              blocks
            });
        })()"#@
}

/// JavaScript that reports the visible items of the scope: their count, the
/// scope's text, and the text of each visible item as a block.
pub fn scroll_read_poll_js(selector: Option<&str>) -> (r: String)
    ensures
        r@ == spec_scroll_read_poll_js(crate::safari::types::opt_view(selector)),
{
    let mut s = String::new();
    s.append(r"(() => {
            const scope = ");
    let scope = scroll_scope(selector);
    s.append(scope.as_str());
    s.append(r#";
            if (!scope) return JSON.stringify({ item_count: 0, content: "", blocks: [] });
            const text = (scope.innerText || scope.textContent || "").trim();
            const isVisible = (node) => {
              const rect = node.getBoundingClientRect();
              return rect.bottom > 0 && rect.top < window.innerHeight;
            };
            let itemNodes = [
              ...scope.querySelectorAll("shreddit-post"),
              ...scope.querySelectorAll("[data-testid='post-container']"),
              ...scope.querySelectorAll("article"),
              ...scope.querySelectorAll("[role='article']")
            ];
            if (itemNodes.length === 0) {
              const MIN_TEXT = 50;
              const MAX_TEXT = 3000;
              itemNodes = [...scope.querySelectorAll("div")].filter(el => {
                const t = (el.innerText || "").trim();
                if (t.length < MIN_TEXT || t.length > MAX_TEXT) return false;
                const kids = el.querySelectorAll(":scope > div");
                for (const c of kids) {
                  if ((c.innerText || "").trim().length > t.length * 0.8) return false;
                }
                return true;
              });
            }
            const visibleItemNodes = itemNodes.filter(isVisible);
            const blocks = [];
            const seen = new Set();
            for (const node of visibleItemNodes) {
              const block = (node.innerText || node.textContent || "").trim();
              if (!block || block.length < 20) continue;
              const key = block.slice(0, 120);
              if (seen.has(key)) continue;
              seen.add(key);
              blocks.push(block);
            }
            const itemCount = visibleItemNodes.length
              || scope.querySelectorAll("li").length
              || scope.children.length
              || 0;
            return JSON.stringify({
              item_count: itemCount,
              content: text,
              blocks
            });
        })()"#);
    assert(s@ =~= spec_scroll_read_poll_js(crate::safari::types::opt_view(selector)));
    s
}

/// No two blocks share a fingerprint.
pub open spec fn distinct_fingerprints(blocks: Seq<Seq<char>>) -> bool {
    forall|i: int, j: int| 0 <= i < j < blocks.len() ==> fingerprint(#[trigger] blocks[i]) != fingerprint(#[trigger] blocks[j])
}

/// The blocks a poll offers: the structured blocks the page reported, when it
/// reported any, otherwise the paragraphs of its text.
pub open spec fn snapshot_raw(blocks: Seq<Seq<char>>, content: Seq<char>) -> Seq<Seq<char>> {
    if blocks.len() > 0 {
        blocks
    } else {
        split(content, seq!['\n', '\n'])
    }
}

/// The later blocks of blocks with distinct fingerprints have distinct
/// fingerprints, and are not empty when none is.
pub proof fn lemma_tail_distinct(head: Seq<Seq<char>>, tail: Seq<Seq<char>>)
    requires
        distinct_fingerprints(head + tail),
        forall|k: int| 0 <= k < (head + tail).len() ==> (#[trigger] (head + tail)[k]).len() > 0,
    ensures
        distinct_fingerprints(tail),
        forall|k: int| 0 <= k < tail.len() ==> (#[trigger] tail[k]).len() > 0,
{
    let all = head + tail;
    assert forall|i: int, j: int| 0 <= i < j < tail.len() implies fingerprint(#[trigger] tail[i]) != fingerprint(#[trigger] tail[j]) by {
        assert(all[head.len() + i] == tail[i] && all[head.len() + j] == tail[j]);
    }
    assert forall|k: int| 0 <= k < tail.len() implies (#[trigger] tail[k]).len() > 0 by {
        assert(all[head.len() + k] == tail[k]);
    }
}

/// Blocks seen so far, with new blocks after them: when the seen blocks have
/// distinct fingerprints, so have all, and the new ones are not empty.
pub proof fn lemma_seen_stays_distinct(seen: Seq<Seq<char>>, raw: Seq<Seq<char>>)
    requires
        distinct_fingerprints(seen),
    ensures
        distinct_fingerprints(seen + fresh_blocks(raw, seen)),
        forall|i: int| 0 <= i < fresh_blocks(raw, seen).len() ==> (#[trigger] fresh_blocks(raw, seen)[i]).len() > 0,
{
    lemma_fresh_blocks_are_new(raw, seen);
    let f = fresh_blocks(raw, seen);
    let all = seen + f;
    assert forall|i: int, j: int| 0 <= i < j < all.len() implies fingerprint(#[trigger] all[i]) != fingerprint(#[trigger] all[j]) by {
        if j < seen.len() {
            assert(all[i] == seen[i] && all[j] == seen[j]);
        } else if i >= seen.len() {
            assert(all[i] == f[i - seen.len()] && all[j] == f[j - seen.len()]);
        } else {
            assert(all[i] == seen[i] && all[j] == f[j - seen.len()]);
            assert(!has_fingerprint(seen, fingerprint(f[j - seen.len()])));
            if fingerprint(seen[i]) == fingerprint(f[j - seen.len()]) {
                assert(has_fingerprint(seen, fingerprint(f[j - seen.len()])));
            }
        }
    }
}

/// The blocks that scrolling reports as new are new: each is trimmed text
/// that is not empty, none shares its fingerprint with a block seen before,
/// and no two of them share a fingerprint.
pub proof fn lemma_fresh_blocks_are_new(raw: Seq<Seq<char>>, seen: Seq<Seq<char>>)
    ensures
        forall|i: int| 0 <= i < fresh_blocks(raw, seen).len() ==> (#[trigger] fresh_blocks(raw, seen)[i]).len() > 0
            && !has_fingerprint(seen, fingerprint(fresh_blocks(raw, seen)[i])),
        forall|i: int, j: int| 0 <= i < j < fresh_blocks(raw, seen).len() ==> fingerprint(#[trigger] fresh_blocks(raw, seen)[i])
            != fingerprint(#[trigger] fresh_blocks(raw, seen)[j]),
    decreases raw.len(),
{
    if raw.len() > 0 {
        lemma_fresh_blocks_are_new(raw.drop_last(), seen);
        let r = fresh_blocks(raw.drop_last(), seen);
        let b = trim(raw.last());
        if !(b.len() == 0 || has_fingerprint(seen, fingerprint(b)) || has_fingerprint(r, fingerprint(b))) {
            let f = r.push(b);
            assert(fresh_blocks(raw, seen) == f);
            assert forall|i: int, j: int| 0 <= i < j < f.len() implies fingerprint(#[trigger] f[i]) != fingerprint(#[trigger] f[j]) by {
                if j == r.len() {
                    assert(f[i] == r[i]);
                    if fingerprint(r[i]) == fingerprint(b) {
                        assert(has_fingerprint(r, fingerprint(b)));
                    }
                } else {
                    assert(f[i] == r[i] && f[j] == r[j]);
                }
            }
            assert forall|i: int| 0 <= i < f.len() implies (#[trigger] f[i]).len() > 0 && !has_fingerprint(seen, fingerprint(f[i])) by {
                if i < r.len() {
                    assert(f[i] == r[i]);
                }
            }
        }
    }
}

} // verus!
