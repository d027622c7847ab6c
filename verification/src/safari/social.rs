//! Reading social feeds (X and Threads) in Safari: the extraction scripts,
//! the filters applied to posts, their fingerprints, and the scans that keep
//! per-target state between runs.
use vstd::prelude::*;

use crate::error::{MacosError, MacosErrorView};
use crate::json::{json_quote, json_string};
use crate::safari::ops::{fails_with, focus_tab, lemma_take_take, navigate_js, open, spec_navigate_js, Safari, SafariHost};
use crate::safari::script::{spec_build_exec_script_for_profile, spec_build_open_script};
use crate::safari::types::opt_view;
use crate::scan_state::{
    build_scan_key, entry_for, envelope_reports, fingerprint_bytes, hex, is_bot_like_author,
    is_too_old, is_too_short, make_envelope, record_not_found, record_success, sha256,
    skip_reason, spec_is_bot_like_author, spec_is_too_old, spec_is_too_short,
    spec_record_not_found, spec_record_success, spec_scan_key, spec_skip_reason, stored_or_fresh,
    save_state_warning, scan_gate, stores, ScanEnvelope, ScanState, ScanStatus, ScanTargetState,
};
use crate::safari::types::opt_string;
use crate::text::{
    ascii_lowercase, ascii_lowercase_chars, chars_eq, chars_of, contains, contains_exec,
    first_occurrence, slice_chars, split_once, split_once_chars, starts_with, starts_with_exec,
    trim, trim_chars,
};

verus! {

broadcast use vstd::string::group_string_axioms;

/// The X home timeline.
pub const X_HOME_URL: &'static str = "https://x.com/home";

/// The Threads feed.
pub const THREADS_FEED_URL: &'static str = "https://www.threads.com/";

/// A post read from a feed.
#[derive(Clone, Debug, PartialEq, Eq)]
pub struct SocialFeedPost {
    pub author: String,
    pub handle: Option<String>,
    pub time: Option<String>,
    pub content: String,
    pub url: Option<String>,
    pub metrics: Vec<String>,
}

/// A byte that percent-encoding leaves as it is: an ASCII letter or digit,
/// or one of `-`, `.`, `_`, `~`.
pub open spec fn url_safe_byte(b: u8) -> bool {
    (48 <= b <= 57) || (65 <= b <= 90) || (97 <= b <= 122) || b == 45 || b == 46 || b == 95 || b == 126
}

/// An upper-case hexadecimal digit.
pub open spec fn upper_hex_digit(v: int) -> char {
    if v < 10 {
        (48 + v) as char
    } else {
        (55 + v) as char
    }
}

/// Percent-encoding of some bytes: each byte that is not URL-safe becomes
/// `%` and its two upper-case hexadecimal digits.
pub open spec fn percent_encoded(bytes: Seq<u8>) -> Seq<char>
    decreases bytes.len(),
{
    if bytes.len() == 0 {
        Seq::empty()
    } else {
        let b = bytes.last();
        let tail = if url_safe_byte(b) {
            seq![b as char]
        } else {
            seq!['%', upper_hex_digit(b as int / 16), upper_hex_digit(b as int % 16)]
        };
        percent_encoded(bytes.drop_last()) + tail
    }
}

/// Calls `urlencoding::encode`, which percent-encodes every byte of the
/// text's UTF-8 form but ASCII letters, digits and `-`, `.`, `_`, `~`.
#[verifier::external_body]
fn url_encode(s: &str) -> (r: String)
    ensures
        r@ == percent_encoded(vstd::utf8::encode_utf8(s@)),
{
    urlencoding::encode(s).into_owned()
}

/// The URL of an X search for `query`, newest first.
pub open spec fn spec_x_search_url(query: Seq<char>) -> Seq<char> {
    "https://x.com/search?q="@ + percent_encoded(vstd::utf8::encode_utf8(query)) + "&src=typed_query&f=live"@
}

/// The URL of an X search for `query`.
pub fn x_search_url(query: &str) -> (r: String)
    ensures
        r@ == spec_x_search_url(query@),
{
    let mut s = String::from_str("https://x.com/search?q=");
    let e = url_encode(query);
    s.append(e.as_str());
    s.append("&src=typed_query&f=live");
    s
}

/// The script that reads the posts of an X timeline as JSON.
pub open spec fn spec_x_extract_feed_js() -> Seq<char> {
    r#"(() => {
        const tweets = document.querySelectorAll('article[data-testid="tweet"]');
        const posts = [];
        const seen = new Set();

        for (const tweet of tweets) {
            const timeEl = tweet.querySelector("time");
            const time = timeEl ? (timeEl.getAttribute("datetime") || "") : "";
            const tweetText = tweet.querySelector('div[data-testid="tweetText"]');
            const content = tweetText ? (tweetText.innerText || "").trim() : "";

            const statusLink = tweet.querySelector("a[href*='/status/']");
            let postUrl = statusLink ? (statusLink.href || statusLink.getAttribute("href") || "") : "";
            if (postUrl.startsWith("/")) {
                postUrl = "https://x.com" + postUrl;
            }

            const key = postUrl || content.substring(0, 50);
            if (seen.has(key) || !content) continue;
            seen.add(key);

            const userCell = tweet.querySelector('div[data-testid="User-Name"]');
            const userText = userCell ? (userCell.innerText || "") : "";
            const author = userText.split("\n")[0] || "";
            const handle = (userText.match(/@\w+/) || [""])[0];

            const groups = tweet.querySelectorAll('div[role="group"] button');
            const metrics = [...groups]
                .map(b => (b.getAttribute("aria-label") || "").trim())
                .filter(Boolean);

            posts.push({
                author,
                handle: handle || null,
                time: time || null,
                content: content.substring(0, 500),
                url: postUrl || null,
                metrics
            });
        }
        return JSON.stringify(posts);
    })()"#@
}

/// The script that reads the posts of an X timeline as JSON.
pub fn x_extract_feed_js() -> (r: String)
    ensures
        r@ == spec_x_extract_feed_js(),
{
    String::from_str(r#"(() => {
        const tweets = document.querySelectorAll('article[data-testid="tweet"]');
        const posts = [];
        const seen = new Set();

        for (const tweet of tweets) {
            const timeEl = tweet.querySelector("time");
            const time = timeEl ? (timeEl.getAttribute("datetime") || "") : "";
            const tweetText = tweet.querySelector('div[data-testid="tweetText"]');
            const content = tweetText ? (tweetText.innerText || "").trim() : "";

            const statusLink = tweet.querySelector("a[href*='/status/']");
            let postUrl = statusLink ? (statusLink.href || statusLink.getAttribute("href") || "") : "";
            if (postUrl.startsWith("/")) {
                postUrl = "https://x.com" + postUrl;
            }

            const key = postUrl || content.substring(0, 50);
            if (seen.has(key) || !content) continue;
            seen.add(key);

            const userCell = tweet.querySelector('div[data-testid="User-Name"]');
            const userText = userCell ? (userCell.innerText || "") : "";
            const author = userText.split("\n")[0] || "";
            const handle = (userText.match(/@\w+/) || [""])[0];

            const groups = tweet.querySelectorAll('div[role="group"] button');
            const metrics = [...groups]
                .map(b => (b.getAttribute("aria-label") || "").trim())
                .filter(Boolean);

            posts.push({
                author,
                handle: handle || null,
                time: time || null,
                content: content.substring(0, 500),
                url: postUrl || null,
                metrics
            });
        }
        return JSON.stringify(posts);
    })()"#)
}

/// The script that reads the posts of the Threads feed as JSON.
pub const THREADS_FEED_JS: &'static str = r#"(() => {
        const authorLinks = [...document.querySelectorAll('a[href^="/@"]')];
        const seen = new Set();
        const posts = [];

        for (const link of authorLinks) {
            const href = link.getAttribute("href") || "";
            if (href.split("/").length > 3) continue;

            let container = link;
            for (let i = 0; i < 12; i++) {
                if (!container.parentElement) break;
                container = container.parentElement;
                if ((container.innerText || "").length > 30 && container.querySelector("time")) break;
            }

            const key = container.innerText.substring(0, 80);
            if (seen.has(key)) continue;
            seen.add(key);

            const author = href.replace("/", "");
            const timeEl = container.querySelector("time");
            const time = timeEl ? (timeEl.getAttribute("datetime") || timeEl.innerText || "") : "";
            const contentSpans = [...container.querySelectorAll('span[dir="auto"], div[dir="auto"]')];
            let content = "";
            for (const span of contentSpans) {
                const t = (span.innerText || "").trim();
                if (t.length > 20) { content = t; break; }
            }
            if (content) {
                posts.push({ author, time: time || null, content: content.substring(0, 500), url: null });
            }
        }
        return JSON.stringify(posts);
    })()"#;

/// The message for a URL that names no X post.
pub open spec fn invalid_x_url(input: Seq<char>) -> MacosErrorView {
    MacosErrorView::Other("invalid x post url: "@ + input)
}

/// `s` without the first occurrence of `c` and what follows.
pub open spec fn before_char(s: Seq<char>, c: char) -> Seq<char> {
    let i = first_occurrence(s, seq![c]);
    if i < 0 {
        s
    } else {
        s.take(i)
    }
}

/// `s` without leading and trailing slashes.
pub open spec fn trim_slashes(s: Seq<char>) -> Seq<char>
    decreases s.len(),
{
    if s.len() > 0 && s[0] == '/' {
        trim_slashes(s.drop_first())
    } else if s.len() > 0 && s.last() == '/' {
        trim_slashes(s.drop_last())
    } else {
        s
    }
}

/// The canonical URL of an X post: on `x.com`, without query, fragment and
/// surrounding slashes; `twitter.com` and `www.` hosts are accepted.
pub open spec fn spec_normalize_x_post_url(input: Seq<char>) -> Result<Seq<char>, MacosErrorView> {
    let t = trim(input);
    let without_scheme = if starts_with(t, "https://"@) {
        t.skip(8)
    } else if starts_with(t, "http://"@) {
        t.skip(7)
    } else {
        t
    };
    match split_once(without_scheme, seq!['/']) {
        None => Err(invalid_x_url(input)),
        Some((host, rest)) => {
            let h = ascii_lowercase(host);
            if !(h == "x.com"@ || h == "www.x.com"@ || h == "twitter.com"@ || h == "www.twitter.com"@) {
                Err(invalid_x_url(input))
            } else {
                let path = trim_slashes(before_char(before_char(rest, '?'), '#'));
                if !contains(path, "/status/"@) {
                    Err(invalid_x_url(input))
                } else {
                    Ok("https://x.com/"@ + path)
                }
            }
        }
    }
}

fn before_char_exec(s: &[char], c: char) -> (r: Vec<char>)
    ensures
        r@ == before_char(s@, c),
{
    let p: [char; 1] = [c];
    assert(p@ =~= seq![c]);
    match crate::text::find_chars(s, &p) {
        Some(i) => slice_chars(s, 0, i),
        None => slice_chars(s, 0, s.len()),
    }
}

fn trim_slashes_exec(s: &[char]) -> (r: Vec<char>)
    ensures
        r@ == trim_slashes(s@),
{
    let mut lo: usize = 0;
    let mut hi: usize = s.len();
    assert(s@.subrange(0, s@.len() as int) =~= s@);
    while lo < hi && s[lo] == '/'
        invariant
            lo <= hi <= s.len(),
            hi == s.len(),
            trim_slashes(s@) == trim_slashes(s@.subrange(lo as int, hi as int)),
        decreases hi - lo,
    {
        assert(s@.subrange(lo as int, hi as int).drop_first() =~= s@.subrange(lo + 1, hi as int));
        lo = lo + 1;
    }
    while lo < hi && s[hi - 1] == '/'
        invariant
            lo <= hi <= s.len(),
            lo < hi ==> s[lo as int] != '/',
            trim_slashes(s@) == trim_slashes(s@.subrange(lo as int, hi as int)),
        decreases hi - lo,
    {
        let ghost cur = s@.subrange(lo as int, hi as int);
        assert(cur.drop_last() =~= s@.subrange(lo as int, hi - 1));
        assert(cur[0] == s@[lo as int]);
        hi = hi - 1;
    }
    let r = slice_chars(s, lo, hi);
    proof {
        let cur = s@.subrange(lo as int, hi as int);
        if cur.len() > 0 {
            assert(cur[0] == s@[lo as int]);
            assert(cur.last() == s@[hi - 1]);
        }
    }
    r
}

/// Reads the URL of an X post.
pub fn normalize_x_post_url(input: &str) -> (r: Result<String, MacosError>)
    ensures
        crate::error::result_view(r) == spec_normalize_x_post_url(input@),
{
    let v = chars_of(input);
    let t = trim_chars(v.as_slice());
    let https = chars_of("https://");
    let http = chars_of("http://");
    proof {
        reveal_strlit("https://");
        reveal_strlit("http://");
    }
    let without_scheme = if starts_with_exec(t.as_slice(), https.as_slice()) {
        let w = slice_chars(t.as_slice(), 8, t.len());
        assert(w@ =~= t@.skip(8));
        w
    } else if starts_with_exec(t.as_slice(), http.as_slice()) {
        let w = slice_chars(t.as_slice(), 7, t.len());
        assert(w@ =~= t@.skip(7));
        w
    } else {
        let w = slice_chars(t.as_slice(), 0, t.len());
        assert(w@ =~= t@);
        w
    };
    let slash: [char; 1] = ['/'];
    assert(slash@ =~= seq!['/']);
    let (host, rest) = match split_once_chars(without_scheme.as_slice(), &slash) {
        Some(p) => p,
        None => {
            let mut m = String::from_str("invalid x post url: ");
            m.append(input);
            return Err(MacosError::Other(m));
        },
    };
    let h = ascii_lowercase_chars(host.as_slice());
    let x1 = chars_of("x.com");
    let x2 = chars_of("www.x.com");
    let x3 = chars_of("twitter.com");
    let x4 = chars_of("www.twitter.com");
    let ok_host = chars_eq(h.as_slice(), x1.as_slice()) || chars_eq(h.as_slice(), x2.as_slice())
        || chars_eq(h.as_slice(), x3.as_slice()) || chars_eq(h.as_slice(), x4.as_slice());
    if !ok_host {
        let mut m = String::from_str("invalid x post url: ");
        m.append(input);
        return Err(MacosError::Other(m));
    }
    let no_query = before_char_exec(rest.as_slice(), '?');
    let no_fragment = before_char_exec(no_query.as_slice(), '#');
    let path = trim_slashes_exec(no_fragment.as_slice());
    let status = chars_of("/status/");
    if !contains_exec(path.as_slice(), status.as_slice()) {
        let mut m = String::from_str("invalid x post url: ");
        m.append(input);
        return Err(MacosError::Other(m));
    }
    let mut s = String::from_str("https://x.com/");
    crate::text::push_chars(&mut s, path.as_slice());
    Ok(s)
}

/// The Unix time (seconds) of an RFC 3339 timestamp, as
/// `chrono::DateTime::parse_from_rfc3339` reads it, if it is one.
pub uninterp spec fn rfc3339_seconds(s: Seq<char>) -> Option<i64>;

/// Calls `chrono::DateTime::parse_from_rfc3339` and takes `timestamp()` of
/// the result. The contract names the outcome.
#[verifier::external_body]
fn parse_rfc3339(s: &str) -> (r: Option<i64>)
    ensures
        r == rfc3339_seconds(s@),
{
    chrono::DateTime::parse_from_rfc3339(s).ok().map(|dt| dt.timestamp())
}

/// Whether a post is kept: not by a bot, not too short, and not older than
/// thirty days when its time can be read.
pub open spec fn spec_keep_post(post: SocialFeedPost, now: i64) -> bool {
    &&& !spec_is_bot_like_author(post.author@)
    &&& !spec_is_too_short(post.content@)
    &&& match post.time {
        Some(t) => match rfc3339_seconds(t@) {
            Some(created) => !spec_is_too_old(created, now),
            None => true,
        },
        None => true,
    }
}

/// The posts that are kept, in order.
pub open spec fn kept_posts(posts: Seq<SocialFeedPost>, now: i64) -> Seq<SocialFeedPost>
    decreases posts.len(),
{
    if posts.len() == 0 {
        seq![]
    } else {
        let r = kept_posts(posts.drop_last(), now);
        if spec_keep_post(posts.last(), now) {
            r.push(posts.last())
        } else {
            r
        }
    }
}

/// Every post kept passes the filters, and no post is added.
pub proof fn lemma_kept_posts_pass(posts: Seq<SocialFeedPost>, now: i64)
    ensures
        kept_posts(posts, now).len() <= posts.len(),
        forall|i: int| 0 <= i < kept_posts(posts, now).len() ==> spec_keep_post(#[trigger] kept_posts(posts, now)[i], now),
    decreases posts.len(),
{
    if posts.len() > 0 {
        lemma_kept_posts_pass(posts.drop_last(), now);
        let r = kept_posts(posts.drop_last(), now);
        let all = kept_posts(posts, now);
        assert forall|i: int| 0 <= i < all.len() implies spec_keep_post(#[trigger] all[i], now) by {
            if i < r.len() {
                assert(all[i] == r[i]);
            }
        }
    }
}

fn keep_post(post: &SocialFeedPost, now: i64) -> (r: bool)
    ensures
        r == spec_keep_post(*post, now),
{
    if is_bot_like_author(post.author.as_str()) || is_too_short(post.content.as_str()) {
        return false;
    }
    match &post.time {
        Some(t) => match parse_rfc3339(t.as_str()) {
            Some(created) => !is_too_old(created, now),
            None => true,
        },
        None => true,
    }
}

/// The posts worth keeping, in their order: neither by a bot-like author, nor
/// too short, nor (when their time reads as RFC 3339) older than thirty days.
pub fn filter_posts(posts: Vec<SocialFeedPost>, now: i64) -> (r: Vec<SocialFeedPost>)
    ensures
        r@ == kept_posts(posts@, now),
{
    let mut out: Vec<SocialFeedPost> = Vec::new();
    let mut rest = posts;
    let ghost all = posts@;
    let ghost mut done: int = 0;
    while rest.len() > 0
        invariant
            0 <= done <= all.len(),
            rest@ == all.skip(done),
            out@ == kept_posts(all.take(done), now),
        decreases rest.len(),
    {
        let post = rest.remove(0);
        proof {
            assert(post == all[done]);
            assert(all.take(done + 1).drop_last() =~= all.take(done));
            assert(all.take(done + 1).last() == all[done]);
            assert(rest@ =~= all.skip(done + 1));
            done = done + 1;
        }
        if keep_post(&post, now) {
            out.push(post);
        }
    }
    assert(all.take(done) =~= all);
    out
}

/// `null`, or the JSON string of an optional text.
pub open spec fn json_opt(o: Option<String>) -> Seq<char> {
    match o {
        Some(t) => json_quote(t@),
        None => "null"@,
    }
}

/// The JSON object that stands for a post in a feed's fingerprint: author,
/// handle (for X only), time, content and URL, in that order.
pub open spec fn fingerprint_item(p: SocialFeedPost, with_handle: bool) -> Seq<char> {
    let head = "{\"author\":"@ + json_quote(p.author@);
    let handle = if with_handle { ",\"handle\":"@ + json_opt(p.handle) } else { Seq::empty() };
    head + handle + ",\"time\":"@ + json_opt(p.time) + ",\"content\":"@ + json_quote(p.content@)
        + ",\"url\":"@ + json_opt(p.url) + "}"@
}

/// The items of the fingerprint's JSON array, separated by commas.
pub open spec fn fingerprint_items(posts: Seq<SocialFeedPost>, with_handle: bool) -> Seq<char>
    decreases posts.len(),
{
    if posts.len() == 0 {
        Seq::empty()
    } else if posts.len() == 1 {
        fingerprint_item(posts[0], with_handle)
    } else {
        fingerprint_items(posts.drop_last(), with_handle) + ","@ + fingerprint_item(posts.last(), with_handle)
    }
}

/// The JSON text whose digest fingerprints a feed.
pub open spec fn fingerprint_payload(posts: Seq<SocialFeedPost>, with_handle: bool) -> Seq<char> {
    "["@ + fingerprint_items(posts, with_handle) + "]"@
}

/// The fingerprint of a feed: the SHA-256 digest, in hexadecimal, of the
/// UTF-8 bytes of its JSON payload.
pub open spec fn spec_feed_fingerprint(posts: Seq<SocialFeedPost>, with_handle: bool) -> Seq<char> {
    hex(sha256(vstd::utf8::encode_utf8(fingerprint_payload(posts, with_handle))))
}

fn push_json_opt(out: &mut String, o: &Option<String>)
    ensures
        final(out)@ == old(out)@ + json_opt(*o),
{
    match o {
        Some(t) => {
            let q = json_string(t.as_str());
            out.append(q.as_str());
        },
        None => out.append("null"),
    }
}

fn push_fingerprint_item(out: &mut String, p: &SocialFeedPost, with_handle: bool)
    ensures
        final(out)@ == old(out)@ + fingerprint_item(*p, with_handle),
{
    let ghost start = out@;
    out.append("{\"author\":");
    let a = json_string(p.author.as_str());
    out.append(a.as_str());
    let ghost head = out@;
    if with_handle {
        out.append(",\"handle\":");
        push_json_opt(out, &p.handle);
    }
    let ghost handled = out@;
    out.append(",\"time\":");
    push_json_opt(out, &p.time);
    out.append(",\"content\":");
    let c = json_string(p.content.as_str());
    out.append(c.as_str());
    out.append(",\"url\":");
    push_json_opt(out, &p.url);
    out.append("}");
    proof {
        let h = if with_handle { ",\"handle\":"@ + json_opt(p.handle) } else { Seq::<char>::empty() };
        assert(handled =~= head + h);
        assert(head =~= start + ("{\"author\":"@ + json_quote(p.author@)));
        assert(out@ =~= start + fingerprint_item(*p, with_handle));
    }
}

/// The fingerprint of a list of posts (`fingerprint_x_posts` with the
/// handle, `fingerprint_threads_posts` without it).
pub fn feed_fingerprint(posts: &[SocialFeedPost], with_handle: bool) -> (r: String)
    ensures
        r@ == spec_feed_fingerprint(posts@, with_handle),
{
    let mut payload = String::from_str("[");
    let mut i: usize = 0;
    while i < posts.len()
        invariant
            i <= posts@.len(),
            payload@ == "["@ + fingerprint_items(posts@.take(i as int), with_handle),
        decreases posts@.len() - i,
    {
        let ghost before = payload@;
        proof {
            assert(posts@.take(i + 1).drop_last() =~= posts@.take(i as int));
            assert(posts@.take(i + 1).last() == posts@[i as int]);
        }
        if i > 0 {
            payload.append(",");
        } else {
            assert(posts@.take(1) =~= seq![posts@[0]]);
            assert(fingerprint_items(posts@.take(0), with_handle) =~= Seq::<char>::empty());
            assert(before =~= "["@);
        }
        push_fingerprint_item(&mut payload, &posts[i], with_handle);
        proof {
            if i > 0 {
                assert(payload@ =~= "["@ + fingerprint_items(posts@.take(i + 1), with_handle));
            } else {
                assert(payload@ =~= "["@ + fingerprint_items(posts@.take(i + 1), with_handle));
            }
        }
        i = i + 1;
    }
    assert(posts@.take(posts@.len() as int) =~= posts@);
    payload.append("]");
    fingerprint_bytes(payload.as_str().as_bytes())
}

/// Why the Threads feed is not to be scanned at `now`, if it is not: the
/// rules of `skip_reason` for a target that is not deleted, whatever `entry`
/// says of deletion.
pub fn threads_backoff_reason(entry: &ScanTargetState, now: i64) -> (r: Option<String>)
    ensures
        opt_string(r) == spec_skip_reason(false, entry.last_checked_at, entry.last_changed_at, entry.no_change_count, now),
{
    let mut live = entry.copy_state();
    live.deleted = false;
    skip_reason(&live, now)
}

/// The error of a scan whose count of scans would pass its limit.
pub open spec fn counter_limit_error() -> MacosErrorView {
    MacosErrorView::Other("scan state counter is at its limit"@)
}

/// Records a scan of the target under `key` that read `posts` at `now`: the
/// posts kept are fingerprinted, the target's state `entry` records the
/// success and is kept in `state` under `key`, and the envelope carries the
/// posts kept. A count of unchanged scans already at its limit is refused.
pub fn record_feed_scan(
    state: &mut ScanState,
    key: &str,
    entry: ScanTargetState,
    posts: Vec<SocialFeedPost>,
    with_handle: bool,
    now: i64,
) -> (r: Result<ScanEnvelope<Vec<SocialFeedPost>>, MacosError>)
    ensures
        ({
            let kept = kept_posts(posts@, now);
            let (status, e) = spec_record_success(entry@, spec_feed_fingerprint(kept, with_handle), now);
            let overflow = entry@.last_fingerprint == Some(spec_feed_fingerprint(kept, with_handle))
                && entry.no_change_count == u32::MAX;
            if overflow {
                &&& fails_with(r, counter_limit_error())
                &&& *final(state) == *old(state)
            } else {
                &&& r matches Ok(env) && {
                    &&& envelope_reports(env, e, status)
                    &&& env.reason is None
                    &&& env.warning is None
                    &&& env.data matches Some(d) && d@ == kept
                }
                &&& stores(*old(state), *final(state), key@, e)
            }
        }),
{
    let kept = filter_posts(posts, now);
    let fingerprint = feed_fingerprint(kept.as_slice(), with_handle);
    let mut entry = entry;
    let same = match &entry.last_fingerprint {
        Some(f) => {
            let a = chars_of(f.as_str());
            let b = chars_of(fingerprint.as_str());
            chars_eq(a.as_slice(), b.as_slice())
        },
        None => false,
    };
    if same && entry.no_change_count == u32::MAX {
        return Err(MacosError::Other(String::from_str("scan state counter is at its limit")));
    }
    let status = record_success(&mut entry, fingerprint, now);
    state.set_entry(key, entry.copy_state());
    Ok(make_envelope(&entry, status, None, None, Some(kept)))
}

/// Records a Threads feed scan at `now` that read `posts`, in `state`.
pub fn update_threads_scan_state(
    state: &mut ScanState,
    now: i64,
    posts: Vec<SocialFeedPost>,
) -> (r: Result<ScanEnvelope<Vec<SocialFeedPost>>, MacosError>)
    ensures
        ({
            let key = spec_scan_key("threads"@, THREADS_FEED_URL@);
            let entry = stored_or_fresh(*old(state), key, "threads"@, THREADS_FEED_URL@);
            let kept = kept_posts(posts@, now);
            let (status, e) = spec_record_success(entry, spec_feed_fingerprint(kept, false), now);
            let overflow = entry.last_fingerprint == Some(spec_feed_fingerprint(kept, false))
                && entry.no_change_count == u32::MAX;
            if overflow {
                &&& fails_with(r, counter_limit_error())
                &&& *final(state) == *old(state)
            } else {
                &&& r matches Ok(env) && {
                    &&& envelope_reports(env, e, status)
                    &&& env.reason is None
                    &&& env.warning is None
                    &&& env.data matches Some(d) && d@ == kept
                }
                &&& stores(*old(state), *final(state), key, e)
            }
        }),
{
    let key = build_scan_key("threads", THREADS_FEED_URL);
    let entry = entry_for(state, key.as_str(), "threads", THREADS_FEED_URL);
    record_feed_scan(state, key.as_str(), entry, posts, false, now)
}

/// The reason a scan that did not find its target reports.
pub open spec fn missing_reason(status: ScanStatus) -> Option<Seq<char>> {
    match status {
        ScanStatus::Deleted => Some("target_confirmed_deleted"@),
        ScanStatus::Warning => Some("target_missing_first_strike"@),
        _ => None,
    }
}

/// Records a scan of the target under `key` that found nothing at `now`: the
/// target's state `entry` records the miss (the second in a row marks it
/// deleted) and is kept in `state`; the envelope says which it was. A count
/// of misses already at its limit is refused.
pub fn record_missing_scan(
    state: &mut ScanState,
    key: &str,
    entry: ScanTargetState,
    now: i64,
) -> (r: Result<ScanEnvelope<Vec<SocialFeedPost>>, MacosError>)
    ensures
        ({
            let (status, e) = spec_record_not_found(entry@, now);
            if entry.consecutive_not_found_count == u32::MAX {
                &&& fails_with(r, counter_limit_error())
                &&& *final(state) == *old(state)
            } else {
                &&& r matches Ok(env) && {
                    &&& envelope_reports(env, e, status)
                    &&& opt_string(env.reason) == missing_reason(status)
                    &&& env.warning is None
                    &&& env.data is None
                }
                &&& stores(*old(state), *final(state), key@, e)
            }
        }),
{
    if entry.consecutive_not_found_count == u32::MAX {
        return Err(MacosError::Other(String::from_str("scan state counter is at its limit")));
    }
    let mut entry = entry;
    let status = record_not_found(&mut entry, now);
    state.set_entry(key, entry.copy_state());
    let reason = match status {
        ScanStatus::Deleted => Some(String::from_str("target_confirmed_deleted")),
        ScanStatus::Warning => Some(String::from_str("target_missing_first_strike")),
        _ => None,
    };
    Ok(make_envelope(&entry, status, reason, None, None))
}

/// Reads the posts of the X timeline in the current tab every half second
/// until some are there or `timeout_seconds` have passed; each read runs the
/// feed script and parses its reply.
fn poll_x_posts<H: SafariHost>(safari: &mut Safari<H>, timeout_seconds: u64, profile_filter: Option<&str>) -> (r: Result<Vec<SocialFeedPost>, MacosError>)
    requires
        timeout_seconds <= 3600,
    ensures
        final(safari).runs@.len() > old(safari).runs@.len(),
        final(safari).runs@.take(old(safari).runs@.len() as int) == old(safari).runs@,
        forall|i: int| old(safari).runs@.len() <= i < final(safari).runs@.len() ==>
            (#[trigger] final(safari).runs@[i]).script == spec_build_exec_script_for_profile(spec_x_extract_feed_js(), opt_view(profile_filter)),
{
    let ghost before = safari.runs@;
    let js = x_extract_feed_js();
    let start = safari.host.now_millis();
    let deadline = start.saturating_add(timeout_seconds * 1000);
    let max_polls: u64 = timeout_seconds * 2 + 1;
    let mut polls: u64 = 0;
    loop
        invariant
            polls < max_polls,
            max_polls == timeout_seconds * 2 + 1,
            js@ == spec_x_extract_feed_js(),
            safari.runs@.len() >= before.len(),
            polls > 0 ==> safari.runs@.len() > before.len(),
            safari.runs@.take(before.len() as int) == before,
            before == old(safari).runs@,
            forall|i: int| before.len() <= i < safari.runs@.len() ==>
                (#[trigger] safari.runs@[i]).script == spec_build_exec_script_for_profile(spec_x_extract_feed_js(), opt_view(profile_filter)),
        decreases max_polls - polls,
    {
        let ghost prev = safari.runs@;
        let reply = safari.run_js_for_profile(js.as_str(), profile_filter, "safari_x_feed");
        polls = polls + 1;
        proof {
            assert(safari.runs@.take(prev.len() as int) =~= prev);
            lemma_take_take(safari.runs@, prev, before);
            assert forall|i: int| before.len() <= i < safari.runs@.len() implies
                (#[trigger] safari.runs@[i]).script == spec_build_exec_script_for_profile(spec_x_extract_feed_js(), opt_view(profile_filter)) by {
                if i < prev.len() {
                    assert(safari.runs@[i] == prev[i]);
                }
            }
        }
        let raw = match reply {
            Ok(raw) => raw,
            Err(e) => {
                return Err(e);
            },
        };
        let posts = match safari.host.parse_feed_posts(raw.as_str()) {
            Ok(p) => p,
            Err(m) => {
                let mut msg = String::from_str("failed to parse x feed: ");
                msg.append(m.as_str());
                return Err(MacosError::Other(msg));
            },
        };
        let now = safari.host.now_millis();
        if posts.len() > 0 || now >= deadline || polls >= max_polls {
            return Ok(posts);
        }
        safari.host.sleep_millis(500);
    }
}

/// Sends the tab that `tab_hint` names to `url` when such a tab can be
/// focused, else opens `url` in a new tab.
fn navigate_tab_or_open<H: SafariHost>(
    safari: &mut Safari<H>,
    url: &str,
    tab_hint: &str,
    profile_filter: Option<&str>,
    context: &str,
) -> (r: Result<(), MacosError>)
    ensures
        final(safari).runs@.len() > old(safari).runs@.len(),
        final(safari).runs@.take(old(safari).runs@.len() as int) == old(safari).runs@,
        r is Ok ==> final(safari).runs@.last().script == spec_build_exec_script_for_profile(spec_navigate_js(url@), opt_view(profile_filter))
            || final(safari).runs@.last().script == spec_build_open_script(url@, opt_view(profile_filter)),
{
    let ghost before = safari.runs@;
    let nav_js = navigate_js(url);
    let focused = focus_tab(safari, tab_hint, profile_filter);
    let ghost mid = safari.runs@;
    if focused.is_ok() {
        let out = safari.run_js_for_profile(nav_js.as_str(), profile_filter, context);
        proof {
            assert(safari.runs@.take(mid.len() as int) =~= mid);
            lemma_take_take(safari.runs@, mid, before);
        }
        match out {
            Ok(_) => {},
            Err(e) => {
                return Err(e);
            },
        }
    } else {
        let out = open(safari, url, profile_filter);
        proof {
            assert(safari.runs@.take(mid.len() as int) =~= mid);
            lemma_take_take(safari.runs@, mid, before);
        }
        match out {
            Ok(_) => {},
            Err(e) => {
                return Err(e);
            },
        }
    }
    Ok(())
}

/// The scan of a target stopped before anything ran: it is deleted or held
/// back, and the envelope says why.
pub open spec fn stopped_early(env: ScanEnvelope<Vec<SocialFeedPost>>) -> bool {
    &&& env.status == ScanStatus::Skipped || (env.status == ScanStatus::Deleted && opt_string(env.reason) == Some("deleted_target"@))
    &&& env.reason is Some
    &&& env.data is None
}

/// Reads the X home timeline, unless its scan state holds the scan back:
/// the posts kept are fingerprinted and recorded in the scan state, which is
/// saved (a failure to save is reported as the envelope's warning).
pub fn x_extract_feed<H: SafariHost>(safari: &mut Safari<H>, profile_filter: Option<&str>) -> (r: Result<ScanEnvelope<Vec<SocialFeedPost>>, MacosError>)
    ensures
        final(safari).runs@.len() >= old(safari).runs@.len(),
        final(safari).runs@.take(old(safari).runs@.len() as int) == old(safari).runs@,
        match r {
            Ok(env) => if stopped_early(env) {
                final(safari).runs@ == old(safari).runs@
            } else {
                &&& env.status == ScanStatus::Fresh || env.status == ScanStatus::Unchanged
                &&& env.data is Some
                &&& final(safari).runs@.last().script == spec_build_exec_script_for_profile(spec_x_extract_feed_js(), opt_view(profile_filter))
            },
            Err(_) => true,
        },
{
    proof {
        assert(safari.runs@.take(safari.runs@.len() as int) =~= safari.runs@);
    }
    let now = safari.host.now_unix_seconds();
    let key = build_scan_key("x", X_HOME_URL);
    let mut state = safari.host.load_scan_state();
    let entry = entry_for(&state, key.as_str(), "x", X_HOME_URL);
    match scan_gate(&entry, now) {
        Some((status, reason)) => {
            return Ok(make_envelope(&entry, status, Some(reason), None, None));
        },
        None => {},
    }
    let ghost before = safari.runs@;
    let _ = focus_tab(safari, "x.com", profile_filter);
    let ghost mid = safari.runs@;
    let posts = poll_x_posts(safari, 5, profile_filter);
    proof {
        lemma_take_take(safari.runs@, mid, before);
        assert(safari.runs@.last() == safari.runs@[safari.runs@.len() - 1]);
    }
    let posts = match posts {
        Ok(p) => p,
        Err(e) => {
            return Err(e);
        },
    };
    let mut env = match record_feed_scan(&mut state, key.as_str(), entry, posts, true, now) {
        Ok(env) => env,
        Err(e) => {
            return Err(e);
        },
    };
    let saved = safari.host.save_scan_state(&state);
    env.warning = save_state_warning(saved);
    Ok(env)
}

/// Runs an X search for `query` (newest first) in the X tab, or in a new
/// tab, unless the search's scan state holds it back, and records the posts
/// kept as `x_extract_feed` does.
pub fn x_search<H: SafariHost>(safari: &mut Safari<H>, query: &str, profile_filter: Option<&str>) -> (r: Result<ScanEnvelope<Vec<SocialFeedPost>>, MacosError>)
    ensures
        final(safari).runs@.len() >= old(safari).runs@.len(),
        final(safari).runs@.take(old(safari).runs@.len() as int) == old(safari).runs@,
        match r {
            Ok(env) => if stopped_early(env) {
                final(safari).runs@ == old(safari).runs@
            } else {
            &&& env.status == ScanStatus::Fresh || env.status == ScanStatus::Unchanged
            &&& env.data is Some
            &&& exists|i: int| old(safari).runs@.len() <= i < final(safari).runs@.len() && {
                ||| (#[trigger] final(safari).runs@[i]).script == spec_build_exec_script_for_profile(spec_navigate_js(spec_x_search_url(query@)), opt_view(profile_filter))
                ||| final(safari).runs@[i].script == spec_build_open_script(spec_x_search_url(query@), opt_view(profile_filter))
            }
            },
            Err(_) => true,
        },
{
    proof {
        assert(safari.runs@.take(safari.runs@.len() as int) =~= safari.runs@);
    }
    let now = safari.host.now_unix_seconds();
    let target_url = x_search_url(query);
    let key = build_scan_key("x", target_url.as_str());
    let mut state = safari.host.load_scan_state();
    let entry = entry_for(&state, key.as_str(), "x", target_url.as_str());
    match scan_gate(&entry, now) {
        Some((status, reason)) => {
            return Ok(make_envelope(&entry, status, Some(reason), None, None));
        },
        None => {},
    }
    let ghost before = safari.runs@;
    let nav = navigate_tab_or_open(safari, target_url.as_str(), "x.com", profile_filter, "safari_x_search_navigate");
    let ghost mid = safari.runs@;
    match nav {
        Ok(()) => {},
        Err(e) => {
            return Err(e);
        },
    }
    let posts = poll_x_posts(safari, 10, profile_filter);
    proof {
        lemma_take_take(safari.runs@, mid, before);
        assert(safari.runs@[mid.len() - 1] == mid[mid.len() - 1]);
    }
    let posts = match posts {
        Ok(p) => p,
        Err(e) => {
            return Err(e);
        },
    };
    let mut env = match record_feed_scan(&mut state, key.as_str(), entry, posts, true, now) {
        Ok(env) => env,
        Err(e) => {
            return Err(e);
        },
    };
    let saved = safari.host.save_scan_state(&state);
    env.warning = save_state_warning(saved);
    Ok(env)
}

/// Reads the X post at `url` (after `normalize_x_post_url`) in the X tab, or
/// in a new tab, unless its scan state holds the read back. A page with no
/// post records a miss (the second in a row marks the post deleted);
/// otherwise the posts kept are recorded as `x_extract_feed` does.
pub fn x_read_post<H: SafariHost>(safari: &mut Safari<H>, url: &str, profile_filter: Option<&str>) -> (r: Result<ScanEnvelope<Vec<SocialFeedPost>>, MacosError>)
    ensures
        final(safari).runs@.len() >= old(safari).runs@.len(),
        final(safari).runs@.take(old(safari).runs@.len() as int) == old(safari).runs@,
        spec_normalize_x_post_url(url@) matches Err(e) ==> fails_with(r, e) && final(safari).runs@ == old(safari).runs@,
        match r {
            Ok(env) => if stopped_early(env) {
                final(safari).runs@ == old(safari).runs@
            } else {
            let target = spec_normalize_x_post_url(url@)->Ok_0;
            &&& spec_normalize_x_post_url(url@) is Ok
            &&& env.data is Some ==> (env.status == ScanStatus::Fresh || env.status == ScanStatus::Unchanged)
            &&& env.data is None ==> (opt_string(env.reason) == missing_reason(env.status)
                && (env.status == ScanStatus::Deleted || env.status == ScanStatus::Warning))
            &&& exists|i: int| old(safari).runs@.len() <= i < final(safari).runs@.len() && {
                ||| (#[trigger] final(safari).runs@[i]).script == spec_build_exec_script_for_profile(spec_navigate_js(target), opt_view(profile_filter))
                ||| final(safari).runs@[i].script == spec_build_open_script(target, opt_view(profile_filter))
            }
            },
            Err(_) => true,
        },
{
    proof {
        assert(safari.runs@.take(safari.runs@.len() as int) =~= safari.runs@);
    }
    let now = safari.host.now_unix_seconds();
    let target_url = match normalize_x_post_url(url) {
        Ok(t) => t,
        Err(e) => {
            return Err(e);
        },
    };
    let key = build_scan_key("x", target_url.as_str());
    let mut state = safari.host.load_scan_state();
    let entry = entry_for(&state, key.as_str(), "x", target_url.as_str());
    match scan_gate(&entry, now) {
        Some((status, reason)) => {
            return Ok(make_envelope(&entry, status, Some(reason), None, None));
        },
        None => {},
    }
    let ghost before = safari.runs@;
    let nav = navigate_tab_or_open(safari, target_url.as_str(), "x.com", profile_filter, "safari_x_read_navigate");
    let ghost mid = safari.runs@;
    match nav {
        Ok(()) => {},
        Err(e) => {
            return Err(e);
        },
    }
    let raw_posts = poll_x_posts(safari, 10, profile_filter);
    proof {
        lemma_take_take(safari.runs@, mid, before);
        assert(safari.runs@[mid.len() - 1] == mid[mid.len() - 1]);
    }
    let raw_posts = match raw_posts {
        Ok(p) => p,
        Err(e) => {
            return Err(e);
        },
    };
    if raw_posts.len() == 0 {
        let mut env = match record_missing_scan(&mut state, key.as_str(), entry, now) {
            Ok(env) => env,
            Err(e) => {
                return Err(e);
            },
        };
        let saved = safari.host.save_scan_state(&state);
        env.warning = save_state_warning(saved);
        proof {
            reveal_strlit("deleted_target");
            reveal_strlit("target_confirmed_deleted");
            assert("deleted_target"@.len() != "target_confirmed_deleted"@.len());
        }
        assert(safari.runs@[mid.len() - 1] == mid[mid.len() - 1]);
        return Ok(env);
    }
    let mut env = match record_feed_scan(&mut state, key.as_str(), entry, raw_posts, true, now) {
        Ok(env) => env,
        Err(e) => {
            return Err(e);
        },
    };
    let saved = safari.host.save_scan_state(&state);
    env.warning = save_state_warning(saved);
    Ok(env)
}

/// Reads the Threads feed in the current tab once, unless `threads_backoff_reason`
/// holds the scan back, and records the posts kept as
/// `update_threads_scan_state` does; the scan state is then saved.
pub fn threads_extract_feed<H: SafariHost>(safari: &mut Safari<H>, profile_filter: Option<&str>) -> (r: Result<ScanEnvelope<Vec<SocialFeedPost>>, MacosError>)
    ensures
        final(safari).runs@.len() >= old(safari).runs@.len(),
        final(safari).runs@.take(old(safari).runs@.len() as int) == old(safari).runs@,
        match r {
            Ok(env) => if env.status == ScanStatus::Skipped {
                final(safari).runs@ == old(safari).runs@ && env.data is None
            } else {
                &&& env.status == ScanStatus::Fresh || env.status == ScanStatus::Unchanged
                &&& env.data is Some
                &&& final(safari).runs@.last().script == spec_build_exec_script_for_profile(THREADS_FEED_JS@, opt_view(profile_filter))
            },
            Err(_) => true,
        },
{
    proof {
        assert(safari.runs@.take(safari.runs@.len() as int) =~= safari.runs@);
    }
    let now = safari.host.now_unix_seconds();
    let mut state = safari.host.load_scan_state();
    let key = build_scan_key("threads", THREADS_FEED_URL);
    let entry = entry_for(&state, key.as_str(), "threads", THREADS_FEED_URL);
    match threads_backoff_reason(&entry, now) {
        Some(reason) => {
            return Ok(make_envelope(&entry, ScanStatus::Skipped, Some(reason), None, None));
        },
        None => {},
    }
    let ghost before = safari.runs@;
    let _ = focus_tab(safari, "threads.com", profile_filter);
    let ghost mid = safari.runs@;
    let reply = safari.run_js_for_profile(THREADS_FEED_JS, profile_filter, "safari_threads_feed");
    proof {
        assert(safari.runs@.take(mid.len() as int) =~= mid);
        lemma_take_take(safari.runs@, mid, before);
    }
    let raw = match reply {
        Ok(raw) => raw,
        Err(e) => {
            return Err(e);
        },
    };
    let posts = match safari.host.parse_feed_posts(raw.as_str()) {
        Ok(p) => p,
        Err(m) => {
            let mut msg = String::from_str("failed to parse threads feed: ");
            msg.append(m.as_str());
            return Err(MacosError::Other(msg));
        },
    };
    let mut env = match update_threads_scan_state(&mut state, now, posts) {
        Ok(env) => env,
        Err(e) => {
            return Err(e);
        },
    };
    let saved = safari.host.save_scan_state(&state);
    env.warning = save_state_warning(saved);
    Ok(env)
}

} // verus!
