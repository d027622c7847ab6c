//! The Safari operations. Each one hands AppleScript to a host, which runs it,
//! and decides from what comes back; a session records every script it ran with
//! the outcome it took from it, and the contracts speak of that record.
use vstd::prelude::*;

use crate::error::{result_view, MacosError, MacosErrorView};
use crate::safari::eval::{
    build_eval_js, build_poll_js, decode_eval_wire, eval_outcome, spec_build_eval_js, spec_build_poll_js,
    spec_decode_eval_wire, EvalWire,
};
use crate::safari::scroll::{
    scroll_js, scroll_read_detects_new_content, scroll_read_poll_js, scroll_read_snapshot_blocks,
    spec_scroll_js, spec_scroll_read_poll_js, distinct_fingerprints, lemma_seen_stays_distinct, spec_snapshot_blocks,
    spec_new_content_blocks, fresh_blocks, snapshot_raw, lemma_tail_distinct, spec_detects_new_content, string_views,
};
use crate::safari::wait::{
    spec_check_js, spec_condition_name, spec_condition_selector, spec_wait_reply, wait_reply, NavigationStart,
    WaitCondition,
};
use crate::safari::ai::{
    chatgpt_image_result, chatgpt_image_result_is_ready, chatgpt_should_return_empty_complete_result,
    spec_image_result_is_ready, ImagePayload, SafariAiImage, SafariAiImageResult,
    SafariAiResponseResult, SafariConversation, DeepResearchPayload, DeepResearchStep,
    SafariAiReadyResult, SafariDeepResearchResult, GeminiMode, deep_research_result, deep_research_step,
    gemini_mode_slug, gemini_mode_url, placeholder_shows_mode, spec_gemini_mode_slug,
    spec_gemini_mode_url, spec_placeholder_shows_mode,
};
use crate::safari::ai::watch::{
    answer_view, fresh_chatgpt_watch, spec_chatgpt_step, spec_gemini_step, spec_grok_read_step, spec_grok_step, AnswerView, ChatgptWatch, ChatgptWatchView, GeminiWatch, GrokWatch,
    ResponsePayload, has_usable_answer, lemma_grok_complete_poll_answers, reads_complete,
};
use crate::safari::ai::gemini::{
    build_gemini_click_send_js, build_gemini_fill_input_js, build_gemini_go_home_js, spec_build_gemini_click_send_js,
    gemini_response_extract_js, spec_build_gemini_fill_input_js, spec_gemini_response_extract_js, spec_build_gemini_go_home_js,
    build_gemini_placeholder_read_js, gemini_deep_research_poll_js, spec_gemini_deep_research_poll_js, spec_build_gemini_placeholder_read_js,
};
use crate::safari::ai::grok::{
    build_grok_click_send_js, build_grok_fill_input_js, build_grok_go_home_js,
    grok_list_conversations_js, grok_response_extract_js, spec_build_grok_fill_input_js, spec_grok_response_extract_js,
    spec_build_grok_go_home_js, spec_build_grok_click_send_js,
};
use crate::safari::ai::chatgpt::{
    build_chatgpt_go_home_js, chatgpt_list_conversations_js, chatgpt_response_extract_js, spec_chatgpt_response_extract_js, spec_build_chatgpt_click_send_js,
    spec_build_chatgpt_go_home_js,
    build_chatgpt_click_send_js, build_chatgpt_fill_input_js, chatgpt_image_list_js,
    spec_build_chatgpt_fill_input_js, spec_chatgpt_image_list_js,
};
use crate::safari::interaction::{
    selector_click_js, selector_fill_js, spec_selector_click_js, spec_selector_fill_js,
};
use crate::safari::script::{
    build_active_tab_script, build_close_script, build_exec_script_for_profile,
    spec_build_exec_script_for_profile, build_open_script, build_tabs_script,
    decode_field, extract_profile, opt_tab_view, parse_tab_line, parse_tabs_output,
    selector_text_js, spec_build_active_tab_script, spec_build_close_script,
    spec_build_open_script, spec_build_tabs_script, spec_extract_profile, spec_parse_tab_line,
    spec_parse_tabs_output, spec_selector_text_js, tab_sep, selector_exists_js, spec_selector_exists_js,
};
use crate::safari::target::{
    build_tab_js_script, map_js_timeout, matching_tabs, no_tab_message, select_tab,
    spec_build_tab_js_script, spec_map_js_timeout, spec_select_tab, to_lowercase, lowercase,
    tab_matches,
};
use crate::safari::throttle::{
    compute_next_safari_operation, rate_limit_step, spec_next_safari_operation, spec_is_safari_rate_limited, RateLimitStep, spec_limited_detail, spec_rate_limit_message,
    SAFARI_429_MAX_RETRIES, SAFARI_OPERATION_DELAY_MS,
};
use crate::safari::types::{
    opt_string, opt_view, tab_views, SafariClickResult, SafariCloseResult, SafariFillResult,
    SafariEvalResult, SafariReadResult, SafariScrollReadChunk, SafariScrollReadResult,
    SafariScrollReadSnapshot, SafariScrollResult, SafariWaitResult, SafariSourceResult, SafariTab,
    SafariTabView,
};
use crate::applescript::decode;
use crate::safari::social::SocialFeedPost;
use crate::scan_state::ScanState;
use crate::text::{
    chars_eq, chars_of, contains, contains_exec, decimal, parse_usize, parse_usize_chars,
    push_decimal, push_signed_decimal, signed_decimal, trim, trim_chars,
};

verus! {

broadcast use vstd::string::group_string_axioms;

/// What the Safari operations need from the machine they run on.
pub trait SafariHost {
    /// Runs an AppleScript program and returns its standard output, or why it
    /// failed; `context` names the operation in error messages.
    fn run_applescript(&mut self, script: &str, context: &str) -> Result<String, MacosError>;

    /// The time on a monotonic clock, in milliseconds.
    fn now_millis(&mut self) -> u64;

    /// Waits this many milliseconds.
    fn sleep_millis(&mut self, millis: u64);

    /// A token that no other evaluation of this process uses.
    fn next_eval_token(&mut self) -> String;

    /// Reads an evaluation reply (JSON text) into its fields, or returns the
    /// JSON parser's message.
    fn parse_eval_wire(&mut self, payload: &str) -> Result<EvalWire, String>;

    /// Reads a scroll-and-read poll reply (JSON text) into its fields, or
    /// returns the JSON parser's message.
    fn parse_scroll_snapshot(&mut self, payload: &str) -> Result<SafariScrollReadSnapshot, String>;

    /// Reads the navigation start state (JSON text with the URL and the time
    /// origin) into its fields, or returns the JSON parser's message.
    fn parse_navigation_start(&mut self, raw: &str) -> Result<NavigationStart, String>;

    /// Reads an image-list reply (JSON text) into its members, or returns the
    /// JSON parser's message.
    fn parse_image_payload(&mut self, payload: &str) -> Result<ImagePayload, String>;

    /// Reads an answer-extraction reply (JSON text) into its members, or
    /// returns the JSON parser's message.
    fn parse_response_payload(&mut self, payload: &str) -> Result<ResponsePayload, String>;

    /// Reads a conversation listing (a JSON array of titles and URLs), or
    /// returns the JSON parser's message.
    fn parse_conversations(&mut self, payload: &str) -> Result<Vec<SafariConversation>, String>;

    /// Reads a deep research reply (JSON text) into its members, or returns
    /// the JSON parser's message.
    fn parse_deep_research_payload(&mut self, payload: &str) -> Result<DeepResearchPayload, String>;

    /// Reads a feed reply (a JSON array of posts), or returns the JSON
    /// parser's message.
    fn parse_feed_posts(&mut self, payload: &str) -> Result<Vec<SocialFeedPost>, String>;

    /// The time of day on the wall clock, in Unix seconds.
    fn now_unix_seconds(&mut self) -> i64;

    /// The scan state kept between runs.
    fn load_scan_state(&mut self) -> ScanState;

    /// Keeps the scan state for later runs, or returns why it could not.
    fn save_scan_state(&mut self, state: &ScanState) -> Result<(), String>;

    /// A name for a page outline that no other outline of this process uses.
    fn next_snapshot_id(&mut self) -> String;

    /// Whether a file or directory exists at `path`.
    fn path_exists(&mut self, path: &str) -> bool;

    /// Creates the directory `path` with its missing parents, or returns why
    /// it could not.
    fn create_dir_all(&mut self, path: &str) -> Result<(), String>;

    /// Writes `bytes` to the file `path`, or returns why it could not.
    fn write_file(&mut self, path: &str, bytes: &[u8]) -> Result<(), String>;
}

/// The outcome an operation took from one script: its output or its error.
pub type Outcome = Result<Seq<char>, MacosErrorView>;

/// One script handed to the host, with the outcome the session took from it.
pub struct ScriptRun {
    pub script: Seq<char>,
    pub outcome: Outcome,
}

/// The attempts of one run: each outcome the host gave, in order, and the
/// pauses between them, in milliseconds.
pub struct Tries {
    pub attempts: Seq<Result<String, MacosError>>,
    pub waits: Seq<u64>,
}

/// The attempts of a run went as the rate-limit rule says: every attempt but
/// the last met a rate limit and was followed by a pause of 30 s times its
/// number (from 1); the run stopped at the first attempt without a rate limit,
/// whose outcome `r` is, or after the last retry, when `r` is the rate-limit
/// error with that attempt's detail.
pub open spec fn attempts_went(t: Tries, context: Seq<char>, r: Result<String, MacosError>) -> bool {
    &&& 1 <= t.attempts.len() <= SAFARI_429_MAX_RETRIES + 1
    &&& t.waits.len() == t.attempts.len() - 1
    &&& forall|i: int| 0 <= i < t.attempts.len() - 1 ==> spec_limited_detail(#[trigger] t.attempts[i]) is Some
    &&& forall|i: int| 0 <= i < t.waits.len() ==> #[trigger] t.waits[i] == 30_000 * (i + 1)
    &&& match spec_limited_detail(t.attempts.last()) {
        None => r == t.attempts.last(),
        Some(detail) => t.attempts.len() == SAFARI_429_MAX_RETRIES + 1
            && fails_with(r, MacosErrorView::Other(spec_rate_limit_message(context, detail))),
    }
}

/// What the answer waits read, in order: the clock readings they took and
/// the answer replies they parsed.
pub struct WaitNotes {
    pub clock: Seq<u64>,
    pub payloads: Seq<ResponsePayload>,
}

/// A Safari automation session on a host: when the last operation was allowed
/// to start, the record of the scripts run so far, the attempts of each, and
/// what the answer waits read.
pub struct Safari<H: SafariHost> {
    pub host: H,
    pub last_operation_at: Option<u64>,
    pub runs: Ghost<Seq<ScriptRun>>,
    pub tries: Ghost<Seq<Tries>>,
    pub notes: Ghost<WaitNotes>,
    /// The image files written, in order: each path with its bytes.
    pub saved_files: Ghost<Seq<(Seq<char>, Seq<u8>)>>,
    /// The scroll-and-read snapshots the host parsed, in order.
    pub scroll_reads: Ghost<Seq<SafariScrollReadSnapshot>>,
    /// The errors of the file operations that failed, in order.
    pub file_failures: Ghost<Seq<MacosErrorView>>,
    /// The clock readings that the waits for a send button took, in order.
    pub send_clock: Ghost<Seq<u64>>,
}

/// `after` is `before` with one more run, of `script`.
pub open spec fn one_more_run(before: Seq<ScriptRun>, after: Seq<ScriptRun>, script: Seq<char>) -> bool {
    &&& after.len() == before.len() + 1
    &&& after.drop_last() == before
    &&& after.last().script == script
}

/// `r` failed with the error `e`.
pub open spec fn fails_with<T>(r: Result<T, MacosError>, e: MacosErrorView) -> bool {
    r matches Err(x) && x@ == e
}

/// The reservation a wait is counted from: none when adding the delay to it
/// would run past the end of the clock's range.
pub open spec fn usable_reservation(last: Option<u64>) -> Option<u64> {
    match last {
        Some(l) => if l <= u64::MAX - SAFARI_OPERATION_DELAY_MS {
            Some(l)
        } else {
            None
        },
        None => None,
    }
}

/// The error for an evaluation reply that does not read.
pub open spec fn eval_response_failure(m: Seq<char>) -> MacosErrorView {
    MacosErrorView::Other("invalid Safari evaluation response: "@ + m)
}

/// The error for a scroll poll reply that does not read.
pub open spec fn snapshot_failure(m: Seq<char>, payload: Seq<char>) -> MacosErrorView {
    MacosErrorView::Other("invalid scroll/read payload: "@ + m + ": "@ + payload)
}

impl<H: SafariHost> Safari<H> {
    /// A session on `host` that has run nothing yet.
    pub fn new(host: H) -> (s: Self)
        ensures
            s.runs@ == Seq::<ScriptRun>::empty(),
            s.tries@ == Seq::<Tries>::empty(),
            s.notes@.clock == Seq::<u64>::empty(),
            s.notes@.payloads == Seq::<ResponsePayload>::empty(),
            s.saved_files@ == Seq::<(Seq<char>, Seq<u8>)>::empty(),
            s.scroll_reads@ == Seq::<SafariScrollReadSnapshot>::empty(),
            s.file_failures@ == Seq::<MacosErrorView>::empty(),
            s.send_clock@ == Seq::<u64>::empty(),
            s.last_operation_at is None,
    {
        Safari {
            host,
            last_operation_at: None,
            runs: Ghost(Seq::empty()),
            tries: Ghost(Seq::empty()),
            notes: Ghost(WaitNotes { clock: Seq::empty(), payloads: Seq::empty() }),
            saved_files: Ghost(Seq::empty()),
            scroll_reads: Ghost(Seq::empty()),
            file_failures: Ghost(Seq::empty()),
            send_clock: Ghost(Seq::empty()),
        }
    }

    /// Waits until the next operation may start, and reserves that slot.
    /// A reservation too close to the end of the clock's range to add the
    /// delay to is not waited for.
    fn throttle(&mut self)
        ensures
            final(self).runs == old(self).runs,
            final(self).tries == old(self).tries,
            final(self).notes == old(self).notes,
            final(self).saved_files == old(self).saved_files,
            final(self).scroll_reads == old(self).scroll_reads,
            final(self).file_failures == old(self).file_failures,
            final(self).send_clock == old(self).send_clock,
            exists|now: u64| final(self).last_operation_at == Some(
                #[trigger] spec_next_safari_operation(now, usable_reservation(old(self).last_operation_at)).1,
            ),
    {
        let now = self.host.now_millis();
        let last = match self.last_operation_at {
            Some(l) => if l <= u64::MAX - SAFARI_OPERATION_DELAY_MS {
                Some(l)
            } else {
                None
            },
            None => None,
        };
        assert(last == usable_reservation(old(self).last_operation_at));
        let (delay, next_allowed) = compute_next_safari_operation(now, last);
        self.last_operation_at = Some(next_allowed);
        assert(self.last_operation_at == Some(spec_next_safari_operation(now, usable_reservation(old(self).last_operation_at)).1));
        match delay {
            Some(d) => self.host.sleep_millis(d),
            None => {},
        }
    }

    /// Runs a script, pacing it after the previous one and running it again
    /// after a rate-limit reply, as `rate_limit_step` decides; the run is
    /// recorded with its final outcome.
    pub fn run_capture(&mut self, script: &str, context: &str) -> (r: Result<String, MacosError>)
        ensures
            final(self).runs@ == old(self).runs@.push((ScriptRun { script: script@, outcome: result_view(r) })),
            r matches Ok(out) ==> !spec_is_safari_rate_limited(out@),
            final(self).tries@.len() == old(self).tries@.len() + 1,
            final(self).tries@.drop_last() == old(self).tries@,
            attempts_went(final(self).tries@.last(), context@, r),
            final(self).notes == old(self).notes,
            final(self).saved_files == old(self).saved_files,
            final(self).scroll_reads == old(self).scroll_reads,
            final(self).file_failures == old(self).file_failures,
            final(self).send_clock == old(self).send_clock,
    {
        let ghost runs0 = self.runs@;
        let ghost mut attempts: Seq<Result<String, MacosError>> = Seq::empty();
        let ghost mut waits: Seq<u64> = Seq::empty();
        let mut attempt: usize = 0;
        loop
            invariant
                attempt <= SAFARI_429_MAX_RETRIES,
                self.runs@ == runs0,
                runs0 == old(self).runs@,
                self.tries@ == old(self).tries@,
                self.notes == old(self).notes,
                self.saved_files == old(self).saved_files,
                self.scroll_reads == old(self).scroll_reads,
                self.file_failures == old(self).file_failures,
                self.send_clock == old(self).send_clock,
                attempts.len() == attempt,
                waits.len() == attempt,
                forall|i: int| 0 <= i < attempts.len() ==> spec_limited_detail(#[trigger] attempts[i]) is Some,
                forall|i: int| 0 <= i < waits.len() ==> #[trigger] waits[i] == 30_000 * (i + 1),
            decreases SAFARI_429_MAX_RETRIES - attempt,
        {
            self.throttle();
            let outcome = self.host.run_applescript(script, context);
            let ghost this = outcome;
            proof {
                attempts = attempts.push(this);
            }
            match rate_limit_step(attempt, outcome, context) {
                RateLimitStep::Finish(o) => {
                    self.runs = Ghost(self.runs@.push(ScriptRun { script: script@, outcome: result_view(o) }));
                    self.tries = Ghost(self.tries@.push(Tries { attempts, waits }));
                    assert(self.tries@.drop_last() =~= old(self).tries@);
                    return o;
                },
                RateLimitStep::GiveUp(e) => {
                    let r: Result<String, MacosError> = Err(e);
                    self.runs = Ghost(self.runs@.push(ScriptRun { script: script@, outcome: result_view(r) }));
                    self.tries = Ghost(self.tries@.push(Tries { attempts, waits }));
                    assert(self.tries@.drop_last() =~= old(self).tries@);
                    return r;
                },
                RateLimitStep::Retry { backoff_secs } => {
                    self.host.sleep_millis(backoff_secs * 1000);
                    proof {
                        waits = waits.push((backoff_secs * 1000) as u64);
                    }
                    attempt = attempt + 1;
                },
            }
        }
    }
}
/// AppleScript that makes tab `index` (from 0) of window `window_id` current and brings the window to the front; it prints `true` when it did.
pub open spec fn spec_build_focus_tab_script(window_id: i64, index: usize) -> Seq<char> {
    r#"
        tell application "Safari"
            repeat with w in every window
                if (id of w) is "#@ + signed_decimal(window_id as int) + r" then
                    set current tab of w to tab "@ + decimal((index + 1) as nat) + r#" of w
                    set index of w to 1
                    return "true"
                end if
            end repeat
            return "false"
        end tell
        "#@
}

/// AppleScript that makes tab `index` (from 0) of window `window_id` current and brings the window to the front; it prints `true` when it did.
pub fn build_focus_tab_script(window_id: i64, index: usize) -> (r: String)
    ensures
        r@ == spec_build_focus_tab_script(window_id, index),
{
    let mut s = String::new();
    s.append(r#"
        tell application "Safari"
            repeat with w in every window
                if (id of w) is "#);
    push_signed_decimal(&mut s, window_id);
    s.append(r" then
                    set current tab of w to tab ");
    push_decimal(&mut s, index as u128 + 1);
    s.append(r#" of w
                    set index of w to 1
                    return "true"
                end if
            end repeat
            return "false"
        end tell
        "#);
    assert(s@ =~= spec_build_focus_tab_script(window_id, index));
    s
}

/// AppleScript that closes tab `index` (from 0) of window `window_id`, if the window still has it.
pub open spec fn spec_build_close_tab_script(window_id: i64, index: usize) -> Seq<char> {
    r#"
            tell application "Safari"
                repeat with w in every window
                    if (id of w) is "#@ + signed_decimal(window_id as int) + r" then
                        set tabIdx to "@ + decimal(index as nat) + r" + 1
                        if tabIdx ≤ (count of tabs of w) then
                            close tab tabIdx of w
                        end if
                        exit repeat
                    end if
                end repeat
            end tell
            "@
}

/// AppleScript that closes tab `index` (from 0) of window `window_id`, if the window still has it.
pub fn build_close_tab_script(window_id: i64, index: usize) -> (r: String)
    ensures
        r@ == spec_build_close_tab_script(window_id, index),
{
    let mut s = String::new();
    s.append(r#"
            tell application "Safari"
                repeat with w in every window
                    if (id of w) is "#);
    push_signed_decimal(&mut s, window_id);
    s.append(r" then
                        set tabIdx to ");
    push_decimal(&mut s, index as u128);
    s.append(r" + 1
                        if tabIdx ≤ (count of tabs of w) then
                            close tab tabIdx of w
                        end if
                        exit repeat
                    end if
                end repeat
            end tell
            ");
    assert(s@ =~= spec_build_close_tab_script(window_id, index));
    s
}

/// The tabs among `tabs` whose profile is `profile`, in order.
pub open spec fn tabs_of_profile(tabs: Seq<SafariTabView>, profile: Seq<char>) -> Seq<SafariTabView>
    decreases tabs.len(),
{
    if tabs.len() == 0 {
        seq![]
    } else {
        let r = tabs_of_profile(tabs.drop_last(), profile);
        if tabs.last().profile == Some(profile) {
            r.push(tabs.last())
        } else {
            r
        }
    }
}

/// The tabs a tab listing reports, kept to one profile when one is given.
pub open spec fn spec_tabs(out: Outcome, profile_filter: Option<Seq<char>>) -> Result<Seq<SafariTabView>, MacosErrorView> {
    match out {
        Ok(stdout) => {
            let all = spec_parse_tabs_output(stdout);
            match profile_filter {
                Some(p) => Ok(tabs_of_profile(all, p)),
                None => Ok(all),
            }
        },
        Err(e) => Err(e),
    }
}

/// The views of a list of tabs, or the error.
pub open spec fn tabs_result(r: Result<Vec<SafariTab>, MacosError>) -> Result<Seq<SafariTabView>, MacosErrorView> {
    match r {
        Ok(v) => Ok(tab_views(v@)),
        Err(e) => Err(e@),
    }
}

/// A tab with the profile its window title names.
pub open spec fn with_title_profile(t: SafariTabView) -> SafariTabView {
    SafariTabView { profile: spec_extract_profile(t.window_name, t.title), ..t }
}

/// The tab a single-tab script reports, with its profile.
pub open spec fn spec_single_tab(out: Outcome) -> Result<Option<SafariTabView>, MacosErrorView> {
    match out {
        Ok(stdout) => match spec_parse_tab_line(trim(stdout)) {
            Some(t) => Ok(Some(with_title_profile(t))),
            None => Ok(None),
        },
        Err(e) => Err(e),
    }
}

/// The view of an optional tab, or the error.
pub open spec fn opt_tab_result(r: Result<Option<SafariTab>, MacosError>) -> Result<Option<SafariTabView>, MacosErrorView> {
    match r {
        Ok(t) => Ok(opt_tab_view(t)),
        Err(e) => Err(e@),
    }
}

/// The view of a tab, or the error.
pub open spec fn tab_result(r: Result<SafariTab, MacosError>) -> Result<SafariTabView, MacosErrorView> {
    match r {
        Ok(t) => Ok(t@),
        Err(e) => Err(e@),
    }
}

fn filter_profile(tabs: Vec<SafariTab>, profile: &str) -> (r: Vec<SafariTab>)
    ensures
        tab_views(r@) == tabs_of_profile(tab_views(tabs@), profile@),
{
    let ghost tv = tab_views(tabs@);
    let mut out: Vec<SafariTab> = Vec::new();
    let mut i: usize = 0;
    let mut rest = tabs;
    let ghost all = rest@;
    while i < rest.len()
        invariant
            i <= rest.len(),
            rest@ == all,
            tv == tab_views(all),
            tab_views(out@) == tabs_of_profile(tv.take(i as int), profile@),
        decreases rest.len() - i,
    {
        proof {
            assert(tv.take(i + 1).drop_last() =~= tv.take(i as int));
            assert(tv.take(i + 1).last() == rest@[i as int]@);
        }
        let keep = match &rest[i].profile {
            Some(p) => {
                let a = chars_of(p.as_str());
                let b = chars_of(profile);
                chars_eq(a.as_slice(), b.as_slice())
            },
            None => false,
        };
        if keep {
            let ghost before = out@;
            out.push(rest[i].clone_tab());
            assert(tab_views(out@) =~= tab_views(before).push(rest@[i as int]@));
        }
        i = i + 1;
    }
    assert(tv.take(rest.len() as int) =~= tv);
    out
}

impl<H: SafariHost> Safari<H> {
    fn single_tab(out: Result<String, MacosError>) -> (r: Result<Option<SafariTab>, MacosError>)
        ensures
            opt_tab_result(r) == spec_single_tab(result_view(out)),
    {
        match out {
            Ok(stdout) => {
                let v = chars_of(stdout.as_str());
                let t = trim_chars(v.as_slice());
                let line = crate::text::string_of(t.as_slice());
                match parse_tab_line(line.as_str()) {
                    Some(tab) => {
                        let profile = extract_profile(tab.window_name.as_str(), tab.title.as_str());
                        Ok(Some(SafariTab { profile, ..tab }))
                    },
                    None => Ok(None),
                }
            },
            Err(e) => Err(e),
        }
    }
}

/// Lists the open tabs, keeping those of one profile when `profile_filter` names one.
pub fn tabs<H: SafariHost>(safari: &mut Safari<H>, profile_filter: Option<&str>) -> (r: Result<Vec<SafariTab>, MacosError>)
    ensures
        one_more_run(old(safari).runs@, final(safari).runs@, spec_build_tabs_script()),
        tabs_result(r) == spec_tabs(final(safari).runs@.last().outcome, opt_view(profile_filter)),
        final(safari).scroll_reads == old(safari).scroll_reads,
{
    let script = build_tabs_script();
    let out = safari.run_capture(script.as_str(), "safari_tabs");
    assert(final(safari).runs@.drop_last() =~= old(safari).runs@);
    match out {
        Ok(stdout) => {
            let all = parse_tabs_output(stdout.as_str());
            match profile_filter {
                Some(p) => Ok(filter_profile(all, p)),
                None => Ok(all),
            }
        },
        Err(e) => Err(e),
    }
}

/// The current tab of the front window (of the profile's window when one is
/// named), if there is one.
pub fn active<H: SafariHost>(safari: &mut Safari<H>, profile_filter: Option<&str>) -> (r: Result<Option<SafariTab>, MacosError>)
    ensures
        one_more_run(old(safari).runs@, final(safari).runs@, spec_build_active_tab_script(opt_view(profile_filter))),
        opt_tab_result(r) == spec_single_tab(final(safari).runs@.last().outcome),
        final(safari).scroll_reads == old(safari).scroll_reads,
{
    let script = build_active_tab_script(profile_filter);
    let out = safari.run_capture(script.as_str(), "safari_active");
    assert(final(safari).runs@.drop_last() =~= old(safari).runs@);
    Safari::<H>::single_tab(out)
}

/// Opens `url` in a new tab (in the profile's window when one is named) and
/// returns that tab.
pub fn open<H: SafariHost>(safari: &mut Safari<H>, url: &str, profile_filter: Option<&str>) -> (r: Result<Option<SafariTab>, MacosError>)
    ensures
        one_more_run(old(safari).runs@, final(safari).runs@, spec_build_open_script(url@, opt_view(profile_filter))),
        opt_tab_result(r) == spec_single_tab(final(safari).runs@.last().outcome),
{
    let script = build_open_script(url, profile_filter);
    let out = safari.run_capture(script.as_str(), "safari_open");
    assert(final(safari).runs@.drop_last() =~= old(safari).runs@);
    Safari::<H>::single_tab(out)
}

/// How errors name a tab: by window id and index.
pub open spec fn tab_identity(tab: SafariTabView) -> Seq<char> {
    "window "@ + signed_decimal(tab.window_id as int) + " tab index "@ + decimal(tab.index as nat)
}

/// What a JavaScript run in `tab` yields: the decoded text it printed, or the
/// error, with a timeout named after the tab.
pub open spec fn spec_js_outcome(out: Outcome, tab: SafariTabView) -> Result<Seq<char>, MacosErrorView> {
    match out {
        Ok(stdout) => Ok(decode(trim(stdout), tab_sep())),
        Err(e) => Err(spec_map_js_timeout(e, tab_identity(tab))),
    }
}

/// The script that finds the target tab: the active-tab script when no
/// selector is given, else the tab listing.
pub open spec fn spec_resolve_script(selector: Option<Seq<char>>, profile_filter: Option<Seq<char>>) -> Seq<char> {
    match selector {
        None => spec_build_active_tab_script(profile_filter),
        Some(_) => spec_build_tabs_script(),
    }
}

/// The target tab that the resolving script's outcome gives.
pub open spec fn spec_resolved_tab(selector: Option<Seq<char>>, profile_filter: Option<Seq<char>>, out: Outcome) -> Result<SafariTabView, MacosErrorView> {
    match selector {
        None => match spec_single_tab(out) {
            Ok(Some(t)) => Ok(t),
            Ok(None) => Err(MacosErrorView::Other("no Safari tab available"@)),
            Err(e) => Err(e),
        },
        Some(sel) => match spec_tabs(out, profile_filter) {
            Ok(ts) => spec_select_tab(ts, sel),
            Err(e) => Err(e),
        },
    }
}

/// The runs of an operation on a target tab: `after` extends `before` by the
/// run that resolves the tab and, when that found one, one more run.
pub open spec fn tab_op_runs(before: Seq<ScriptRun>, after: Seq<ScriptRun>, selector: Option<Seq<char>>, profile_filter: Option<Seq<char>>) -> bool {
    &&& after.len() >= before.len() + 1
    &&& after.take(before.len() as int) == before
    &&& after[before.len() as int].script == spec_resolve_script(selector, profile_filter)
    &&& after.len() == before.len() + (if spec_resolved_tab(selector, profile_filter, after[before.len() as int].outcome) is Ok {
        2int
    } else {
        1int
    })
}

/// The target tab an operation found, from the first of its runs.
pub open spec fn resolution(before: Seq<ScriptRun>, after: Seq<ScriptRun>, selector: Option<Seq<char>>, profile_filter: Option<Seq<char>>) -> Result<SafariTabView, MacosErrorView> {
    spec_resolved_tab(selector, profile_filter, after[before.len() as int].outcome)
}

fn tab_identity_text(tab: &SafariTab) -> (r: String)
    ensures
        r@ == tab_identity(tab@),
{
    let mut s = String::from_str("window ");
    push_signed_decimal(&mut s, tab.window_id);
    s.append(" tab index ");
    push_decimal(&mut s, tab.index as u128);
    s
}

fn no_tab_available() -> (e: MacosError)
    ensures
        e@ == MacosErrorView::Other("no Safari tab available"@),
{
    MacosError::Other(String::from_str("no Safari tab available"))
}

impl<H: SafariHost> Safari<H> {
    /// Runs JavaScript in `tab`, after checking that the tab still shows what
    /// it showed, and returns the text it printed.
    pub fn run_js_in_tab(&mut self, js_code: &str, tab: &SafariTab, context: &str) -> (r: Result<String, MacosError>)
        ensures
            one_more_run(old(self).runs@, final(self).runs@, spec_build_tab_js_script(js_code@, tab@)),
            result_view(r) == spec_js_outcome(final(self).runs@.last().outcome, tab@),
            final(self).scroll_reads == old(self).scroll_reads,
    {
        let script = build_tab_js_script(js_code, tab);
        let out = self.run_capture(script.as_str(), context);
        assert(final(self).runs@.drop_last() =~= old(self).runs@);
        match out {
            Ok(stdout) => {
                let v = chars_of(stdout.as_str());
                let t = trim_chars(v.as_slice());
                Ok(decode_field(t.as_slice()))
            },
            Err(e) => {
                let identity = tab_identity_text(tab);
                Err(map_js_timeout(e, identity.as_str()))
            },
        }
    }

    /// Finds the target tab: the named one, or the active one.
    pub fn resolve_tab(&mut self, selector: Option<&str>, profile_filter: Option<&str>) -> (r: Result<SafariTab, MacosError>)
        ensures
            one_more_run(old(self).runs@, final(self).runs@, spec_resolve_script(opt_view(selector), opt_view(profile_filter))),
            tab_result(r) == spec_resolved_tab(opt_view(selector), opt_view(profile_filter), final(self).runs@.last().outcome),
            final(self).scroll_reads == old(self).scroll_reads,
    {
        match selector {
            None => match active(self, profile_filter) {
                Ok(Some(t)) => Ok(t),
                Ok(None) => Err(no_tab_available()),
                Err(e) => Err(e),
            },
            Some(sel) => match tabs(self, profile_filter) {
                Ok(all) => select_tab(all, sel),
                Err(e) => Err(e),
            },
        }
    }
}

/// The tab that focusing picks from a listing: by index, or the first whose
/// URL or title contains the selector, ignoring case.
pub open spec fn spec_focus_pick(tabs: Seq<SafariTabView>, selector: Seq<char>) -> Option<SafariTabView> {
    match parse_usize(selector) {
        Some(i) => if i < tabs.len() {
            Some(tabs[i as int])
        } else {
            None
        },
        None => {
            let m = matching_tabs(tabs, lowercase(selector));
            if m.len() > 0 {
                Some(m[0])
            } else {
                None
            }
        },
    }
}

/// The tab to focus, from the listing.
pub open spec fn spec_focus_target(listing: Result<Seq<SafariTabView>, MacosErrorView>, selector: Seq<char>) -> Result<SafariTabView, MacosErrorView> {
    match listing {
        Err(e) => Err(e),
        Ok(ts) => if ts.len() == 0 {
            Err(MacosErrorView::Other("no Safari tabs found"@))
        } else {
            match spec_focus_pick(ts, selector) {
                Some(t) => Ok(t),
                None => Err(MacosErrorView::Other(no_tab_message(selector))),
            }
        },
    }
}

/// What focusing `tab` yields, from the focus script's outcome.
pub open spec fn spec_focus_outcome(out: Outcome, tab: SafariTabView, selector: Seq<char>) -> Result<SafariTabView, MacosErrorView> {
    match out {
        Ok(stdout) => if trim(stdout) == "true"@ {
            Ok(tab)
        } else {
            Err(MacosErrorView::Other("failed to focus tab '"@ + selector + "'"@))
        },
        Err(e) => Err(e),
    }
}

fn focus_pick(all: Vec<SafariTab>, selector: &str) -> (r: Option<SafariTab>)
    ensures
        opt_tab_view(r) == spec_focus_pick(tab_views(all@), selector@),
{
    let sel = chars_of(selector);
    let ghost tv = tab_views(all@);
    match parse_usize_chars(sel.as_slice()) {
        Some(index) => {
            if index < all.len() {
                let mut v = all;
                assert(tv[index as int] == v@[index as int]@);
                return Some(v.swap_remove(index));
            }
            return None;
        },
        None => {},
    }
    let lowered = to_lowercase(selector);
    let query = chars_of(lowered.as_str());
    let mut i: usize = 0;
    while i < all.len()
        invariant
            i <= all.len(),
            tv == tab_views(all@),
            query@ == lowercase(selector@),
            parse_usize(selector@) is None,
            matching_tabs(tv.take(i as int), query@).len() == 0,
        decreases all.len() - i,
    {
        proof {
            assert(tv.take(i + 1).drop_last() =~= tv.take(i as int));
            assert(tv.take(i + 1).last() == tv[i as int]);
            assert(tv[i as int] == all@[i as int]@);
        }
        if tab_matches_exec(&all[i], query.as_slice()) {
            proof {
                lemma_first_match(tv, query@, i as int);
            }
            let mut v = all;
            assert(tv[i as int] == v@[i as int]@);
            return Some(v.swap_remove(i));
        }
        i = i + 1;
    }
    assert(tv.take(all.len() as int) =~= tv);
    None
}

fn tab_matches_exec(t: &SafariTab, query: &[char]) -> (r: bool)
    ensures
        r == tab_matches(t@, query@),
{
    let url = to_lowercase(t.url.as_str());
    let title = to_lowercase(t.title.as_str());
    let u = chars_of(url.as_str());
    let ti = chars_of(title.as_str());
    contains_exec(u.as_slice(), query) || contains_exec(ti.as_slice(), query)
}

/// When no tab before `i` matches and tab `i` does, tab `i` is the first match.
proof fn lemma_first_match(tabs: Seq<SafariTabView>, query: Seq<char>, i: int)
    requires
        0 <= i < tabs.len(),
        matching_tabs(tabs.take(i), query).len() == 0,
        tab_matches(tabs[i], query),
    ensures
        matching_tabs(tabs, query).len() > 0,
        matching_tabs(tabs, query)[0] == tabs[i],
    decreases tabs.len(),
{
    assert(tabs.take(i + 1).drop_last() =~= tabs.take(i));
    assert(tabs.take(i + 1).last() == tabs[i]);
    lemma_matching_prefix(tabs, query, i + 1);
}

/// The matches of a prefix start the matches of the whole.
proof fn lemma_matching_prefix(tabs: Seq<SafariTabView>, query: Seq<char>, k: int)
    requires
        0 <= k <= tabs.len(),
    ensures
        matching_tabs(tabs, query).len() >= matching_tabs(tabs.take(k), query).len(),
        forall|j: int| 0 <= j < matching_tabs(tabs.take(k), query).len() ==> #[trigger] matching_tabs(tabs, query)[j] == matching_tabs(tabs.take(k), query)[j],
    decreases tabs.len() - k,
{
    if k < tabs.len() {
        lemma_matching_prefix(tabs, query, k + 1);
        assert(tabs.take(k + 1).drop_last() =~= tabs.take(k));
    } else {
        assert(tabs.take(k) =~= tabs);
    }
}

/// Makes the tab that `tab_selector` names (an index into the listing, or text
/// that the URL or title contains) the current tab of its window, and brings
/// the window to the front.
pub fn focus_tab<H: SafariHost>(safari: &mut Safari<H>, tab_selector: &str, profile_filter: Option<&str>) -> (r: Result<SafariTab, MacosError>)
    ensures
        ({
            let before = old(safari).runs@;
            let after = final(safari).runs@;
            &&& after.len() >= before.len() + 1
            &&& after.take(before.len() as int) == before
            &&& after[before.len() as int].script == spec_build_tabs_script()
            &&& match spec_focus_target(spec_tabs(after[before.len() as int].outcome, opt_view(profile_filter)), tab_selector@) {
                Err(e) => after.len() == before.len() + 1 && fails_with(r, e),
                Ok(t) => {
                    &&& after.len() == before.len() + 2
                    &&& after.last().script == spec_build_focus_tab_script(t.window_id, t.index)
                    &&& tab_result(r) == spec_focus_outcome(after.last().outcome, t, tab_selector@)
                },
            }
        }),
{
    let ghost before = safari.runs@;
    let listing = tabs(safari, profile_filter);
    let ghost mid = safari.runs@;
    assert(mid.take(before.len() as int) =~= before);
    let all = match listing {
        Ok(all) => all,
        Err(e) => {
            return Err(e);
        },
    };
    if all.len() == 0 {
        return Err(MacosError::Other(String::from_str("no Safari tabs found")));
    }
    let tab = match focus_pick(all, tab_selector) {
        Some(t) => t,
        None => {
            let mut m = String::from_str("no tab matching '");
            m.append(tab_selector);
            m.append("'");
            return Err(MacosError::Other(m));
        },
    };
    let script = build_focus_tab_script(tab.window_id, tab.index);
    let out = safari.run_capture(script.as_str(), "safari_focus_tab");
    assert(safari.runs@.take(before.len() as int) =~= before);
    assert(safari.runs@[before.len() as int] == mid[before.len() as int]);
    match out {
        Ok(stdout) => {
            let v = chars_of(stdout.as_str());
            let t = trim_chars(v.as_slice());
            let yes = chars_of("true");
            if chars_eq(t.as_slice(), yes.as_slice()) {
                Ok(tab)
            } else {
                let mut m = String::from_str("failed to focus tab '");
                m.append(tab_selector);
                m.append("'");
                Err(MacosError::Other(m))
            }
        },
        Err(e) => Err(e),
    }
}

/// Closes tab `index` (from 0) of the front window, or its current tab; says
/// whether a tab was closed.
pub fn close<H: SafariHost>(safari: &mut Safari<H>, index: Option<usize>) -> (r: Result<SafariCloseResult, MacosError>)
    ensures
        one_more_run(old(safari).runs@, final(safari).runs@, spec_build_close_script(index)),
        match final(safari).runs@.last().outcome {
            Ok(stdout) => r matches Ok(c) && c.closed == (trim(stdout) == "true"@) && c.index == index,
            Err(e) => fails_with(r, e),
        },
{
    let script = build_close_script(index);
    let out = safari.run_capture(script.as_str(), "safari_close");
    assert(final(safari).runs@.drop_last() =~= old(safari).runs@);
    match out {
        Ok(stdout) => {
            let v = chars_of(stdout.as_str());
            let t = trim_chars(v.as_slice());
            let yes = chars_of("true");
            Ok(SafariCloseResult { closed: chars_eq(t.as_slice(), yes.as_slice()), index })
        },
        Err(e) => Err(e),
    }
}

/// The tabs whose URL contains `pattern` (all of them when there is none), in order.
pub open spec fn tabs_to_close(tabs: Seq<SafariTabView>, pattern: Option<Seq<char>>) -> Seq<SafariTabView>
    decreases tabs.len(),
{
    if tabs.len() == 0 {
        seq![]
    } else {
        let r = tabs_to_close(tabs.drop_last(), pattern);
        let keep = match pattern {
            Some(p) => contains(tabs.last().url, p),
            None => true,
        };
        if keep {
            r.push(tabs.last())
        } else {
            r
        }
    }
}

/// How many of the runs succeeded.
pub open spec fn ok_count(runs: Seq<ScriptRun>) -> nat
    decreases runs.len(),
{
    if runs.len() == 0 {
        0
    } else {
        ok_count(runs.drop_last()) + if runs.last().outcome is Ok {
            1nat
        } else {
            0nat
        }
    }
}

/// Closes the tabs (of one profile, when named) whose URL contains
/// `url_pattern`, last first, and returns how many closings succeeded.
pub fn close_tabs<H: SafariHost>(safari: &mut Safari<H>, profile_filter: Option<&str>, url_pattern: Option<&str>) -> (r: Result<usize, MacosError>)
    ensures
        ({
            let before = old(safari).runs@;
            let after = final(safari).runs@;
            let listing = spec_tabs(after[before.len() as int].outcome, opt_view(profile_filter));
            &&& after.len() >= before.len() + 1
            &&& after.take(before.len() as int) == before
            &&& after[before.len() as int].script == spec_build_tabs_script()
            &&& match listing {
                Err(e) => after.len() == before.len() + 1 && fails_with(r, e),
                Ok(ts) => {
                    let victims = tabs_to_close(ts, opt_view(url_pattern));
                    let closing = after.skip(before.len() + 1int);
                    &&& closing.len() == victims.len()
                    &&& forall|k: int| 0 <= k < closing.len() ==> #[trigger] closing[k].script
                        == spec_build_close_tab_script(victims[victims.len() - 1 - k].window_id, victims[victims.len() - 1 - k].index)
                    &&& r == Ok::<usize, MacosError>(ok_count(closing) as usize)
                },
            }
        }),
{
    let ghost before = safari.runs@;
    let listing = tabs(safari, profile_filter);
    let ghost mid = safari.runs@;
    assert(mid.take(before.len() as int) =~= before);
    let all = match listing {
        Ok(all) => all,
        Err(e) => {
            return Err(e);
        },
    };
    let ghost tv = tab_views(all@);
    let mut victims: Vec<SafariTab> = Vec::new();
    let mut i: usize = 0;
    while i < all.len()
        invariant
            i <= all.len(),
            tv == tab_views(all@),
            tab_views(victims@) == tabs_to_close(tv.take(i as int), opt_view(url_pattern)),
        decreases all.len() - i,
    {
        proof {
            assert(tv.take(i + 1).drop_last() =~= tv.take(i as int));
            assert(tv.take(i + 1).last() == all@[i as int]@);
        }
        let keep = match url_pattern {
            Some(p) => {
                let u = chars_of(all[i].url.as_str());
                let q = chars_of(p);
                contains_exec(u.as_slice(), q.as_slice())
            },
            None => true,
        };
        if keep {
            let ghost prev = victims@;
            victims.push(all[i].clone_tab());
            assert(tab_views(victims@) =~= tab_views(prev).push(all@[i as int]@));
        }
        i = i + 1;
    }
    assert(tv.take(all.len() as int) =~= tv);
    let ghost vv = tab_views(victims@);
    let mut closed: usize = 0;
    let mut k: usize = 0;
    while k < victims.len()
        invariant
            k <= victims.len(),
            vv == tab_views(victims@),
            closed <= k,
            safari.runs@.len() == mid.len() + k,
            safari.runs@.take(mid.len() as int) == mid,
            mid.len() == before.len() + 1,
            closed == ok_count(safari.runs@.skip(mid.len() as int)),
            forall|j: int| 0 <= j < k ==> #[trigger] safari.runs@.skip(mid.len() as int)[j].script
                == spec_build_close_tab_script(vv[vv.len() - 1 - j].window_id, vv[vv.len() - 1 - j].index),
        decreases victims.len() - k,
    {
        let t = &victims[victims.len() - 1 - k];
        let script = build_close_tab_script(t.window_id, t.index);
        let ghost prev = safari.runs@;
        let out = safari.run_capture(script.as_str(), "safari_close_tab");
        proof {
            assert(safari.runs@.take(mid.len() as int) =~= mid);
            assert(safari.runs@.skip(mid.len() as int).drop_last() =~= prev.skip(mid.len() as int));
            assert(vv[vv.len() - 1 - k] == victims@[victims.len() - 1 - k]@);
            assert forall|j: int| 0 <= j < k + 1 implies #[trigger] safari.runs@.skip(mid.len() as int)[j].script
                == spec_build_close_tab_script(vv[vv.len() - 1 - j].window_id, vv[vv.len() - 1 - j].index) by {
                if j < k {
                    assert(safari.runs@.skip(mid.len() as int)[j] == prev.skip(mid.len() as int)[j]);
                }
            }
        }
        if out.is_ok() {
            closed = closed + 1;
        }
        k = k + 1;
    }
    proof {
        assert(safari.runs@.take(before.len() as int) =~= before);
        assert(safari.runs@[before.len() as int] == mid[before.len() as int]);
        assert(safari.runs@.skip(before.len() + 1int) == safari.runs@.skip(mid.len() as int));
    }
    Ok(closed)
}

/// The runs of an operation that runs `js_code` in its target tab.
pub open spec fn tab_js_runs(before: Seq<ScriptRun>, after: Seq<ScriptRun>, selector: Option<Seq<char>>, profile_filter: Option<Seq<char>>, js_code: Seq<char>) -> bool {
    &&& tab_op_runs(before, after, selector, profile_filter)
    &&& resolution(before, after, selector, profile_filter) matches Ok(tab) ==> after.last().script
        == spec_build_tab_js_script(js_code, tab)
}

/// What such an operation got: the text the JavaScript printed, or the error.
pub open spec fn tab_js_result(before: Seq<ScriptRun>, after: Seq<ScriptRun>, selector: Option<Seq<char>>, profile_filter: Option<Seq<char>>) -> Result<Seq<char>, MacosErrorView> {
    match resolution(before, after, selector, profile_filter) {
        Err(e) => Err(e),
        Ok(tab) => spec_js_outcome(after.last().outcome, tab),
    }
}

/// Runs `js_code` in the target tab.
pub(crate) fn js_in_target<H: SafariHost>(safari: &mut Safari<H>, js_code: &str, tab_selector: Option<&str>, profile_filter: Option<&str>, context: &str) -> (r: Result<String, MacosError>)
    ensures
        tab_js_runs(old(safari).runs@, final(safari).runs@, opt_view(tab_selector), opt_view(profile_filter), js_code@),
        result_view(r) == tab_js_result(old(safari).runs@, final(safari).runs@, opt_view(tab_selector), opt_view(profile_filter)),
{
    let ghost before = safari.runs@;
    let found = safari.resolve_tab(tab_selector, profile_filter);
    let ghost mid = safari.runs@;
    assert(mid.take(before.len() as int) =~= before);
    let tab = match found {
        Ok(t) => t,
        Err(e) => {
            return Err(e);
        },
    };
    let out = safari.run_js_in_tab(js_code, &tab, context);
    assert(safari.runs@.take(before.len() as int) =~= before);
    assert(safari.runs@[before.len() as int] == mid[before.len() as int]);
    out
}

/// The JavaScript that reads the page's HTML.
pub open spec fn spec_source_js() -> Seq<char> {
    "document.documentElement.outerHTML"@
}

/// The HTML of the target tab.
pub fn source<H: SafariHost>(safari: &mut Safari<H>, profile_filter: Option<&str>, tab_selector: Option<&str>) -> (r: Result<SafariSourceResult, MacosError>)
    ensures
        tab_js_runs(old(safari).runs@, final(safari).runs@, opt_view(tab_selector), opt_view(profile_filter), spec_source_js()),
        match tab_js_result(old(safari).runs@, final(safari).runs@, opt_view(tab_selector), opt_view(profile_filter)) {
            Ok(html) => r matches Ok(v) && v.html@ == html,
            Err(e) => fails_with(r, e),
        },
{
    match js_in_target(safari, "document.documentElement.outerHTML", tab_selector, profile_filter, "safari_source") {
        Ok(html) => Ok(SafariSourceResult { html }),
        Err(e) => Err(e),
    }
}

/// The JavaScript that reads the text of the elements `selector` matches, or of the whole page.
pub open spec fn spec_read_js(selector: Option<Seq<char>>) -> Seq<char> {
    match selector {
        Some(s) => spec_selector_text_js(s),
        None => "(document.body.innerText ?? \"\").trim()"@,
    }
}

/// The visible text of the elements `selector` matches, or of the page.
pub fn read<H: SafariHost>(safari: &mut Safari<H>, selector: Option<&str>, profile_filter: Option<&str>, tab_selector: Option<&str>) -> (r: Result<SafariReadResult, MacosError>)
    ensures
        tab_js_runs(old(safari).runs@, final(safari).runs@, opt_view(tab_selector), opt_view(profile_filter), spec_read_js(opt_view(selector))),
        match tab_js_result(old(safari).runs@, final(safari).runs@, opt_view(tab_selector), opt_view(profile_filter)) {
            Ok(content) => r matches Ok(v) && v.content@ == content && opt_string(v.selector) == opt_view(selector),
            Err(e) => fails_with(r, e),
        },
{
    let js = match selector {
        Some(sel) => selector_text_js(sel),
        None => String::from_str("(document.body.innerText ?? \"\").trim()"),
    };
    match js_in_target(safari, js.as_str(), tab_selector, profile_filter, "safari_read") {
        Ok(content) => {
            let sel = match selector {
                Some(s) => Some(String::from_str(s)),
                None => None,
            };
            Ok(SafariReadResult { selector: sel, content })
        },
        Err(e) => Err(e),
    }
}

/// An element action's reply: `true`, or the message the page gave.
pub open spec fn action_reply(reply: Result<Seq<char>, MacosErrorView>) -> Result<(), MacosErrorView> {
    match reply {
        Ok(text) => if trim(text) == "true"@ {
            Ok(())
        } else {
            Err(MacosErrorView::Other(text))
        },
        Err(e) => Err(e),
    }
}

fn is_true_reply(text: &String) -> (r: bool)
    ensures
        r == (trim(text@) == "true"@),
{
    let v = chars_of(text.as_str());
    let t = trim_chars(v.as_slice());
    let yes = chars_of("true");
    chars_eq(t.as_slice(), yes.as_slice())
}

/// Clicks the element `selector` matches in the target tab.
pub fn click<H: SafariHost>(safari: &mut Safari<H>, selector: &str, profile_filter: Option<&str>, tab_selector: Option<&str>) -> (r: Result<SafariClickResult, MacosError>)
    ensures
        tab_js_runs(old(safari).runs@, final(safari).runs@, opt_view(tab_selector), opt_view(profile_filter), spec_selector_click_js(selector@)),
        match action_reply(tab_js_result(old(safari).runs@, final(safari).runs@, opt_view(tab_selector), opt_view(profile_filter))) {
            Ok(_) => r matches Ok(v) && v.clicked && v.selector@ == selector@,
            Err(e) => fails_with(r, e),
        },
{
    let js = selector_click_js(selector);
    match js_in_target(safari, js.as_str(), tab_selector, profile_filter, "safari_click") {
        Ok(reply) => if is_true_reply(&reply) {
            Ok(SafariClickResult { clicked: true, selector: String::from_str(selector) })
        } else {
            Err(MacosError::Other(reply))
        },
        Err(e) => Err(e),
    }
}

/// Fills the element `selector` matches in the target tab with `text`.
pub fn fill<H: SafariHost>(safari: &mut Safari<H>, selector: &str, text: &str, profile_filter: Option<&str>, tab_selector: Option<&str>) -> (r: Result<SafariFillResult, MacosError>)
    ensures
        tab_js_runs(old(safari).runs@, final(safari).runs@, opt_view(tab_selector), opt_view(profile_filter), spec_selector_fill_js(selector@, text@)),
        match action_reply(tab_js_result(old(safari).runs@, final(safari).runs@, opt_view(tab_selector), opt_view(profile_filter))) {
            Ok(_) => r matches Ok(v) && v.filled && v.selector@ == selector@ && v.text@ == text@,
            Err(e) => fails_with(r, e),
        },
{
    let js = selector_fill_js(selector, text);
    match js_in_target(safari, js.as_str(), tab_selector, profile_filter, "safari_fill") {
        Ok(reply) => if is_true_reply(&reply) {
            Ok(SafariFillResult { filled: true, selector: String::from_str(selector), text: String::from_str(text) })
        } else {
            Err(MacosError::Other(reply))
        },
        Err(e) => Err(e),
    }
}

/// The runs of an evaluation in `tab` tagged with `token`: the evaluation
/// script, then poll scripts, each of them checked against the tab.
pub open spec fn eval_runs(runs: Seq<ScriptRun>, js_code: Seq<char>, token: Seq<char>, tab: SafariTabView) -> bool {
    &&& runs.len() >= 1
    &&& runs[0].script == spec_build_tab_js_script(spec_build_eval_js(js_code, token), tab)
    &&& forall|k: int| 1 <= k < runs.len() ==> #[trigger] runs[k].script == spec_build_tab_js_script(spec_build_poll_js(token), tab)
    &&& forall|k: int| 0 <= k < runs.len() - 1 ==> #[trigger] spec_js_outcome(runs[k].outcome, tab) is Ok
}

fn eval_reply<H: SafariHost>(safari: &mut Safari<H>, payload: &str) -> (r: Result<Option<SafariEvalResult>, MacosError>)
    ensures
        final(safari).runs == old(safari).runs,
        final(safari).last_operation_at == old(safari).last_operation_at,
        (exists|status: Seq<char>, value_type: Option<Seq<char>>, result_json: Option<Seq<char>>, error: Option<Seq<char>>|
            eval_outcome(r) == #[trigger] spec_decode_eval_wire(status, value_type, result_json, error)) || (exists|m: Seq<char>|
            r matches Err(e) && e@ == #[trigger] eval_response_failure(m)),
{
    match safari.host.parse_eval_wire(payload) {
        Ok(wire) => decode_eval_wire(&wire),
        Err(m) => {
            let mut msg = String::from_str("invalid Safari evaluation response: ");
            msg.append(m.as_str());
            assert(MacosErrorView::Other(msg@) == eval_response_failure(m@));
            Err(MacosError::Other(msg))
        },
    }
}

#[verifier::spinoff_prover]
/// Evaluates `js_code` in the target tab and returns its value as JSON text
/// with its JavaScript type. A value that a promise delivers later is polled
/// for every 250 ms until `timeout_seconds` have passed.
pub fn exec<H: SafariHost>(
    safari: &mut Safari<H>,
    js_code: &str,
    profile_filter: Option<&str>,
    tab_selector: Option<&str>,
    timeout_seconds: u64,
) -> (r: Result<SafariEvalResult, MacosError>)
    ensures
        ({
            let before = old(safari).runs@;
            let after = final(safari).runs@;
            let sel = opt_view(tab_selector);
            let prof = opt_view(profile_filter);
            &&& after.len() >= before.len() + 1
            &&& after.take(before.len() as int) == before
            &&& after[before.len() as int].script == spec_resolve_script(sel, prof)
            &&& match spec_resolved_tab(sel, prof, after[before.len() as int].outcome) {
                Err(e) => after.len() == before.len() + 1 && fails_with(r, e),
                Ok(tab) => {
                    &&& after.len() <= before.len() + 2 + 4 * timeout_seconds
                    &&& exists|token: Seq<char>| #[trigger] eval_runs(after.skip(before.len() + 1int), js_code@, token, tab)
                    &&& spec_js_outcome(after.last().outcome, tab) matches Err(e) ==> fails_with(r, e)
                },
            }
        }),
{
    let ghost before = safari.runs@;
    let found = safari.resolve_tab(tab_selector, profile_filter);
    let ghost mid = safari.runs@;
    assert(mid.take(before.len() as int) =~= before);
    let tab = match found {
        Ok(t) => t,
        Err(e) => {
            return Err(e);
        },
    };
    let token = safari.host.next_eval_token();
    let js = build_eval_js(js_code, token.as_str());
    let initial = safari.run_js_in_tab(js.as_str(), &tab, "safari_exec");
    let ghost base = safari.runs@;
    proof {
        assert(base.take(before.len() as int) =~= before);
        assert(base[before.len() as int] == mid[before.len() as int]);
        assert(base.skip(before.len() + 1int) =~= seq![base.last()]);
        assert(eval_runs(base.skip(before.len() + 1int), js_code@, token@, tab@));
    }
    let payload = match initial {
        Ok(p) => p,
        Err(e) => {
            return Err(e);
        },
    };
    match eval_reply(safari, payload.as_str()) {
        Ok(Some(v)) => {
            return Ok(v);
        },
        Ok(None) => {},
        Err(e) => {
            return Err(e);
        },
    }
    let poll_js = build_poll_js(token.as_str());
    let start = safari.host.now_millis();
    let span: u64 = if timeout_seconds > u64::MAX / 1000 {
        u64::MAX
    } else {
        timeout_seconds * 1000
    };
    let deadline = start.saturating_add(span);
    let max_polls: u64 = if timeout_seconds > u64::MAX / 4 {
        u64::MAX
    } else {
        timeout_seconds * 4
    };
    let mut polls: u64 = 0;
    loop
        invariant
            polls <= max_polls,
            max_polls <= 4 * timeout_seconds,
            safari.runs@.len() == base.len() + polls,
            safari.runs@.take(base.len() as int) == base,
            base.len() == before.len() + 2,
            before == old(safari).runs@,
            mid[before.len() as int].script == spec_resolve_script(opt_view(tab_selector), opt_view(profile_filter)),
            poll_js@ == spec_build_poll_js(token@),
            mid.len() == before.len() + 1,
            base.take(before.len() as int) == before,
            base[before.len() as int] == mid[before.len() as int],
            eval_runs(safari.runs@.skip(before.len() + 1int), js_code@, token@, tab@),
            spec_js_outcome(safari.runs@.last().outcome, tab@) is Ok,
            spec_resolved_tab(opt_view(tab_selector), opt_view(profile_filter), mid[before.len() as int].outcome) == Ok::<SafariTabView, MacosErrorView>(tab@),
        decreases max_polls - polls,
    {
        if polls >= max_polls {
            break;
        }
        let now = safari.host.now_millis();
        if now >= deadline {
            break;
        }
        safari.host.sleep_millis(250);
        let ghost prev = safari.runs@;
        let reply = safari.run_js_in_tab(poll_js.as_str(), &tab, "safari_exec_poll");
        polls = polls + 1;
        proof {
            assert(safari.runs@.take(base.len() as int) =~= base);
            let sk = safari.runs@.skip(before.len() + 1int);
            let pk = prev.skip(before.len() + 1int);
            assert(sk.drop_last() =~= pk);
            assert forall|k: int| 0 <= k < sk.len() - 1 implies #[trigger] spec_js_outcome(sk[k].outcome, tab@) is Ok by {
                if k < pk.len() - 1 {
                    assert(sk[k] == pk[k]);
                } else {
                    assert(k == pk.len() - 1);
                    assert(sk[k] == pk[k]);
                    assert(pk[k] == prev[prev.len() - 1]);
                }
            }
            assert forall|k: int| 1 <= k < sk.len() implies #[trigger] sk[k].script == spec_build_tab_js_script(spec_build_poll_js(token@), tab@) by {
                if k < pk.len() {
                    assert(sk[k] == pk[k]);
                } else {
                    assert(sk[k] == safari.runs@.last());
                }
            }
            assert(eval_runs(sk, js_code@, token@, tab@));
            assert(safari.runs@[before.len() as int] == base[before.len() as int]);
            assert(safari.runs@.take(before.len() as int) =~= before);
        }
        let p = match reply {
            Ok(p) => p,
            Err(e) => {
                return Err(e);
            },
        };
        match eval_reply(safari, p.as_str()) {
            Ok(Some(v)) => {
                return Ok(v);
            },
            Ok(None) => {},
            Err(e) => {
                return Err(e);
            },
        }
    }
    let mut msg = String::from_str("timeout waiting for JavaScript result after ");
    push_decimal(&mut msg, timeout_seconds as u128);
    msg.append(" seconds");
    Err(MacosError::Other(msg))
}

/// The scroll position a JSON reply gives: its `x` and `y` members when they
/// are integers, or the JSON parser's message.
pub uninterp spec fn json_scroll_position(raw: Seq<char>) -> Result<(Option<i64>, Option<i64>), Seq<char>>;

/// Parses `raw` with `serde_json::from_str` into a JSON value and reads its
/// `x` and `y` members with `as_i64`; the error is the parser's message. The
/// contract names the outcome and says nothing more of it.
#[verifier::external_body]
fn parse_scroll_position(raw: &str) -> (r: Result<(Option<i64>, Option<i64>), String>)
    ensures
        match r {
            Ok(p) => json_scroll_position(raw@) == Ok::<(Option<i64>, Option<i64>), Seq<char>>(p),
            Err(m) => json_scroll_position(raw@) == Err::<(Option<i64>, Option<i64>), Seq<char>>(m@),
        },
{
    match serde_json::from_str::<serde_json::Value>(raw) {
        Ok(value) => Ok((value.get("x").and_then(|v| v.as_i64()), value.get("y").and_then(|v| v.as_i64()))),
        Err(error) => Err(error.to_string()),
    }
}

/// The position a scroll reply reports, a missing coordinate read as 0.
pub open spec fn spec_scroll_position(reply: Result<Seq<char>, MacosErrorView>) -> Result<(i64, i64), MacosErrorView> {
    match reply {
        Err(e) => Err(e),
        Ok(raw) => match json_scroll_position(raw) {
            Err(m) => Err(MacosErrorView::Other("failed to parse scroll result: "@ + m)),
            Ok((x, y)) => Ok((
                match x {
                    Some(v) => v,
                    None => 0,
                },
                match y {
                    Some(v) => v,
                    None => 0,
                },
            )),
        },
    }
}

/// The position of a scroll result, or the error.
pub open spec fn position_result(r: Result<SafariScrollResult, MacosError>) -> Result<(i64, i64), MacosErrorView> {
    match r {
        Ok(v) => Ok((v.scroll_x, v.scroll_y)),
        Err(e) => Err(e@),
    }
}

/// Scrolls `tab` and reads the new position.
fn scroll_in_tab<H: SafariHost>(safari: &mut Safari<H>, direction: &str, amount: Option<i64>, tab: &SafariTab) -> (r: Result<SafariScrollResult, MacosError>)
    ensures
        match spec_scroll_js(direction@, amount) {
            Err(e) => final(safari).runs@ == old(safari).runs@ && fails_with(r, e),
            Ok(js) => {
                &&& one_more_run(old(safari).runs@, final(safari).runs@, spec_build_tab_js_script(js, tab@))
                &&& position_result(r) == spec_scroll_position(spec_js_outcome(final(safari).runs@.last().outcome, tab@))
            },
        },
        final(safari).scroll_reads == old(safari).scroll_reads,
{
    let js = match scroll_js(direction, amount) {
        Ok(js) => js,
        Err(e) => {
            return Err(e);
        },
    };
    let raw = match safari.run_js_in_tab(js.as_str(), tab, "safari_scroll") {
        Ok(raw) => raw,
        Err(e) => {
            return Err(e);
        },
    };
    match parse_scroll_position(raw.as_str()) {
        Ok((x, y)) => Ok(SafariScrollResult {
            scroll_x: match x {
                Some(v) => v,
                None => 0,
            },
            scroll_y: match y {
                Some(v) => v,
                None => 0,
            },
        }),
        Err(m) => {
            let mut msg = String::from_str("failed to parse scroll result: ");
            msg.append(m.as_str());
            Err(MacosError::Other(msg))
        },
    }
}

/// Scrolls the target tab `down`, `up` (by `amount` pixels, 500 by default),
/// to the `top` or to the `bottom`, and returns the new position.
pub fn scroll<H: SafariHost>(
    safari: &mut Safari<H>,
    direction: &str,
    amount: Option<i64>,
    profile_filter: Option<&str>,
    tab_selector: Option<&str>,
) -> (r: Result<SafariScrollResult, MacosError>)
    ensures
        ({
            let before = old(safari).runs@;
            let after = final(safari).runs@;
            let sel = opt_view(tab_selector);
            let prof = opt_view(profile_filter);
            &&& after.len() >= before.len() + 1
            &&& after.take(before.len() as int) == before
            &&& after[before.len() as int].script == spec_resolve_script(sel, prof)
            &&& match spec_resolved_tab(sel, prof, after[before.len() as int].outcome) {
                Err(e) => after.len() == before.len() + 1 && fails_with(r, e),
                Ok(tab) => match spec_scroll_js(direction@, amount) {
                    Err(e) => after.len() == before.len() + 1 && fails_with(r, e),
                    Ok(js) => {
                        &&& after.len() == before.len() + 2
                        &&& after.last().script == spec_build_tab_js_script(js, tab)
                        &&& position_result(r) == spec_scroll_position(spec_js_outcome(after.last().outcome, tab))
                    },
                },
            }
        }),
{
    let ghost before = safari.runs@;
    let found = safari.resolve_tab(tab_selector, profile_filter);
    let ghost mid = safari.runs@;
    assert(mid.take(before.len() as int) =~= before);
    let tab = match found {
        Ok(t) => t,
        Err(e) => {
            return Err(e);
        },
    };
    let r = scroll_in_tab(safari, direction, amount, &tab);
    assert(safari.runs@.take(before.len() as int) =~= before);
    assert(safari.runs@[before.len() as int] == mid[before.len() as int]);
    r
}

/// The snapshot a poll reply gives, or the error.
fn read_snapshot<H: SafariHost>(safari: &mut Safari<H>, payload: &str) -> (r: Result<SafariScrollReadSnapshot, MacosError>)
    ensures
        final(safari).runs == old(safari).runs,
        final(safari).last_operation_at == old(safari).last_operation_at,
        r matches Err(e) ==> exists|m: Seq<char>| e@ == #[trigger] snapshot_failure(m, payload@),
        match r {
            Ok(s) => final(safari).scroll_reads@ == old(safari).scroll_reads@.push(s),
            Err(_) => final(safari).scroll_reads == old(safari).scroll_reads,
        },
{
    match safari.host.parse_scroll_snapshot(payload) {
        Ok(snapshot) => {
            proof {
                safari.scroll_reads@ = safari.scroll_reads@.push(snapshot);
            }
            Ok(snapshot)
        },
        Err(m) => {
            let mut msg = String::from_str("invalid scroll/read payload: ");
            msg.append(m.as_str());
            msg.append(": ");
            msg.append(payload);
            assert(MacosErrorView::Other(msg@) == snapshot_failure(m@, payload@));
            Err(MacosError::Other(msg))
        },
    }
}

/// Polls every half second, for up to five seconds, until the scope shows
/// new content; then polls once more and takes what it shows.
fn poll_snapshot<H: SafariHost>(safari: &mut Safari<H>, poll_js: &str, previous: &SafariScrollReadSnapshot, tab: &SafariTab) -> (r: Result<SafariScrollReadSnapshot, MacosError>)
    ensures
        final(safari).runs@.len() > old(safari).runs@.len(),
        final(safari).runs@.take(old(safari).runs@.len() as int) == old(safari).runs@,
        forall|k: int| old(safari).runs@.len() <= k < final(safari).runs@.len() ==> #[trigger] final(safari).runs@[k].script == spec_build_tab_js_script(poll_js@, tab@),
        r matches Ok(s) ==> one_poll(old(safari).scroll_reads@, final(safari).scroll_reads@, *previous) && s == final(safari).scroll_reads@.last(),
{
    let ghost before = safari.runs@;
    let ghost log0 = safari.scroll_reads@;
    let start = safari.host.now_millis();
    let deadline = start.saturating_add(5000);
    let mut polls: u64 = 0;
    while polls < 10
        invariant
            polls <= 10,
            safari.runs@.len() == before.len() + polls,
            safari.runs@.take(before.len() as int) == before,
            before == old(safari).runs@,
            forall|k: int| before.len() <= k < safari.runs@.len() ==> #[trigger] safari.runs@[k].script == spec_build_tab_js_script(poll_js@, tab@),
            log0 == old(safari).scroll_reads@,
            safari.scroll_reads@.len() == log0.len() + polls,
            safari.scroll_reads@.take(log0.len() as int) == log0,
            forall|k: int| log0.len() <= k < safari.scroll_reads@.len() ==> !#[trigger] shows_new(*previous, safari.scroll_reads@[k]),
        decreases 10 - polls,
    {
        let now = safari.host.now_millis();
        if now >= deadline {
            break;
        }
        safari.host.sleep_millis(500);
        let ghost prev = safari.runs@;
        let reply = safari.run_js_in_tab(poll_js, tab, "safari_scroll_read_poll");
        polls = polls + 1;
        proof {
            assert(safari.runs@.take(before.len() as int) =~= before);
            assert forall|k: int| before.len() <= k < safari.runs@.len() implies #[trigger] safari.runs@[k].script == spec_build_tab_js_script(poll_js@, tab@) by {
                if k < prev.len() {
                    assert(safari.runs@[k] == prev[k]);
                }
            }
        }
        let payload = match reply {
            Ok(p) => p,
            Err(e) => {
                return Err(e);
            },
        };
        let ghost log1 = safari.scroll_reads@;
        let snapshot = match read_snapshot(safari, payload.as_str()) {
            Ok(s) => s,
            Err(e) => {
                return Err(e);
            },
        };
        proof {
            assert(safari.scroll_reads@.take(log0.len() as int) =~= log0) by {
                assert(safari.scroll_reads@.take(log1.len() as int) =~= log1);
            }
            assert forall|k: int| log0.len() <= k < safari.scroll_reads@.len() - 1 implies !#[trigger] shows_new(*previous, safari.scroll_reads@[k]) by {
                assert(safari.scroll_reads@[k] == log1[k]);
            }
        }
        if scroll_read_detects_new_content(previous.content.as_str(), previous.item_count, snapshot.content.as_str(), snapshot.item_count) {
            return Ok(snapshot);
        }
    }
    let ghost prev = safari.runs@;
    let reply = safari.run_js_in_tab(poll_js, tab, "safari_scroll_read_poll");
    proof {
        assert(safari.runs@.take(before.len() as int) =~= before);
        assert forall|k: int| before.len() <= k < safari.runs@.len() implies #[trigger] safari.runs@[k].script == spec_build_tab_js_script(poll_js@, tab@) by {
            if k < prev.len() {
                assert(safari.runs@[k] == prev[k]);
            }
        }
    }
    let payload = match reply {
        Ok(p) => p,
        Err(e) => {
            return Err(e);
        },
    };
    let ghost log1 = safari.scroll_reads@;
    let r = read_snapshot(safari, payload.as_str());
    proof {
        if r is Ok {
            assert(safari.scroll_reads@.take(log0.len() as int) =~= log0) by {
                assert(safari.scroll_reads@.take(log1.len() as int) =~= log1);
            }
            assert forall|k: int| log0.len() <= k < safari.scroll_reads@.len() - 1 implies !#[trigger] shows_new(*previous, safari.scroll_reads@[k]) by {
                assert(safari.scroll_reads@[k] == log1[k]);
            }
        }
    }
    r
}

/// Whether `current` shows content that `previous` did not: more items, or
/// other text.
pub open spec fn shows_new(previous: SafariScrollReadSnapshot, current: SafariScrollReadSnapshot) -> bool {
    spec_detects_new_content(previous.content@, previous.item_count, current.content@, current.item_count)
}

/// `after` is `before` with the snapshots of one wait for new content after
/// `previous`: one to eleven of them, none but the last showing new content.
pub open spec fn one_poll(before: Seq<SafariScrollReadSnapshot>, after: Seq<SafariScrollReadSnapshot>, previous: SafariScrollReadSnapshot) -> bool {
    &&& before.len() < after.len() <= before.len() + 11
    &&& after.take(before.len() as int) == before
    &&& forall|k: int| before.len() <= k < after.len() - 1 ==> !#[trigger] shows_new(previous, after[k])
}

/// The chunk iterations are strictly increasing and within `1..=times`.
pub open spec fn chunk_iterations_ok(chunks: Seq<SafariScrollReadChunk>, times: u64) -> bool {
    &&& forall|i: int| 0 <= i < chunks.len() ==> 1 <= #[trigger] chunks[i].iteration <= times
    &&& forall|i: int, j: int| 0 <= i < j < chunks.len() ==> #[trigger] chunks[i].iteration < #[trigger] chunks[j].iteration
}

/// The blocks of the parts, one after the other.
pub open spec fn flat_blocks(parts: Seq<Seq<Seq<char>>>) -> Seq<Seq<char>>
    decreases parts.len(),
{
    if parts.len() == 0 {
        Seq::empty()
    } else {
        flat_blocks(parts.drop_last()) + parts.last()
    }
}

/// Each chunk is its part's blocks joined by blank lines; no part is empty,
/// no block is empty, and no two blocks of any parts share a fingerprint.
pub open spec fn chunks_of_blocks(chunks: Seq<SafariScrollReadChunk>, parts: Seq<Seq<Seq<char>>>) -> bool {
    &&& parts.len() == chunks.len()
    &&& forall|i: int| 0 <= i < parts.len() ==> (#[trigger] parts[i]).len() > 0 && chunks[i].content@ == crate::text::join(
        parts[i],
        seq!['\n', '\n'],
    )
    &&& forall|k: int| 0 <= k < flat_blocks(parts).len() ==> (#[trigger] flat_blocks(parts)[k]).len() > 0
    &&& distinct_fingerprints(flat_blocks(parts))
}

/// The blocks of `snapshot` not among `seen`.
pub open spec fn snapshot_news(snapshot: SafariScrollReadSnapshot, seen: Seq<Seq<char>>) -> Seq<Seq<char>> {
    spec_snapshot_blocks(string_views(snapshot.blocks@), snapshot.content@, seen)
}

/// What scrolling and reading makes of the snapshots it takes, the first
/// before any scroll and then one after each scroll: the blocks seen so far
/// (those of the first snapshot, then the new ones of each later one), and,
/// for each scroll whose snapshot shows blocks not seen before, its number
/// with those blocks joined by blank lines.
pub open spec fn scroll_read_fold(snaps: Seq<SafariScrollReadSnapshot>) -> (Seq<Seq<char>>, Seq<(int, Seq<char>)>)
    decreases snaps.len(),
{
    if snaps.len() == 0 {
        (Seq::empty(), Seq::empty())
    } else if snaps.len() == 1 {
        (snapshot_news(snaps[0], Seq::empty()), Seq::empty())
    } else {
        let (seen, chunks) = scroll_read_fold(snaps.drop_last());
        let fresh = snapshot_news(snaps.last(), seen);
        if fresh.len() > 0 {
            (seen + fresh, chunks.push(((snaps.len() - 1) as int, crate::text::join(fresh, seq!['\n', '\n']))))
        } else {
            (seen, chunks)
        }
    }
}

/// Each chunk as its scroll number and its text.
pub open spec fn chunk_pairs(chunks: Seq<SafariScrollReadChunk>) -> Seq<(int, Seq<char>)> {
    chunks.map_values(|c: SafariScrollReadChunk| (c.iteration as int, c.content@))
}

/// `picks` are the positions in `log` of the snapshots that a scroll and read
/// of `times` scrolls took, when `log` held `start` snapshots before it: the
/// first it parsed, and then, for each scroll, the last snapshot of its wait
/// for new content; every snapshot of `log` from `start` on is one of the
/// waits' (the polls of a wait that are not taken show nothing new against
/// the snapshot taken before).
pub open spec fn took_snapshots(log: Seq<SafariScrollReadSnapshot>, start: int, picks: Seq<int>, times: u64) -> bool {
    &&& picks.len() == times + 1
    &&& picks[0] == start
    &&& picks.last() == log.len() - 1
    &&& forall|i: int| 0 <= i < picks.len() ==> start <= #[trigger] picks[i] < log.len()
    &&& forall|i: int| 0 <= i < times ==> #[trigger] picks[i] < picks[i + 1] <= picks[i] + 11
    &&& forall|i: int, k: int| 0 <= i < times && picks[i] < k < picks[i + 1] ==> !#[trigger] shows_new(log[picks[i]], #[trigger] log[k])
}

/// The snapshots at `picks` in `log`.
pub open spec fn picked(log: Seq<SafariScrollReadSnapshot>, picks: Seq<int>) -> Seq<SafariScrollReadSnapshot> {
    picks.map_values(|i: int| log[i])
}

/// Scrolls the target tab down `times` times, waiting after each scroll for
/// new content, and returns, per scroll that revealed any, the text blocks not
/// seen before, joined by blank lines.
pub fn scroll_and_read<H: SafariHost>(
    safari: &mut Safari<H>,
    times: u64,
    amount: Option<i64>,
    selector: Option<&str>,
    profile_filter: Option<&str>,
    tab_selector: Option<&str>,
) -> (r: Result<SafariScrollReadResult, MacosError>)
    ensures
        ({
            let before = old(safari).runs@;
            let after = final(safari).runs@;
            let sel = opt_view(tab_selector);
            let prof = opt_view(profile_filter);
            &&& after.len() >= before.len() + 1
            &&& after.take(before.len() as int) == before
            &&& after[before.len() as int].script == spec_resolve_script(sel, prof)
            &&& match spec_resolved_tab(sel, prof, after[before.len() as int].outcome) {
                Err(e) => after.len() == before.len() + 1 && fails_with(r, e),
                Ok(tab) => after.len() >= before.len() + 2 && after[before.len() + 1int].script
                    == spec_build_tab_js_script(spec_scroll_read_poll_js(opt_view(selector)), tab),
            }
        }),
        r matches Ok(v) ==> v.times == times && opt_string(v.selector) == opt_view(selector)
            && chunk_iterations_ok(v.chunks@, times),
        r matches Ok(v) ==> exists|parts: Seq<Seq<Seq<char>>>| #[trigger] chunks_of_blocks(v.chunks@, parts),
        r matches Ok(v) ==> {
            &&& final(safari).scroll_reads@.take(old(safari).scroll_reads@.len() as int) == old(safari).scroll_reads@
            &&& exists|picks: Seq<int>| #[trigger] took_snapshots(final(safari).scroll_reads@, old(safari).scroll_reads@.len() as int, picks, times)
                && chunk_pairs(v.chunks@) == scroll_read_fold(picked(final(safari).scroll_reads@, picks)).1
        },
{
    let ghost before = safari.runs@;
    let ghost log0 = safari.scroll_reads@;
    let found = safari.resolve_tab(tab_selector, profile_filter);
    let ghost mid = safari.runs@;
    assert(mid.take(before.len() as int) =~= before);
    let tab = match found {
        Ok(t) => t,
        Err(e) => {
            return Err(e);
        },
    };
    let js = scroll_read_poll_js(selector);
    let first = safari.run_js_in_tab(js.as_str(), &tab, "safari_scroll_read_initial");
    let ghost base = safari.runs@;
    proof {
        assert(base.take(before.len() as int) =~= before);
        assert(base[before.len() as int] == mid[before.len() as int]);
    }
    let payload = match first {
        Ok(p) => p,
        Err(e) => {
            return Err(e);
        },
    };
    let mut snapshot = match read_snapshot(safari, payload.as_str()) {
        Ok(s) => s,
        Err(e) => {
            return Err(e);
        },
    };
    let empty: Vec<String> = Vec::new();
    let mut seen = scroll_read_snapshot_blocks(&snapshot, &empty);
    proof {
        assert(crate::safari::scroll::string_views(empty@) =~= Seq::<Seq<char>>::empty());
        assert(distinct_fingerprints(Seq::<Seq<char>>::empty()));
        lemma_seen_stays_distinct(Seq::empty(), snapshot_raw(crate::safari::scroll::string_views(snapshot.blocks@), snapshot.content@));
        assert(Seq::<Seq<char>>::empty() + crate::safari::scroll::string_views(seen@) =~= crate::safari::scroll::string_views(seen@));
    }
    let ghost init = crate::safari::scroll::string_views(seen@);
    let ghost mut parts: Seq<Seq<Seq<char>>> = Seq::empty();
    let mut chunks: Vec<SafariScrollReadChunk> = Vec::new();
    let ghost mut picks: Seq<int> = seq![log0.len() as int];
    let ghost mut taken: Seq<SafariScrollReadSnapshot> = seq![snapshot];
    proof {
        assert(safari.scroll_reads@.take(log0.len() as int) =~= log0);
        assert(chunk_pairs(chunks@) =~= Seq::<(int, Seq<char>)>::empty());
        assert(picked(safari.scroll_reads@, picks) =~= taken);
    }
    let mut done: u64 = 0;
    while done < times
        invariant
            log0 == old(safari).scroll_reads@,
            safari.scroll_reads@.take(log0.len() as int) == log0,
            took_snapshots(safari.scroll_reads@, log0.len() as int, picks, done),
            picked(safari.scroll_reads@, picks) == taken,
            snapshot == taken.last(),
            (string_views(seen@), chunk_pairs(chunks@)) == scroll_read_fold(taken),
            done <= times,
            safari.runs@.len() >= base.len(),
            safari.runs@.take(base.len() as int) == base,
            base.len() == before.len() + 2,
            before == old(safari).runs@,
            base.take(before.len() as int) == before,
            mid.len() == before.len() + 1,
            base[before.len() as int] == mid[before.len() as int],
            mid[before.len() as int].script == spec_resolve_script(opt_view(tab_selector), opt_view(profile_filter)),
            spec_resolved_tab(opt_view(tab_selector), opt_view(profile_filter), mid[before.len() as int].outcome) == Ok::<SafariTabView, MacosErrorView>(tab@),
            base[before.len() + 1int].script == spec_build_tab_js_script(spec_scroll_read_poll_js(opt_view(selector)), tab@),
            js@ == spec_scroll_read_poll_js(opt_view(selector)),
            forall|i: int| 0 <= i < chunks@.len() ==> 1 <= #[trigger] chunks@[i].iteration <= done,
            forall|i: int, j: int| 0 <= i < j < chunks@.len() ==> #[trigger] chunks@[i].iteration < #[trigger] chunks@[j].iteration,
            distinct_fingerprints(crate::safari::scroll::string_views(seen@)),
            forall|k: int| 0 <= k < seen@.len() ==> (#[trigger] crate::safari::scroll::string_views(seen@)[k]).len() > 0,
            crate::safari::scroll::string_views(seen@) == init + flat_blocks(parts),
            parts.len() == chunks@.len(),
            forall|i: int| 0 <= i < parts.len() ==> (#[trigger] parts[i]).len() > 0 && chunks@[i].content@ == crate::text::join(
                parts[i],
                seq!['\n', '\n'],
            ),
        decreases times - done,
    {
        let iteration = done + 1;
        let ghost prev = safari.runs@;
        match scroll_in_tab(safari, "down", amount, &tab) {
            Ok(_) => {},
            Err(e) => {
                proof {
                    if safari.runs@ != prev {
                        assert(safari.runs@.drop_last() == prev);
                    }
                    assert(safari.runs@.take(prev.len() as int) =~= prev);
                    lemma_take_take(safari.runs@, prev, base);
                    lemma_take_take(safari.runs@, base, before);
                    assert(safari.runs@[before.len() as int] == base[before.len() as int]);
                    assert(safari.runs@[before.len() + 1int] == base[before.len() + 1int]);
                }
                return Err(e);
            },
        }
        let ghost prev2 = safari.runs@;
        let ghost log_a = safari.scroll_reads@;
        let polled = poll_snapshot(safari, js.as_str(), &snapshot, &tab);
        proof {
            if prev2 != prev {
                assert(prev2.drop_last() == prev);
            }
            assert(prev2.take(prev.len() as int) =~= prev);
            lemma_take_take(prev2, prev, base);
            lemma_take_take(safari.runs@, prev2, base);
        }
        snapshot = match polled {
            Ok(s) => s,
            Err(e) => {
                proof {
                    lemma_take_take(safari.runs@, base, before);
                    assert(safari.runs@[before.len() as int] == base[before.len() as int]);
                    assert(safari.runs@[before.len() + 1int] == base[before.len() + 1int]);
                }
                return Err(e);
            },
        };
        let ghost taken0 = taken;
        let ghost chunks0 = chunks@;
        proof {
            lemma_took_one_more(log_a, safari.scroll_reads@, log0.len() as int, picks, done);
            assert(safari.scroll_reads@.take(log0.len() as int) =~= log0) by {
                assert(safari.scroll_reads@.take(log_a.len() as int) == log_a);
            }
            picks = picks.push(safari.scroll_reads@.len() - 1);
            taken = taken.push(snapshot);
            assert(picked(safari.scroll_reads@, picks) =~= taken) by {
                assert forall|i: int| 0 <= i < taken.len() implies #[trigger] picked(safari.scroll_reads@, picks)[i] == taken[i] by {
                    if i < taken0.len() {
                        assert(picked(log_a, picks.drop_last())[i] == taken0[i]);
                    }
                }
            }
            assert(taken.drop_last() =~= taken0);
        }
        let new_blocks = scroll_read_snapshot_blocks(&snapshot, &seen);
        let ghost seen0 = crate::safari::scroll::string_views(seen@);
        let ghost nb = crate::safari::scroll::string_views(new_blocks@);
        proof {
            lemma_seen_stays_distinct(seen0, snapshot_raw(crate::safari::scroll::string_views(snapshot.blocks@), snapshot.content@));
            assert(nb == fresh_blocks(snapshot_raw(crate::safari::scroll::string_views(snapshot.blocks@), snapshot.content@), seen0));
        }
        if new_blocks.len() > 0 {
            let mut k: usize = 0;
            while k < new_blocks.len()
                invariant
                    k <= new_blocks.len(),
                    nb == crate::safari::scroll::string_views(new_blocks@),
                    crate::safari::scroll::string_views(seen@) == seen0 + nb.take(k as int),
                decreases new_blocks.len() - k,
            {
                let ghost before_push = seen@;
                seen.push(new_blocks[k].clone());
                proof {
                    assert(crate::safari::scroll::string_views(seen@) =~= crate::safari::scroll::string_views(before_push).push(nb[k as int]));
                    assert(nb.take(k + 1) =~= nb.take(k as int).push(nb[k as int]));
                }
                k = k + 1;
            }
            proof {
                assert(nb.take(new_blocks@.len() as int) =~= nb);
            }
            let content = join_blocks(&new_blocks);
            let ghost old_chunks = chunks@;
            let ghost old_parts = parts;
            chunks.push(SafariScrollReadChunk { iteration, content });
            proof {
                assert(chunk_pairs(chunks@) =~= chunk_pairs(chunks0).push(((done + 1) as int, crate::text::join(nb, seq!['\n', '\n']))));
                parts = parts.push(nb);
                assert(parts.drop_last() =~= old_parts);
                assert(flat_blocks(parts) == flat_blocks(old_parts) + nb);
                assert(crate::safari::scroll::string_views(seen@) =~= init + flat_blocks(parts));
                assert forall|i: int, j: int| 0 <= i < j < chunks@.len() implies #[trigger] chunks@[i].iteration < #[trigger] chunks@[j].iteration by {
                    if j < old_chunks.len() {
                        assert(chunks@[i] == old_chunks[i]);
                        assert(chunks@[j] == old_chunks[j]);
                    } else {
                        assert(chunks@[i] == old_chunks[i]);
                    }
                }
                assert forall|i: int| 0 <= i < parts.len() implies (#[trigger] parts[i]).len() > 0 && chunks@[i].content@ == crate::text::join(
                    parts[i],
                    seq!['\n', '\n'],
                ) by {
                    if i < old_parts.len() {
                        assert(parts[i] == old_parts[i]);
                        assert(chunks@[i] == old_chunks[i]);
                    }
                }
                assert forall|k: int| 0 <= k < seen@.len() implies (#[trigger] crate::safari::scroll::string_views(seen@)[k]).len() > 0 by {
                    if k >= seen0.len() {
                        assert(crate::safari::scroll::string_views(seen@)[k] == nb[k - seen0.len()]);
                    } else {
                        assert(crate::safari::scroll::string_views(seen@)[k] == seen0[k]);
                    }
                }
            }
        } else {
            proof {
                assert(seen0 + nb =~= seen0);
            }
        }
        done = done + 1;
    }
    proof {
        lemma_tail_distinct(init, flat_blocks(parts));
        assert(chunks_of_blocks(chunks@, parts));
    }
    proof {
        lemma_take_take(safari.runs@, base, before);
        assert(safari.runs@[before.len() as int] == base[before.len() as int]);
        assert(safari.runs@[before.len() + 1int] == base[before.len() + 1int]);
    }
    let sel = match selector {
        Some(s) => Some(String::from_str(s)),
        None => None,
    };
    let result = SafariScrollReadResult { selector: sel, times, chunks };
    assert(chunks_of_blocks(result.chunks@, parts));
    assert(took_snapshots(safari.scroll_reads@, log0.len() as int, picks, times));
    Ok(result)
}

/// Taking the last snapshot of one more wait keeps the picks good.
proof fn lemma_took_one_more(
    log_a: Seq<SafariScrollReadSnapshot>,
    log_b: Seq<SafariScrollReadSnapshot>,
    start: int,
    picks: Seq<int>,
    times: u64,
)
    requires
        took_snapshots(log_a, start, picks, times),
        one_poll(log_a, log_b, log_a[picks.last()]),
        times < u64::MAX,
        0 <= start,
    ensures
        took_snapshots(log_b, start, picks.push(log_b.len() - 1), (times + 1) as u64),
        picked(log_b, picks) == picked(log_a, picks),
{
    let p2 = picks.push(log_b.len() - 1);
    assert forall|k: int| 0 <= k < log_a.len() implies #[trigger] log_b[k] == log_a[k] by {
        assert(log_b.take(log_a.len() as int)[k] == log_a[k]);
    }
    assert forall|i: int| 0 <= i < times + 1 implies #[trigger] p2[i] < p2[i + 1] <= p2[i] + 11 by {
        if i < times {
            assert(p2[i] == picks[i] && p2[i + 1] == picks[i + 1]);
        }
    }
    assert forall|i: int, k: int| 0 <= i < times + 1 && p2[i] < k < p2[i + 1] implies !#[trigger] shows_new(log_b[p2[i]], #[trigger] log_b[k]) by {
        if i < times {
            assert(p2[i] == picks[i] && p2[i + 1] == picks[i + 1]);
            assert(start <= picks[i] && picks[i + 1] < log_a.len());
            assert(log_b[picks[i]] == log_a[picks[i]]);
            assert(log_b[k] == log_a[k]);
            assert(!shows_new(log_a[picks[i]], log_a[k]));
        } else {
            assert(p2[i] == picks.last());
            assert(log_b[picks.last()] == log_a[picks.last()]);
        }
    }
    assert forall|i: int| 0 <= i < p2.len() implies start <= #[trigger] p2[i] < log_b.len() by {
        if i < picks.len() {
            assert(p2[i] == picks[i]);
        }
    }
    assert(picked(log_b, picks) =~= picked(log_a, picks));
}

/// A prefix of a prefix is a prefix.
pub(crate) proof fn lemma_take_take<T>(a: Seq<T>, b: Seq<T>, c: Seq<T>)
    requires
        b.len() <= a.len(),
        a.take(b.len() as int) == b,
        c.len() <= b.len(),
        b.take(c.len() as int) == c,
    ensures
        a.take(c.len() as int) == c,
{
    assert(a.take(c.len() as int) =~= c) by {
        assert forall|k: int| 0 <= k < c.len() implies a[k] == c[k] by {
            assert(a.take(b.len() as int)[k] == a[k]);
            assert(b.take(c.len() as int)[k] == b[k]);
        }
    }
}

/// The blocks joined by blank lines.
fn join_blocks(blocks: &Vec<String>) -> (r: String)
    ensures
        r@ == crate::text::join(crate::safari::scroll::string_views(blocks@), seq!['\n', '\n']),
{
    let mut parts: Vec<Vec<char>> = Vec::new();
    let mut i: usize = 0;
    while i < blocks.len()
        invariant
            i <= blocks.len(),
            parts.len() == i,
            forall|j: int| 0 <= j < i ==> #[trigger] parts@[j]@ == blocks@[j]@,
        decreases blocks.len() - i,
    {
        parts.push(chars_of(blocks[i].as_str()));
        i = i + 1;
    }
    assert(crate::text::views(parts@) =~= crate::safari::scroll::string_views(blocks@));
    let sep: [char; 2] = ['\n', '\n'];
    assert(sep@ =~= seq!['\n', '\n']);
    crate::text::join_chars(&parts, &sep)
}

/// How waiting for `selector` ended, from the checks run (each asking the
/// front tab whether an element matches): every check but the last answered
/// something other than `true`; the last one's error, no tab when it answered
/// nothing, the element found when it answered `true`, else the timeout.
pub open spec fn waited_for_selector(checks: Seq<ScriptRun>, selector: Seq<char>, timeout_seconds: u64, r: Result<SafariWaitResult, MacosError>) -> bool {
    &&& checks.len() >= 1
    &&& forall|j: int| 0 <= j < checks.len() ==> (#[trigger] checks[j]).script == spec_build_exec_script_for_profile(
        spec_selector_exists_js(selector),
        None,
    )
    &&& forall|j: int| 0 <= j < checks.len() - 1 ==> match spec_profile_js_outcome((#[trigger] checks[j]).outcome) {
        Ok(t) => t.len() > 0 && trim(t) != "true"@,
        Err(_) => false,
    }
    &&& match spec_profile_js_outcome(checks.last().outcome) {
        Err(e) => fails_with(r, e),
        Ok(t) => if t.len() == 0 {
            fails_with(r, MacosErrorView::Other("no Safari window or active tab available"@))
        } else if trim(t) == "true"@ {
            r matches Ok(v) && v.found && v.selector == Some(v.selector->0) && v.selector->0@ == selector && v.condition@
                == "selector-present"@ && v.timeout_seconds == timeout_seconds
        } else {
            fails_with(r, MacosErrorView::Other("timeout waiting for selector: "@ + selector))
        },
    }
}

/// Waits until an element matches `selector` in the front tab, checking
/// every 250 ms for `timeout_seconds`.
pub fn wait<H: SafariHost>(safari: &mut Safari<H>, selector: &str, timeout_seconds: u64) -> (r: Result<SafariWaitResult, MacosError>)
    ensures
        final(safari).runs@.len() > old(safari).runs@.len(),
        final(safari).runs@.take(old(safari).runs@.len() as int) == old(safari).runs@,
        waited_for_selector(final(safari).runs@.skip(old(safari).runs@.len() as int), selector@, timeout_seconds, r),
{
    let ghost before = safari.runs@;
    let js = selector_exists_js(selector);
    let start = safari.host.now_millis();
    let span: u64 = if timeout_seconds > u64::MAX / 1000 {
        u64::MAX
    } else {
        timeout_seconds * 1000
    };
    let deadline = start.saturating_add(span);
    let max_checks: u64 = if timeout_seconds > (u64::MAX - 2) / 4 {
        u64::MAX - 1
    } else {
        timeout_seconds * 4 + 1
    };
    let mut checks: u64 = 0;
    loop
        invariant
            checks <= max_checks,
            max_checks < u64::MAX,
            js@ == spec_selector_exists_js(selector@),
            before == old(safari).runs@,
            safari.runs@.len() == before.len() + checks,
            safari.runs@.take(before.len() as int) == before,
            forall|j: int| 0 <= j < safari.runs@.skip(before.len() as int).len() ==> (#[trigger] safari.runs@.skip(before.len() as int)[j]).script
                == spec_build_exec_script_for_profile(spec_selector_exists_js(selector@), None),
            forall|j: int| 0 <= j < safari.runs@.skip(before.len() as int).len() ==> match spec_profile_js_outcome(
                (#[trigger] safari.runs@.skip(before.len() as int)[j]).outcome,
            ) {
                Ok(t) => t.len() > 0 && trim(t) != "true"@,
                Err(_) => false,
            },
        decreases max_checks - checks,
    {
        let ghost prev = safari.runs@;
        let reply = safari.run_js_for_profile(js.as_str(), None, "safari_wait");
        checks = checks + 1;
        let ghost done = safari.runs@.skip(before.len() as int);
        proof {
            assert(safari.runs@.take(prev.len() as int) =~= prev);
            lemma_take_take(safari.runs@, prev, before);
            assert(done.drop_last() =~= prev.skip(before.len() as int));
            assert(done.last() == safari.runs@.last());
            assert forall|j: int| 0 <= j < done.len() implies (#[trigger] done[j]).script
                == spec_build_exec_script_for_profile(spec_selector_exists_js(selector@), None) by {
                if j < done.len() - 1 {
                    assert(done[j] == done.drop_last()[j]);
                }
            }
            assert forall|j: int| 0 <= j < done.len() - 1 implies match spec_profile_js_outcome((#[trigger] done[j]).outcome) {
                Ok(t) => t.len() > 0 && trim(t) != "true"@,
                Err(_) => false,
            } by {
                assert(done[j] == done.drop_last()[j]);
            }
        }
        let text = match reply {
            Ok(t) => t,
            Err(e) => {
                return Err(e);
            },
        };
        if chars_of(text.as_str()).len() == 0 {
            return Err(MacosError::Other(String::from_str("no Safari window or active tab available")));
        }
        if is_true_reply(&text) {
            return Ok(SafariWaitResult {
                found: true,
                selector: Some(String::from_str(selector)),
                condition: String::from_str("selector-present"),
                timeout_seconds,
            });
        }
        let now = safari.host.now_millis();
        if now >= deadline || checks >= max_checks {
            let mut m = String::from_str("timeout waiting for selector: ");
            m.append(selector);
            return Err(MacosError::Other(m));
        }
        safari.host.sleep_millis(250);
    }
}

/// The script that reads where the tab is when a wait for a navigation begins.
pub open spec fn navigation_start_js() -> Seq<char> {
    "JSON.stringify({url: location.href, origin: performance.timeOrigin})"@
}

/// How many checks a wait of `timeout_seconds` makes at most: four a second,
/// and one more.
pub open spec fn max_wait_checks(timeout_seconds: u64) -> int {
    if timeout_seconds > (u64::MAX - 1) / 4 {
        u64::MAX as int
    } else {
        timeout_seconds * 4 + 1
    }
}

/// The error of a wait that timed out.
pub open spec fn wait_timeout_error(condition: WaitCondition, timeout_seconds: u64) -> MacosErrorView {
    MacosErrorView::Other(
        "timeout waiting for "@ + spec_condition_name(condition) + " after "@ + decimal(timeout_seconds as nat) + " seconds"@,
    )
}

/// The check ran and read `false`.
pub open spec fn check_read_false(run: ScriptRun, tab: SafariTabView) -> bool {
    spec_js_outcome(run.outcome, tab) matches Ok(reply) && spec_wait_reply(reply) == Ok::<bool, MacosErrorView>(false)
}

/// The checks of a wait, each running `js` in `tab`: every one but the last
/// read `false`; the last one's failure, or a reply that is no boolean, ends
/// the wait with that error; `true` ends it found, and `false` with the
/// timeout error.
pub open spec fn wait_checks<T>(
    checks: Seq<ScriptRun>,
    js: Seq<char>,
    tab: SafariTabView,
    condition: WaitCondition,
    timeout_seconds: u64,
    r: Result<T, MacosError>,
) -> bool {
    &&& 1 <= checks.len() <= max_wait_checks(timeout_seconds)
    &&& forall|j: int| 0 <= j < checks.len() ==> (#[trigger] checks[j]).script == spec_build_tab_js_script(js, tab)
    &&& forall|j: int| 0 <= j < checks.len() - 1 ==> check_read_false(#[trigger] checks[j], tab)
    &&& match spec_js_outcome(checks.last().outcome, tab) {
        Err(e) => fails_with(r, e),
        Ok(reply) => match spec_wait_reply(reply) {
            Err(e) => fails_with(r, e),
            Ok(found) => if found {
                r is Ok
            } else {
                fails_with(r, wait_timeout_error(condition, timeout_seconds))
            },
        },
    }
}

/// The error for a navigation start state the host could not read.
pub open spec fn navigation_state_failure(m: Seq<char>) -> MacosErrorView {
    MacosErrorView::Other("invalid navigation start state: "@ + m)
}

/// How a wait went, whatever the host answered: the run that found the tab;
/// for a navigation, the run that read where the tab was; then the checks,
/// as `wait_checks` says. A failed run, or a condition that gives no check
/// script, ends the wait with that error.
pub open spec fn wait_until_contract<T>(
    before: Seq<ScriptRun>,
    after: Seq<ScriptRun>,
    sel: Option<Seq<char>>,
    prof: Option<Seq<char>>,
    condition: WaitCondition,
    timeout_seconds: u64,
    r: Result<T, MacosError>,
) -> bool {
    let b = before.len() as int;
    &&& after.len() >= b + 1
    &&& after.take(b) == before
    &&& after[b].script == spec_resolve_script(sel, prof)
    &&& match spec_resolved_tab(sel, prof, after[b].outcome) {
        Err(e) => after.len() == b + 1 && fails_with(r, e),
        Ok(tab) => if condition is Navigation {
            &&& after.len() >= b + 2
            &&& after[b + 1].script == spec_build_tab_js_script(navigation_start_js(), tab)
            &&& match spec_js_outcome(after[b + 1].outcome, tab) {
                Err(e) => after.len() == b + 2 && fails_with(r, e),
                Ok(_) => {
                    ||| after.len() == b + 2 && exists|m: Seq<char>| fails_with(r, #[trigger] navigation_state_failure(m))
                    ||| after.len() == b + 2 && exists|ns: NavigationStart| #[trigger] spec_check_js(condition, Some(ns)) matches Err(e) && fails_with(r, e)
                    ||| exists|ns: NavigationStart| #[trigger] spec_check_js(condition, Some(ns)) matches Ok(js) && wait_checks(
                        after.skip(b + 2),
                        js,
                        tab,
                        condition,
                        timeout_seconds,
                        r,
                    )
                },
            }
        } else {
            match spec_check_js(condition, None) {
                Err(e) => after.len() == b + 1 && fails_with(r, e),
                Ok(js) => wait_checks(after.skip(b + 1), js, tab, condition, timeout_seconds, r),
            }
        },
    }
}

/// A wait whose checks ran after the runs `base` keeps its contract.
proof fn lemma_wait_until_checked<T>(
    before: Seq<ScriptRun>,
    base: Seq<ScriptRun>,
    after: Seq<ScriptRun>,
    sel: Option<Seq<char>>,
    prof: Option<Seq<char>>,
    condition: WaitCondition,
    ns: Option<NavigationStart>,
    tab: SafariTabView,
    js: Seq<char>,
    timeout_seconds: u64,
    r: Result<T, MacosError>,
)
    requires
        base.len() >= before.len() + 1,
        base.take(before.len() as int) == before,
        base[before.len() as int].script == spec_resolve_script(sel, prof),
        spec_resolved_tab(sel, prof, base[before.len() as int].outcome) == Ok::<SafariTabView, MacosErrorView>(tab),
        condition is Navigation ==> ns is Some && base.len() == before.len() + 2 && base[before.len() + 1int].script
            == spec_build_tab_js_script(navigation_start_js(), tab) && spec_js_outcome(base[before.len() + 1int].outcome, tab) is Ok,
        !(condition is Navigation) ==> ns is None && base.len() == before.len() + 1,
        spec_check_js(condition, ns) == Ok::<Seq<char>, MacosErrorView>(js),
        after.len() >= base.len(),
        after.take(base.len() as int) == base,
        wait_checks(after.skip(base.len() as int), js, tab, condition, timeout_seconds, r),
    ensures
        wait_until_contract(before, after, sel, prof, condition, timeout_seconds, r),
{
    let b = before.len() as int;
    lemma_take_take(after, base, before);
    assert(after[b] == base[b]) by {
        assert(after.take(base.len() as int)[b] == after[b]);
    }
    if condition is Navigation {
        assert(after[b + 1] == base[b + 1]) by {
            assert(after.take(base.len() as int)[b + 1] == after[b + 1]);
        }
        let n = ns->Some_0;
        assert(spec_check_js(condition, Some(n)) matches Ok(j) && wait_checks(after.skip(b + 2), j, tab, condition, timeout_seconds, r));
    }
}

/// The error of a wait that timed out.
fn wait_timeout(condition: &WaitCondition, timeout_seconds: u64) -> (e: MacosError)
    ensures
        e@ == wait_timeout_error(*condition, timeout_seconds),
{
    let mut msg = String::from_str("timeout waiting for ");
    msg.append(condition.name());
    msg.append(" after ");
    push_decimal(&mut msg, timeout_seconds as u128);
    msg.append(" seconds");
    MacosError::Other(msg)
}

/// Waits until `condition` holds in the target tab, checking every 250 ms
/// for `timeout_seconds`.
pub fn wait_until<H: SafariHost>(
    safari: &mut Safari<H>,
    condition: WaitCondition,
    timeout_seconds: u64,
    profile_filter: Option<&str>,
    tab_selector: Option<&str>,
) -> (r: Result<SafariWaitResult, MacosError>)
    ensures
        wait_until_contract(old(safari).runs@, final(safari).runs@, opt_view(tab_selector), opt_view(profile_filter), condition, timeout_seconds, r),
        r matches Ok(v) ==> v.found && v.condition@ == spec_condition_name(condition)
            && opt_string(v.selector) == spec_condition_selector(condition) && v.timeout_seconds == timeout_seconds,
{
    let ghost before = safari.runs@;
    let found = safari.resolve_tab(tab_selector, profile_filter);
    let ghost mid = safari.runs@;
    assert(mid.take(before.len() as int) =~= before);
    let tab = match found {
        Ok(t) => t,
        Err(e) => {
            return Err(e);
        },
    };
    let ghost mut ns_used: Option<NavigationStart> = None;
    let navigation_start = match condition {
        WaitCondition::Navigation => {
            let raw = match safari.run_js_in_tab(
                "JSON.stringify({url: location.href, origin: performance.timeOrigin})",
                &tab,
                "safari_wait_navigation_start",
            ) {
                Ok(raw) => raw,
                Err(e) => {
                    proof {
                        assert(safari.runs@.take(mid.len() as int) =~= mid);
                        lemma_take_take(safari.runs@, mid, before);
                        assert(safari.runs@[before.len() as int] == mid[before.len() as int]);
                    }
                    return Err(e);
                },
            };
            proof {
                assert(safari.runs@.drop_last() == mid);
                assert(safari.runs@[before.len() + 1int] == safari.runs@.last());
                assert(spec_js_outcome(safari.runs@[before.len() + 1int].outcome, tab@) is Ok);
            }
            match safari.host.parse_navigation_start(raw.as_str()) {
                Ok(st) => {
                    proof {
                        ns_used = Some(st);
                    }
                    Some(st)
                },
                Err(m) => {
                    let mut msg = String::from_str("invalid navigation start state: ");
                    msg.append(m.as_str());
                    proof {
                        assert(safari.runs@.take(mid.len() as int) =~= mid);
                        lemma_take_take(safari.runs@, mid, before);
                        assert(safari.runs@[before.len() as int] == mid[before.len() as int]);
                        assert(msg@ == "invalid navigation start state: "@ + m@);
                        assert(fails_with(Err::<SafariWaitResult, MacosError>(MacosError::Other(msg)), navigation_state_failure(m@)));
                    }
                    return Err(MacosError::Other(msg));
                },
            }
        },
        _ => None,
    };
    let ghost base = safari.runs@;
    proof {
        if base != mid {
            assert(base.drop_last() == mid);
        }
        assert(base.take(mid.len() as int) =~= mid);
        lemma_take_take(base, mid, before);
        assert(base[before.len() as int] == mid[before.len() as int]);
        assert(base.len() == before.len() + (if condition is Navigation { 2int } else { 1int }));
        assert(navigation_start == ns_used);
    }
    let check = match condition.check_js(navigation_start.as_ref()) {
        Ok(c) => c,
        Err(e) => {
            proof {
                if condition is Navigation {
                    let n = ns_used->Some_0;
                    assert(spec_check_js(condition, Some(n)) matches Err(x) && fails_with(Err::<SafariWaitResult, MacosError>(e), x));
                }
            }
            return Err(e);
        },
    };
    let ghost js = check@;
    assert(spec_check_js(condition, ns_used) == Ok::<Seq<char>, MacosErrorView>(js));
    let start = safari.host.now_millis();
    let span: u64 = if timeout_seconds > u64::MAX / 1000 {
        u64::MAX
    } else {
        timeout_seconds * 1000
    };
    let deadline = start.saturating_add(span);
    let max_checks: u64 = if timeout_seconds > (u64::MAX - 1) / 4 {
        u64::MAX
    } else {
        timeout_seconds * 4 + 1
    };
    assert(max_checks == max_wait_checks(timeout_seconds));
    let mut checks: u64 = 0;
    while checks < max_checks
        invariant
            checks <= max_checks,
            max_checks == max_wait_checks(timeout_seconds),
            max_checks >= 1,
            safari.runs@.len() == base.len() + checks,
            safari.runs@.take(base.len() as int) == base,
            base.take(before.len() as int) == before,
            base.len() >= before.len() + 1,
            before == old(safari).runs@,
            mid.len() == before.len() + 1,
            base[before.len() as int] == mid[before.len() as int],
            mid[before.len() as int].script == spec_resolve_script(opt_view(tab_selector), opt_view(profile_filter)),
            spec_resolved_tab(opt_view(tab_selector), opt_view(profile_filter), mid[before.len() as int].outcome) == Ok::<SafariTabView, MacosErrorView>(tab@),
            check@ == js,
            condition is Navigation ==> ns_used is Some && base.len() == before.len() + 2 && base[before.len() + 1int].script
                == spec_build_tab_js_script(navigation_start_js(), tab@) && spec_js_outcome(base[before.len() + 1int].outcome, tab@) is Ok,
            !(condition is Navigation) ==> ns_used is None && base.len() == before.len() + 1,
            spec_check_js(condition, ns_used) == Ok::<Seq<char>, MacosErrorView>(js),
            forall|j: int| 0 <= j < safari.runs@.skip(base.len() as int).len() ==> (#[trigger] safari.runs@.skip(base.len() as int)[j]).script
                == spec_build_tab_js_script(js, tab@),
            forall|j: int| 0 <= j < safari.runs@.skip(base.len() as int).len() ==> check_read_false(#[trigger] safari.runs@.skip(base.len() as int)[j], tab@),
        decreases max_checks - checks,
    {
        let ghost prev = safari.runs@;
        let reply = safari.run_js_in_tab(check.as_str(), &tab, "safari_wait");
        checks = checks + 1;
        let ghost cs = safari.runs@.skip(base.len() as int);
        proof {
            assert(safari.runs@.take(prev.len() as int) =~= prev);
            lemma_take_take(safari.runs@, prev, base);
            lemma_take_take(safari.runs@, base, before);
            assert(safari.runs@[before.len() as int] == base[before.len() as int]);
            assert(cs.drop_last() =~= prev.skip(base.len() as int));
            assert(cs.last() == safari.runs@.last());
            assert forall|j: int| 0 <= j < cs.len() implies (#[trigger] cs[j]).script == spec_build_tab_js_script(js, tab@) by {
                if j < cs.len() - 1 {
                    assert(cs[j] == cs.drop_last()[j]);
                }
            }
            assert forall|j: int| 0 <= j < cs.len() - 1 implies check_read_false(#[trigger] cs[j], tab@) by {
                assert(cs[j] == cs.drop_last()[j]);
            }
        }
        let text = match reply {
            Ok(t) => t,
            Err(e) => {
                let r: Result<SafariWaitResult, MacosError> = Err(e);
                proof {
                    lemma_wait_until_checked(before, base, safari.runs@, opt_view(tab_selector), opt_view(profile_filter), condition, ns_used, tab@, js, timeout_seconds, r);
                }
                return r;
            },
        };
        match wait_reply(text.as_str()) {
            Ok(true) => {
                let name = condition.name();
                let r: Result<SafariWaitResult, MacosError> = Ok(SafariWaitResult {
                    found: true,
                    selector: condition.selector(),
                    condition: String::from_str(name),
                    timeout_seconds,
                });
                proof {
                    lemma_wait_until_checked(before, base, safari.runs@, opt_view(tab_selector), opt_view(profile_filter), condition, ns_used, tab@, js, timeout_seconds, r);
                }
                return r;
            },
            Ok(false) => {},
            Err(e) => {
                let r: Result<SafariWaitResult, MacosError> = Err(e);
                proof {
                    lemma_wait_until_checked(before, base, safari.runs@, opt_view(tab_selector), opt_view(profile_filter), condition, ns_used, tab@, js, timeout_seconds, r);
                }
                return r;
            },
        }
        proof {
            assert forall|j: int| 0 <= j < cs.len() implies check_read_false(#[trigger] cs[j], tab@) by {
                if j < cs.len() - 1 {
                    assert(cs[j] == cs.drop_last()[j]);
                }
            }
        }
        let now = safari.host.now_millis();
        if now >= deadline {
            let r: Result<SafariWaitResult, MacosError> = Err(wait_timeout(&condition, timeout_seconds));
            proof {
                assert(cs.last() == cs[cs.len() - 1]);
                lemma_wait_until_checked(before, base, safari.runs@, opt_view(tab_selector), opt_view(profile_filter), condition, ns_used, tab@, js, timeout_seconds, r);
            }
            return r;
        }
        safari.host.sleep_millis(250);
    }
    let r: Result<SafariWaitResult, MacosError> = Err(wait_timeout(&condition, timeout_seconds));
    proof {
        let cs = safari.runs@.skip(base.len() as int);
        assert(cs.len() >= 1);
        assert(cs.last() == cs[cs.len() - 1]);
        lemma_wait_until_checked(before, base, safari.runs@, opt_view(tab_selector), opt_view(profile_filter), condition, ns_used, tab@, js, timeout_seconds, r);
    }
    r
}

/// What a script run in the front tab (of the profile's window) yields: the
/// decoded text it printed, or the error.
pub open spec fn spec_profile_js_outcome(out: Outcome) -> Result<Seq<char>, MacosErrorView> {
    match out {
        Ok(stdout) => Ok(decode(trim(stdout), tab_sep())),
        Err(e) => Err(e),
    }
}

impl<H: SafariHost> Safari<H> {
    /// Reads the clock for an answer wait, and notes the reading.
    fn read_clock(&mut self) -> (t: u64)
        ensures
            final(self).runs == old(self).runs,
            final(self).notes@.clock == old(self).notes@.clock.push(t),
            final(self).notes@.payloads == old(self).notes@.payloads,
            final(self).send_clock == old(self).send_clock,
    {
        let t = self.host.now_millis();
        self.notes = Ghost(WaitNotes { clock: self.notes@.clock.push(t), payloads: self.notes@.payloads });
        t
    }

    /// Reads the clock for a wait for a send button, and notes the reading.
    fn read_send_clock(&mut self) -> (t: u64)
        ensures
            final(self).runs == old(self).runs,
            final(self).notes == old(self).notes,
            final(self).send_clock@ == old(self).send_clock@.push(t),
    {
        let t = self.host.now_millis();
        self.send_clock = Ghost(self.send_clock@.push(t));
        t
    }

    /// Runs JavaScript in the current tab of the front window, or of the
    /// profile's window, and returns the text it printed.
    pub fn run_js_for_profile(&mut self, js_code: &str, profile_filter: Option<&str>, context: &str) -> (r: Result<String, MacosError>)
        ensures
            one_more_run(old(self).runs@, final(self).runs@, spec_build_exec_script_for_profile(js_code@, opt_view(profile_filter))),
            result_view(r) == spec_profile_js_outcome(final(self).runs@.last().outcome),
            final(self).notes == old(self).notes,
            final(self).saved_files == old(self).saved_files,
            final(self).file_failures == old(self).file_failures,
            final(self).send_clock == old(self).send_clock,
    {
        let script = build_exec_script_for_profile(js_code, profile_filter);
        let out = self.run_capture(script.as_str(), context);
        assert(final(self).runs@.drop_last() =~= old(self).runs@);
        match out {
            Ok(stdout) => {
                let v = chars_of(stdout.as_str());
                let t = trim_chars(v.as_slice());
                Ok(decode_field(t.as_slice()))
            },
            Err(e) => Err(e),
        }
    }
}

/// Presses a send button, trying every 200 ms for five seconds while it is
/// missing or disabled.
/// The send attempts were at most 25 runs of `script`, every one but the
/// last answered by something other than `true`.
pub open spec fn click_runs(clicks: Seq<ScriptRun>, script: Seq<char>) -> bool {
    &&& clicks.len() <= 25
    &&& forall|j: int| 0 <= j < clicks.len() ==> (#[trigger] clicks[j]).script == script
    &&& forall|j: int| 0 <= j < clicks.len() - 1 ==> match spec_profile_js_outcome((#[trigger] clicks[j]).outcome) {
        Ok(reply) => trim(reply) != "true"@,
        Err(_) => false,
    }
}

/// What the send attempts give: the last one's error, success when it
/// answered `true`, else the error that the button stayed missing or disabled.
pub open spec fn click_result(clicks: Seq<ScriptRun>) -> Result<(), MacosErrorView> {
    if clicks.len() == 0 {
        Err(send_timeout_error())
    } else {
        match spec_profile_js_outcome(clicks.last().outcome) {
            Err(e) => Err(e),
            Ok(reply) => if trim(reply) == "true"@ {
                Ok(())
            } else {
                Err(send_timeout_error())
            },
        }
    }
}

/// The error for a send button that stayed missing or disabled.
pub open spec fn send_timeout_error() -> MacosErrorView {
    MacosErrorView::Other("send button not found or disabled after 5s"@)
}

/// The view of a result without a value.
pub open spec fn unit_result(r: Result<(), MacosError>) -> Result<(), MacosErrorView> {
    match r {
        Ok(()) => Ok(()),
        Err(e) => Err(e@),
    }
}

/// When a wait for a send button stops: five seconds after its first clock
/// reading, held to the clock's range.
pub open spec fn send_deadline(start: u64) -> int {
    if start + 5000 > u64::MAX {
        u64::MAX as int
    } else {
        start + 5000
    }
}

/// The send attempts ended without pressing send and without a failed run.
pub open spec fn gave_up(clicks: Seq<ScriptRun>) -> bool {
    clicks.len() == 0 || (spec_profile_js_outcome(clicks.last().outcome) matches Ok(reply) && trim(reply) != "true"@)
}

/// A wait for a send button, given its clock readings (at the start, then
/// before each attempt) and its attempts: every attempt came before the
/// deadline, and the wait gave up only after 25 attempts or on a reading past
/// the deadline.
pub open spec fn send_waited(reads: Seq<u64>, clicks: Seq<ScriptRun>) -> bool {
    &&& reads.len() >= 1
    &&& reads.len() == clicks.len() + 1 || (reads.len() == clicks.len() + 2 && reads.last() >= send_deadline(reads[0]))
    &&& forall|j: int| 1 <= j <= clicks.len() ==> #[trigger] reads[j] < send_deadline(reads[0])
    &&& gave_up(clicks) ==> clicks.len() == 25 || reads.last() >= send_deadline(reads[0])
}

fn wait_and_click_send<H: SafariHost>(safari: &mut Safari<H>, js: &str, profile_filter: Option<&str>, context: &str) -> (r: Result<(), MacosError>)
    ensures
        final(safari).runs@.len() >= old(safari).runs@.len(),
        final(safari).runs@.take(old(safari).runs@.len() as int) == old(safari).runs@,
        click_runs(final(safari).runs@.skip(old(safari).runs@.len() as int), spec_build_exec_script_for_profile(js@, opt_view(profile_filter))),
        unit_result(r) == click_result(final(safari).runs@.skip(old(safari).runs@.len() as int)),
        r is Ok ==> final(safari).runs@.len() > old(safari).runs@.len() && (spec_profile_js_outcome(
            final(safari).runs@.last().outcome,
        ) matches Ok(reply) && trim(reply) == "true"@),
        final(safari).notes == old(safari).notes,
        final(safari).send_clock@.len() >= old(safari).send_clock@.len(),
        final(safari).send_clock@.take(old(safari).send_clock@.len() as int) == old(safari).send_clock@,
        send_waited(
            final(safari).send_clock@.skip(old(safari).send_clock@.len() as int),
            final(safari).runs@.skip(old(safari).runs@.len() as int),
        ),
{
    let ghost before = safari.runs@;
    let ghost c0 = safari.send_clock@;
    let start = safari.read_send_clock();
    let deadline = start.saturating_add(5000);
    assert(deadline == send_deadline(start));
    assert(safari.send_clock@.take(c0.len() as int) =~= c0);
    assert(safari.send_clock@.skip(c0.len() as int) =~= seq![start]);
    assert(safari.runs@.skip(before.len() as int) =~= Seq::<ScriptRun>::empty());
    let mut tries: u64 = 0;
    while tries < 25
        invariant
            tries <= 25,
            safari.runs@.len() >= before.len(),
            safari.runs@.take(before.len() as int) == before,
            before == old(safari).runs@,
            safari.notes == old(safari).notes,
            safari.runs@.len() == before.len() + tries,
            c0 == old(safari).send_clock@,
            safari.send_clock@.len() == c0.len() + tries + 1,
            safari.send_clock@.take(c0.len() as int) == c0,
            safari.send_clock@.skip(c0.len() as int)[0] == start,
            deadline == send_deadline(start),
            forall|j: int| 1 <= j <= tries ==> #[trigger] safari.send_clock@.skip(c0.len() as int)[j] < deadline,
            forall|j: int| 0 <= j < safari.runs@.skip(before.len() as int).len() ==> (#[trigger] safari.runs@.skip(before.len() as int)[j]).script
                == spec_build_exec_script_for_profile(js@, opt_view(profile_filter)),
            forall|j: int| 0 <= j < safari.runs@.skip(before.len() as int).len() ==> match spec_profile_js_outcome(
                (#[trigger] safari.runs@.skip(before.len() as int)[j]).outcome,
            ) {
                Ok(reply) => trim(reply) != "true"@,
                Err(_) => false,
            },
        decreases 25 - tries,
    {
        let ghost clock_prev = safari.send_clock@;
        let now = safari.read_send_clock();
        proof {
            assert(safari.send_clock@.take(c0.len() as int) =~= c0);
            assert forall|j: int| 0 <= j <= tries implies #[trigger] safari.send_clock@.skip(c0.len() as int)[j]
                == clock_prev.skip(c0.len() as int)[j] by {}
            assert(safari.send_clock@.skip(c0.len() as int).last() == now);
        }
        if now >= deadline {
            let r = Err(MacosError::Other(String::from_str("send button not found or disabled after 5s")));
            proof {
                let clicks = safari.runs@.skip(before.len() as int);
                if clicks.len() > 0 {
                    assert(clicks.last() == clicks[clicks.len() - 1]);
                }
            }
            return r;
        }
        safari.host.sleep_millis(200);
        let ghost prev = safari.runs@;
        let reply = safari.run_js_for_profile(js, profile_filter, context);
        tries = tries + 1;
        let ghost clicks = safari.runs@.skip(before.len() as int);
        proof {
            assert(safari.runs@.take(prev.len() as int) =~= prev);
            lemma_take_take(safari.runs@, prev, before);
            assert(clicks.drop_last() =~= prev.skip(before.len() as int));
            assert(clicks.last() == safari.runs@.last());
            assert forall|j: int| 0 <= j < clicks.len() implies (#[trigger] clicks[j]).script
                == spec_build_exec_script_for_profile(js@, opt_view(profile_filter)) by {
                if j < clicks.len() - 1 {
                    assert(clicks[j] == clicks.drop_last()[j]);
                }
            }
            assert forall|j: int| 0 <= j < clicks.len() - 1 implies match spec_profile_js_outcome((#[trigger] clicks[j]).outcome) {
                Ok(reply) => trim(reply) != "true"@,
                Err(_) => false,
            } by {
                assert(clicks[j] == clicks.drop_last()[j]);
            }
        }
        match reply {
            Ok(text) => {
                if is_true_reply(&text) {
                    return Ok(());
                }
            },
            Err(e) => {
                return Err(e);
            },
        }
    }
    proof {
        let clicks = safari.runs@.skip(before.len() as int);
        assert(clicks.last() == clicks[clicks.len() - 1]);
    }
    Err(MacosError::Other(String::from_str("send button not found or disabled after 5s")))
}

/// The error for an image-list reply the host could not read.
pub open spec fn image_payload_failure(m: Seq<char>, payload: Seq<char>) -> MacosErrorView {
    MacosErrorView::Other("invalid chatgpt image payload: "@ + m + ": "@ + payload)
}

/// Polls the ChatGPT image view every second for `timeout_seconds`: returns
/// the first result whose images have all loaded; a completed result without
/// images once `empty_complete_grace_seconds` have passed; else the last state
/// seen, marked `timeout`.
pub(crate) fn poll_chatgpt_images<H: SafariHost>(safari: &mut Safari<H>, timeout_seconds: u64, empty_complete_grace_seconds: u64, profile_filter: Option<&str>) -> (r: Result<SafariAiImageResult, MacosError>)
    ensures
        final(safari).runs@.len() >= old(safari).runs@.len(),
        final(safari).runs@.take(old(safari).runs@.len() as int) == old(safari).runs@,
        final(safari).send_clock == old(safari).send_clock,
        final(safari).saved_files == old(safari).saved_files,
        final(safari).file_failures == old(safari).file_failures,
        polls_after(
            final(safari).runs@,
            old(safari).runs@.len() as int,
            spec_build_exec_script_for_profile(spec_chatgpt_image_list_js(), opt_view(profile_filter)),
            r,
        ),
        forall|j: int| old(safari).runs@.len() <= j < final(safari).runs@.len() - 1 ==> spec_profile_js_outcome(
            (#[trigger] final(safari).runs@[j]).outcome,
        ) is Ok,
        r matches Err(e) ==> final(safari).runs@.len() > old(safari).runs@.len() && match spec_profile_js_outcome(
            final(safari).runs@.last().outcome,
        ) {
            Err(x) => e@ == x,
            Ok(text) => exists|m: Seq<char>| e@ == #[trigger] image_payload_failure(m, text),
        },
        r matches Ok(v) ==> v.provider@ == "chatgpt"@ && v.mode@ == "image"@
            && (spec_image_result_is_ready(v.status@, v.images@) || v.status@ == "complete"@ || v.status@ == "timeout"@),
{
    let ghost before = safari.runs@;
    let ghost script = spec_build_exec_script_for_profile(spec_chatgpt_image_list_js(), opt_view(profile_filter));
    let started_at = safari.host.now_millis();
    let span: u64 = if timeout_seconds > u64::MAX / 1000 {
        u64::MAX
    } else {
        timeout_seconds * 1000
    };
    let deadline = started_at.saturating_add(span);
    let image_js = chatgpt_image_list_js();
    let mut last_result = SafariAiImageResult {
        provider: String::from_str("chatgpt"),
        mode: String::from_str("image"),
        status: String::from_str("running"),
        conversation_url: None,
        images: Vec::new(),
    };
    let mut polls: u64 = 0;
    while polls < timeout_seconds
        invariant
            polls <= timeout_seconds,
            safari.runs@.len() >= before.len(),
            safari.runs@.take(before.len() as int) == before,
            before == old(safari).runs@,
            safari.send_clock == old(safari).send_clock,
            safari.saved_files == old(safari).saved_files,
            safari.file_failures == old(safari).file_failures,
            image_js@ == spec_chatgpt_image_list_js(),
            script == spec_build_exec_script_for_profile(spec_chatgpt_image_list_js(), opt_view(profile_filter)),
            forall|j: int| before.len() <= j < safari.runs@.len() ==> (#[trigger] safari.runs@[j]).script == script,
            forall|j: int| before.len() <= j < safari.runs@.len() ==> spec_profile_js_outcome((#[trigger] safari.runs@[j]).outcome) is Ok,
            last_result.provider@ == "chatgpt"@,
            last_result.mode@ == "image"@,
        decreases timeout_seconds - polls,
    {
        let now = safari.host.now_millis();
        if now >= deadline {
            break;
        }
        safari.host.sleep_millis(1000);
        let ghost prev = safari.runs@;
        let reply = safari.run_js_for_profile(image_js.as_str(), profile_filter, "safari_chatgpt_image_poll");
        polls = polls + 1;
        proof {
            assert(safari.runs@.take(prev.len() as int) =~= prev);
            lemma_take_take(safari.runs@, prev, before);
            assert forall|j: int| before.len() <= j < safari.runs@.len() implies (#[trigger] safari.runs@[j]).script == script by {
                if j < prev.len() {
                    assert(safari.runs@[j] == safari.runs@.drop_last()[j]);
                }
            }
            assert forall|j: int| before.len() <= j < safari.runs@.len() - 1 implies spec_profile_js_outcome((#[trigger] safari.runs@[j]).outcome) is Ok by {
                assert(safari.runs@[j] == safari.runs@.drop_last()[j]);
            }
        }
        let payload = match reply {
            Ok(p) => p,
            Err(e) => {
                return Err(e);
            },
        };
        let fields = match safari.host.parse_image_payload(payload.as_str()) {
            Ok(f) => f,
            Err(m) => {
                let mut msg = String::from_str("invalid chatgpt image payload: ");
                msg.append(m.as_str());
                msg.append(": ");
                msg.append(payload.as_str());
                assert(MacosErrorView::Other(msg@) == image_payload_failure(m@, payload@));
                assert(spec_profile_js_outcome(safari.runs@.last().outcome) == Ok::<Seq<char>, MacosErrorView>(payload@));
                let r: Result<SafariAiImageResult, MacosError> = Err(MacosError::Other(msg));
                assert(r matches Err(x) && x@ == image_payload_failure(m@, payload@));
                assert(safari.runs@.len() > before.len());
                assert(r matches Err(e) ==> match spec_profile_js_outcome(safari.runs@.last().outcome) {
                    Err(x) => e@ == x,
                    Ok(text) => exists|mm: Seq<char>| e@ == #[trigger] image_payload_failure(mm, text),
                }) by {
                    assert(image_payload_failure(m@, spec_profile_js_outcome(safari.runs@.last().outcome)->Ok_0) == image_payload_failure(m@, payload@));
                }
                return r;
            },
        };
        let result = chatgpt_image_result(&fields);
        match &result.conversation_url {
            Some(u) => {
                last_result.conversation_url = Some(u.clone());
            },
            None => {},
        }
        if result.images.len() > 0 {
            last_result.images = clone_images(&result.images);
        }
        last_result.status = result.status.clone();
        if chatgpt_image_result_is_ready(&result) {
            return Ok(result);
        }
        let now2 = safari.host.now_millis();
        let elapsed: u128 = if now2 >= started_at {
            (now2 - started_at) as u128
        } else {
            0
        };
        if chatgpt_should_return_empty_complete_result(&result, elapsed, empty_complete_grace_seconds) {
            return Ok(last_result);
        }
    }
    last_result.status = String::from_str("timeout");
    Ok(last_result)
}

fn clone_images(images: &Vec<SafariAiImage>) -> (r: Vec<SafariAiImage>)
    ensures
        r@.len() == images@.len(),
{
    let mut out: Vec<SafariAiImage> = Vec::new();
    let mut i: usize = 0;
    while i < images.len()
        invariant
            i <= images.len(),
            out@.len() == i,
        decreases images.len() - i,
    {
        out.push(SafariAiImage { url: images[i].url.clone(), loaded: images[i].loaded });
        i = i + 1;
    }
    out
}

/// Sends an image prompt to ChatGPT in the current tab and waits up to
/// `timeout_seconds` for the generated images.
pub fn send_chatgpt_image_prompt<H: SafariHost>(
    safari: &mut Safari<H>,
    prompt: &str,
    timeout_seconds: u64,
    profile_filter: Option<&str>,
) -> (r: Result<SafariAiImageResult, MacosError>)
    ensures
        prompt_contract(
            old(safari).runs@,
            final(safari).runs@,
            final(safari).send_clock@.skip(old(safari).send_clock@.len() as int),
            spec_build_exec_script_for_profile(spec_build_chatgpt_fill_input_js(prompt@), opt_view(profile_filter)),
            spec_build_exec_script_for_profile(spec_build_chatgpt_click_send_js(), opt_view(profile_filter)),
            "failed to fill ChatGPT image prompt: "@,
            spec_build_exec_script_for_profile(spec_chatgpt_image_list_js(), opt_view(profile_filter)),
            r,
        ),
        r matches Ok(v) ==> v.provider@ == "chatgpt"@ && v.mode@ == "image"@
            && (spec_image_result_is_ready(v.status@, v.images@) || v.status@ == "complete"@ || v.status@ == "timeout"@),
{
    let ghost before = safari.runs@;
    let ghost c0 = safari.send_clock@;
    let fill_js = build_chatgpt_fill_input_js(prompt);
    let send_js = build_chatgpt_click_send_js();
    match fill_and_send(safari, fill_js.as_str(), send_js.as_str(), profile_filter, "safari_chatgpt_image_fill", "safari_chatgpt_wait_send", "failed to fill ChatGPT image prompt: ") {
        Ok(()) => {},
        Err(e) => {
            let r: Result<SafariAiImageResult, MacosError> = Err(e);
            assert(prompt_sent(
                before,
                safari.runs@,
                safari.send_clock@.skip(c0.len() as int),
                spec_build_exec_script_for_profile(fill_js@, opt_view(profile_filter)),
                spec_build_exec_script_for_profile(send_js@, opt_view(profile_filter)),
                "failed to fill ChatGPT image prompt: "@,
                err_of(r),
                safari.runs@.len() as int,
            ));
            return r;
        },
    }
    let ghost mid = safari.runs@;
    let ghost reads = safari.send_clock@.skip(c0.len() as int);
    let r = poll_chatgpt_images(safari, timeout_seconds, 3, profile_filter);
    proof {
        lemma_prompt_contract(
            before,
            mid,
            safari.runs@,
            reads,
            spec_build_exec_script_for_profile(spec_build_chatgpt_fill_input_js(prompt@), opt_view(profile_filter)),
            spec_build_exec_script_for_profile(spec_build_chatgpt_click_send_js(), opt_view(profile_filter)),
            "failed to fill ChatGPT image prompt: "@,
            spec_build_exec_script_for_profile(spec_chatgpt_image_list_js(), opt_view(profile_filter)),
            r,
        );
    }
    r
}

/// Runs `js` in the current tab of the front (or the profile's) window, then
/// waits `settle_millis`: the navigation scripts that open a provider's home.
fn navigate_home<H: SafariHost>(safari: &mut Safari<H>, js: &str, profile_filter: Option<&str>, context: &str) -> (r: Result<(), MacosError>)
    ensures
        one_more_run(old(safari).runs@, final(safari).runs@, spec_build_exec_script_for_profile(js@, opt_view(profile_filter))),
        match spec_profile_js_outcome(final(safari).runs@.last().outcome) {
            Ok(_) => r is Ok,
            Err(e) => fails_with(r, e),
        },
{
    match safari.run_js_for_profile(js, profile_filter, context) {
        Ok(_) => {
            safari.host.sleep_millis(2500);
            Ok(())
        },
        Err(e) => Err(e),
    }
}

/// Opens a new ChatGPT chat in the current tab.
pub fn ensure_chatgpt_home<H: SafariHost>(safari: &mut Safari<H>, profile_filter: Option<&str>) -> (r: Result<(), MacosError>)
    ensures
        one_more_run(old(safari).runs@, final(safari).runs@, spec_build_exec_script_for_profile(spec_build_chatgpt_go_home_js(), opt_view(profile_filter))),
        match spec_profile_js_outcome(final(safari).runs@.last().outcome) {
            Ok(_) => r is Ok,
            Err(e) => fails_with(r, e),
        },
{
    let js = build_chatgpt_go_home_js();
    navigate_home(safari, js.as_str(), profile_filter, "safari_chatgpt_go_home")
}

/// Opens the Gemini app in the current tab.
pub fn ensure_gemini_home<H: SafariHost>(safari: &mut Safari<H>, profile_filter: Option<&str>) -> (r: Result<(), MacosError>)
    ensures
        one_more_run(old(safari).runs@, final(safari).runs@, spec_build_exec_script_for_profile(spec_build_gemini_go_home_js(), opt_view(profile_filter))),
        match spec_profile_js_outcome(final(safari).runs@.last().outcome) {
            Ok(_) => r is Ok,
            Err(e) => fails_with(r, e),
        },
{
    let js = build_gemini_go_home_js();
    navigate_home(safari, js.as_str(), profile_filter, "safari_gemini_go_home")
}

/// Opens Grok in the current tab.
pub fn ensure_grok_home<H: SafariHost>(safari: &mut Safari<H>, profile_filter: Option<&str>) -> (r: Result<(), MacosError>)
    ensures
        one_more_run(old(safari).runs@, final(safari).runs@, spec_build_exec_script_for_profile(spec_build_grok_go_home_js(), opt_view(profile_filter))),
        match spec_profile_js_outcome(final(safari).runs@.last().outcome) {
            Ok(_) => r is Ok,
            Err(e) => fails_with(r, e),
        },
{
    let js = build_grok_go_home_js();
    navigate_home(safari, js.as_str(), profile_filter, "safari_grok_go_home")
}

/// The runs of a prompt up to its polls, which start at `k`: filling the
/// composer, which must answer `true` (`failure` prefixes the reply
/// otherwise, and nothing runs after a fill that failed); then the send
/// attempts, timed by the clock readings `reads`, whose error, when they end
/// in one, ends the prompt.
pub open spec fn prompt_sent(
    before: Seq<ScriptRun>,
    after: Seq<ScriptRun>,
    reads: Seq<u64>,
    fill_script: Seq<char>,
    send_script: Seq<char>,
    failure: Seq<char>,
    r_err: Option<MacosErrorView>,
    k: int,
) -> bool {
    &&& after.len() >= before.len() + 1
    &&& after.take(before.len() as int) == before
    &&& after[before.len() as int].script == fill_script
    &&& match spec_profile_js_outcome(after[before.len() as int].outcome) {
        Err(e) => r_err == Some(e) && after.len() == before.len() + 1 && k == before.len() + 1 && reads.len() == 0,
        Ok(filled) => if trim(filled) != "true"@ {
            r_err == Some(MacosErrorView::Other(failure + filled)) && after.len() == before.len() + 1 && k == before.len() + 1
                && reads.len() == 0
        } else {
            &&& before.len() + 1 <= k <= after.len()
            &&& click_runs(after.subrange(before.len() + 1int, k), send_script)
            &&& send_waited(reads, after.subrange(before.len() + 1int, k))
            &&& click_result(after.subrange(before.len() + 1int, k)) matches Err(e) ==> k == after.len() && r_err == Some(e)
        },
    }
}

/// The prompt was sent: its send attempts, before `k`, ended pressing send.
pub open spec fn was_sent(before: Seq<ScriptRun>, after: Seq<ScriptRun>, k: int) -> bool {
    click_result(after.subrange(before.len() + 1int, k)) is Ok
}

/// The runs from `k` on are answer polls with `script`, and a poll whose run
/// failed ends the call with that error.
pub open spec fn polls_after<T>(after: Seq<ScriptRun>, k: int, script: Seq<char>, r: Result<T, MacosError>) -> bool {
    &&& forall|j: int| k <= j < after.len() ==> (#[trigger] after[j]).script == script
    &&& after.len() > k ==> (spec_profile_js_outcome(after.last().outcome) matches Err(e) ==> fails_with(r, e))
}

/// What a prompt's runs were: the fill, the send attempts, then answer polls
/// with `poll_script`, a failed poll ending the call.
pub open spec fn prompt_contract<T>(
    before: Seq<ScriptRun>,
    after: Seq<ScriptRun>,
    reads: Seq<u64>,
    fill_script: Seq<char>,
    send_script: Seq<char>,
    failure: Seq<char>,
    poll_script: Seq<char>,
    r: Result<T, MacosError>,
) -> bool {
    exists|k: int| #[trigger] prompt_sent(before, after, reads, fill_script, send_script, failure, err_of(r), k)
        && (was_sent(before, after, k) ==> polls_after(after, k, poll_script, r))
}

/// A prompt sent as `prompt_sent` says, with nothing run after its send
/// attempts, is so with any runs added after it.
proof fn lemma_prompt_sent_extends(
    before: Seq<ScriptRun>,
    mid: Seq<ScriptRun>,
    after: Seq<ScriptRun>,
    reads: Seq<u64>,
    fill_script: Seq<char>,
    send_script: Seq<char>,
    failure: Seq<char>,
    r_err: Option<MacosErrorView>,
)
    requires
        prompt_sent(before, mid, reads, fill_script, send_script, failure, None, mid.len() as int),
        mid.len() <= after.len(),
        after.take(mid.len() as int) == mid,
    ensures
        prompt_sent(before, after, reads, fill_script, send_script, failure, r_err, mid.len() as int),
        was_sent(before, after, mid.len() as int),
{
    assert(after.take(before.len() as int) =~= before) by {
        assert(mid.take(before.len() as int) == before);
        assert forall|j: int| 0 <= j < before.len() implies after.take(before.len() as int)[j] == before[j] by {
            assert(after.take(mid.len() as int)[j] == after[j]);
            assert(mid.take(before.len() as int)[j] == mid[j]);
        }
    }
    assert(after[before.len() as int] == mid[before.len() as int]) by {
        assert(after.take(mid.len() as int)[before.len() as int] == after[before.len() as int]);
    }
    assert(after.subrange(before.len() + 1int, mid.len() as int) =~= mid.subrange(before.len() + 1int, mid.len() as int)) by {
        assert forall|j: int| before.len() + 1 <= j < mid.len() implies after[j] == mid[j] by {
            assert(after.take(mid.len() as int)[j] == after[j]);
        }
    }
}

/// A prompt filled and sent before `mid`, with only answer polls after it,
/// keeps its contract.
proof fn lemma_prompt_contract<T>(
    before: Seq<ScriptRun>,
    mid: Seq<ScriptRun>,
    after: Seq<ScriptRun>,
    reads: Seq<u64>,
    fill_script: Seq<char>,
    send_script: Seq<char>,
    failure: Seq<char>,
    poll_script: Seq<char>,
    r: Result<T, MacosError>,
)
    requires
        prompt_sent(before, mid, reads, fill_script, send_script, failure, None, mid.len() as int),
        mid.len() <= after.len(),
        after.take(mid.len() as int) == mid,
        polls_after(after, mid.len() as int, poll_script, r),
    ensures
        prompt_contract(before, after, reads, fill_script, send_script, failure, poll_script, r),
{
    lemma_prompt_sent_extends(before, mid, after, reads, fill_script, send_script, failure, err_of(r));
    assert(prompt_sent(before, after, reads, fill_script, send_script, failure, err_of(r), mid.len() as int));
}

/// The error of a result, if any.
pub open spec fn err_of<T>(r: Result<T, MacosError>) -> Option<MacosErrorView> {
    match r {
        Ok(_) => None,
        Err(e) => Some(e@),
    }
}

/// Fills the composer and presses send.
fn fill_and_send<H: SafariHost>(safari: &mut Safari<H>, fill_js: &str, send_js: &str, profile_filter: Option<&str>, fill_context: &str, send_context: &str, failure: &str) -> (r: Result<(), MacosError>)
    ensures
        prompt_sent(
            old(safari).runs@,
            final(safari).runs@,
            final(safari).send_clock@.skip(old(safari).send_clock@.len() as int),
            spec_build_exec_script_for_profile(fill_js@, opt_view(profile_filter)),
            spec_build_exec_script_for_profile(send_js@, opt_view(profile_filter)),
            failure@,
            err_of(r),
            final(safari).runs@.len() as int,
        ),
        r is Ok <==> was_sent(old(safari).runs@, final(safari).runs@, final(safari).runs@.len() as int),
        final(safari).notes == old(safari).notes,
        final(safari).send_clock@.len() >= old(safari).send_clock@.len(),
        final(safari).send_clock@.take(old(safari).send_clock@.len() as int) == old(safari).send_clock@,
{
    let ghost before = safari.runs@;
    let ghost c0 = safari.send_clock@;
    assert(c0.take(c0.len() as int) =~= c0);
    assert(c0.skip(c0.len() as int) =~= Seq::<u64>::empty());
    let filled = safari.run_js_for_profile(fill_js, profile_filter, fill_context);
    let ghost mid = safari.runs@;
    assert(mid.take(before.len() as int) =~= before);
    let text = match filled {
        Ok(t) => t,
        Err(e) => {
            return Err(e);
        },
    };
    if !is_true_reply(&text) {
        let mut msg = String::from_str(failure);
        msg.append(text.as_str());
        return Err(MacosError::Other(msg));
    }
    let r = wait_and_click_send(safari, send_js, profile_filter, send_context);
    proof {
        lemma_take_take(safari.runs@, mid, before);
        assert(safari.runs@[before.len() as int] == mid[before.len() as int]);
        assert(safari.runs@.subrange(before.len() + 1int, safari.runs@.len() as int) =~= safari.runs@.skip(mid.len() as int));
    }
    r
}

/// Reads one answer-extraction reply.
fn response_reply<H: SafariHost>(safari: &mut Safari<H>, js: &str, profile_filter: Option<&str>, context: &str, failure: &str) -> (r: Result<ResponsePayload, MacosError>)
    ensures
        one_more_run(old(safari).runs@, final(safari).runs@, spec_build_exec_script_for_profile(js@, opt_view(profile_filter))),
        final(safari).runs@.take(old(safari).runs@.len() as int) == old(safari).runs@,
        final(safari).notes@.clock == old(safari).notes@.clock,
        match r {
            Ok(p) => final(safari).notes@.payloads == old(safari).notes@.payloads.push(p),
            Err(_) => final(safari).notes@.payloads == old(safari).notes@.payloads,
        },
        match spec_profile_js_outcome(final(safari).runs@.last().outcome) {
            Err(e) => fails_with(r, e),
            Ok(_) => true,
        },
        r is Ok ==> spec_profile_js_outcome(final(safari).runs@.last().outcome) is Ok,
        final(safari).send_clock == old(safari).send_clock,
{
    let ghost before = safari.runs@;
    let reply = safari.run_js_for_profile(js, profile_filter, context);
    assert(safari.runs@.take(before.len() as int) =~= before);
    let payload = match reply {
        Ok(p) => p,
        Err(e) => {
            return Err(e);
        },
    };
    match safari.host.parse_response_payload(payload.as_str()) {
        Ok(p) => {
            safari.notes = Ghost(WaitNotes { clock: safari.notes@.clock, payloads: safari.notes@.payloads.push(p) });
            Ok(p)
        },
        Err(m) => {
            let mut msg = String::from_str(failure);
            msg.append(m.as_str());
            Err(MacosError::Other(msg))
        },
    }
}

/// A timeout answer with what was last read.
fn timeout_answer(provider: &str, response: String, conversation_url: Option<String>) -> (r: SafariAiResponseResult)
    ensures
        r.provider@ == provider@,
        r.status@ == "timeout"@,
        r.response == response,
        r.conversation_url == conversation_url,
{
    SafariAiResponseResult { provider: String::from_str(provider), status: String::from_str("timeout"), response, conversation_url }
}

/// The watch after the ChatGPT payloads, from a fresh one, and the answer of
/// the first payload that finished, if any.
pub open spec fn chatgpt_fold(ps: Seq<ResponsePayload>, prompt: Seq<char>) -> (ChatgptWatchView, Option<AnswerView>)
    decreases ps.len(),
{
    if ps.len() == 0 {
        (fresh_chatgpt_watch(), None)
    } else {
        let prev = chatgpt_fold(ps.drop_last(), prompt);
        if prev.1 is Some {
            prev
        } else {
            spec_chatgpt_step(prev.0, ps.last(), prompt)
        }
    }
}

/// The moment `span` milliseconds after `start`, held to the clock's range.
pub open spec fn deadline_after(start: u64, span: int) -> int {
    if start + span > u64::MAX {
        u64::MAX as int
    } else {
        start + span
    }
}

/// The moment a wait of `timeout_seconds` that started at `start` ends, in
/// milliseconds, held to the clock's range.
pub open spec fn poll_deadline(start: u64, timeout_seconds: u64) -> int {
    let span: int = if timeout_seconds > u64::MAX / 1000 {
        u64::MAX as int
    } else {
        timeout_seconds * 1000
    };
    if start + span > u64::MAX {
        u64::MAX as int
    } else {
        start + span
    }
}

/// The most polls a ChatGPT wait of `timeout_seconds` takes.
pub open spec fn chatgpt_max_polls(timeout_seconds: u64) -> int {
    if timeout_seconds > (u64::MAX - 1) / 2 {
        u64::MAX as int
    } else {
        timeout_seconds * 2 + 1
    }
}

/// A timeout answer.
pub open spec fn timeout_view(provider: Seq<char>, response: Seq<char>, url: Option<Seq<char>>) -> AnswerView {
    AnswerView { provider, status: "timeout"@, response, conversation_url: url }
}

/// How a ChatGPT wait ended, given its clock readings (at the start, then
/// before each poll and at the end) and the payloads it polled: with the
/// answer of the first payload that finished; otherwise, once the deadline had
/// passed or the polls had run out, with the last answer read as a timeout.
pub open spec fn chatgpt_waited(times: Seq<u64>, ps: Seq<ResponsePayload>, prompt: Seq<char>, timeout_seconds: u64, v: AnswerView) -> bool {
    let f = chatgpt_fold(ps, prompt);
    &&& times.len() >= 1
    &&& ps.len() <= chatgpt_max_polls(timeout_seconds)
    &&& match f.1 {
        Some(a) => v == a,
        None => v == timeout_view("chatgpt"@, f.0.last_response, f.0.last_conversation_url) && (ps.len()
            == chatgpt_max_polls(timeout_seconds) || times.last() >= poll_deadline(times[0], timeout_seconds)),
    }
}

/// What the answer waits read after `before`: the payloads, and the runs
/// that read them, each with `script`, as the last runs of `after`.
pub open spec fn polled_since(before: WaitNotes, after: WaitNotes, runs: Seq<ScriptRun>, script: Seq<char>) -> bool {
    let ps = after.payloads.skip(before.payloads.len() as int);
    &&& before.clock.len() <= after.clock.len()
    &&& after.clock.take(before.clock.len() as int) == before.clock
    &&& before.payloads.len() <= after.payloads.len()
    &&& after.payloads.take(before.payloads.len() as int) == before.payloads
    &&& runs.len() >= ps.len()
    &&& forall|j: int| runs.len() - ps.len() <= j < runs.len() ==> (#[trigger] runs[j]).script == script
}

/// Sends `prompt` to ChatGPT and waits up to `timeout_seconds` for its
/// answer, polling every 750 ms: the answer is final when two polls in a row
/// read it complete and the same (`ChatgptWatch`); otherwise the last answer
/// read is returned as a timeout.
pub fn send_chatgpt_prompt<H: SafariHost>(safari: &mut Safari<H>, prompt: &str, timeout_seconds: u64, profile_filter: Option<&str>) -> (r: Result<SafariAiResponseResult, MacosError>)
    ensures
        prompt_contract(
            old(safari).runs@,
            final(safari).runs@,
            final(safari).send_clock@.skip(old(safari).send_clock@.len() as int),
            spec_build_exec_script_for_profile(spec_build_chatgpt_fill_input_js(prompt@), opt_view(profile_filter)),
            spec_build_exec_script_for_profile(spec_build_chatgpt_click_send_js(), opt_view(profile_filter)),
            "failed to fill ChatGPT input: "@,
            spec_build_exec_script_for_profile(spec_chatgpt_response_extract_js(), opt_view(profile_filter)),
            r,
        ),
        r matches Ok(v) ==> v.provider@ == "chatgpt"@ && (v.status@ == "complete"@ || v.status@ == "timeout"@),
        r matches Ok(v) ==> polled_since(
            old(safari).notes@,
            final(safari).notes@,
            final(safari).runs@,
            spec_build_exec_script_for_profile(spec_chatgpt_response_extract_js(), opt_view(profile_filter)),
        ) && chatgpt_waited(
            final(safari).notes@.clock.skip(old(safari).notes@.clock.len() as int),
            final(safari).notes@.payloads.skip(old(safari).notes@.payloads.len() as int),
            prompt@,
            timeout_seconds,
            answer_view(v),
        ),
{
    let ghost before = safari.runs@;
    let ghost c0 = safari.send_clock@;
    let ghost notes0 = safari.notes@;
    let fill_js = build_chatgpt_fill_input_js(prompt);
    let send_js = build_chatgpt_click_send_js();
    match fill_and_send(safari, fill_js.as_str(), send_js.as_str(), profile_filter, "safari_chatgpt_prompt_fill", "safari_chatgpt_wait_send", "failed to fill ChatGPT input: ") {
        Ok(()) => {},
        Err(e) => {
            let r: Result<SafariAiResponseResult, MacosError> = Err(e);
            assert(prompt_sent(
                before,
                safari.runs@,
                safari.send_clock@.skip(c0.len() as int),
                spec_build_exec_script_for_profile(fill_js@, opt_view(profile_filter)),
                spec_build_exec_script_for_profile(send_js@, opt_view(profile_filter)),
                "failed to fill ChatGPT input: "@,
                err_of(r),
                safari.runs@.len() as int,
            ));
            return r;
        },
    }
    let ghost mid = safari.runs@;
    let ghost clock_mid = safari.send_clock@;
    let ghost reads = clock_mid.skip(c0.len() as int);
    let ghost script = spec_build_exec_script_for_profile(spec_chatgpt_response_extract_js(), opt_view(profile_filter));
    let start = safari.read_clock();
    let span: u64 = if timeout_seconds > u64::MAX / 1000 {
        u64::MAX
    } else {
        timeout_seconds * 1000
    };
    let deadline = start.saturating_add(span);
    assert(deadline == poll_deadline(start, timeout_seconds));
    let max_polls: u64 = if timeout_seconds > (u64::MAX - 1) / 2 {
        u64::MAX
    } else {
        timeout_seconds * 2 + 1
    };
    let response_js = chatgpt_response_extract_js();
    let mut watch = ChatgptWatch::new();
    let mut polls: u64 = 0;
    let ghost mut times: Seq<u64> = seq![start];
    let ghost mut ps: Seq<ResponsePayload> = Seq::empty();
    proof {
        assert(safari.notes@.clock =~= notes0.clock + times);
        assert(safari.notes@.payloads =~= notes0.payloads + ps);
    }
    while polls < max_polls
        invariant
            polls <= max_polls,
            max_polls == chatgpt_max_polls(timeout_seconds),
            deadline == poll_deadline(times[0], timeout_seconds),
            watch.matching_completion_polls <= 1,
            safari.runs@.len() == mid.len() + polls,
            safari.runs@.take(mid.len() as int) == mid,
            forall|j: int| mid.len() <= j < safari.runs@.len() ==> (#[trigger] safari.runs@[j]).script == script,
            safari.runs@.len() > mid.len() ==> spec_profile_js_outcome(safari.runs@.last().outcome) is Ok,
            script == spec_build_exec_script_for_profile(response_js@, opt_view(profile_filter)),
            response_js@ == spec_chatgpt_response_extract_js(),
            prompt_sent(
                before,
                mid,
                reads,
                spec_build_exec_script_for_profile(spec_build_chatgpt_fill_input_js(prompt@), opt_view(profile_filter)),
                spec_build_exec_script_for_profile(spec_build_chatgpt_click_send_js(), opt_view(profile_filter)),
                "failed to fill ChatGPT input: "@,
                None,
                mid.len() as int,
            ),
            before == old(safari).runs@,
            safari.send_clock@ == clock_mid,
            reads == clock_mid.skip(c0.len() as int),
            c0 == old(safari).send_clock@,
            notes0 == old(safari).notes@,
            times.len() >= 1,
            safari.notes@.clock == notes0.clock + times,
            safari.notes@.payloads == notes0.payloads + ps,
            ps.len() == polls,
            watch@ == chatgpt_fold(ps, prompt@).0,
            chatgpt_fold(ps, prompt@).1 is None,
        ensures
            polls == max_polls || times.last() >= deadline,
            safari.runs@.len() == mid.len() + polls,
            safari.runs@.take(mid.len() as int) == mid,
            forall|j: int| mid.len() <= j < safari.runs@.len() ==> (#[trigger] safari.runs@[j]).script == script,
            safari.runs@.len() > mid.len() ==> spec_profile_js_outcome(safari.runs@.last().outcome) is Ok,
            times.len() >= 1,
            safari.notes@.clock == notes0.clock + times,
            safari.notes@.payloads == notes0.payloads + ps,
            ps.len() == polls,
            polls <= max_polls,
            watch@ == chatgpt_fold(ps, prompt@).0,
            chatgpt_fold(ps, prompt@).1 is None,
        decreases max_polls - polls,
    {
        let now = safari.read_clock();
        proof {
            times = times.push(now);
            assert(safari.notes@.clock =~= notes0.clock + times);
        }
        if now >= deadline {
            break;
        }
        safari.host.sleep_millis(750);
        let ghost prev = safari.runs@;
        let reply = response_reply(safari, response_js.as_str(), profile_filter, "safari_chatgpt_response", "failed to parse chatgpt response payload: ");
        polls = polls + 1;
        proof {
            lemma_take_take(safari.runs@, prev, mid);
            assert(safari.runs@.drop_last() == prev);
            assert forall|j: int| mid.len() <= j < safari.runs@.len() implies (#[trigger] safari.runs@[j]).script == script by {
                if j < prev.len() {
                    assert(safari.runs@[j] == safari.runs@.drop_last()[j]);
                }
            }
        }
        let payload = match reply {
            Ok(p) => p,
            Err(e) => {
                proof {
                    lemma_take_take(safari.runs@, mid, before);
                    assert(safari.runs@[before.len() as int] == mid[before.len() as int]);
                    lemma_prompt_contract(
                    before,
                    mid,
                    safari.runs@,
                    reads,
                    spec_build_exec_script_for_profile(spec_build_chatgpt_fill_input_js(prompt@), opt_view(profile_filter)),
                    spec_build_exec_script_for_profile(spec_build_chatgpt_click_send_js(), opt_view(profile_filter)),
                    "failed to fill ChatGPT input: "@,
                    script,
                    Err::<SafariAiResponseResult, MacosError>(e),
                );
                }
                return Err(e);
            },
        };
        proof {
            let next = ps.push(payload);
            assert(next.drop_last() =~= ps);
            assert(safari.notes@.payloads =~= notes0.payloads + next);
            assert(safari.runs@.drop_last() == prev);
            assert forall|j: int| mid.len() <= j < safari.runs@.len() implies (#[trigger] safari.runs@[j]).script == script by {
                if j < prev.len() {
                    assert(safari.runs@[j] == safari.runs@.drop_last()[j]);
                }
            }
            ps = next;
        }
        match watch.step(&payload, prompt) {
            Some(answer) => {
                proof {
                    lemma_take_take(safari.runs@, mid, before);
                    assert(safari.runs@[before.len() as int] == mid[before.len() as int]);
                    assert(safari.notes@.clock.skip(notes0.clock.len() as int) =~= times);
                    assert(safari.notes@.payloads.skip(notes0.payloads.len() as int) =~= ps);
                    assert(safari.notes@.clock.take(notes0.clock.len() as int) =~= notes0.clock);
                    assert(safari.notes@.payloads.take(notes0.payloads.len() as int) =~= notes0.payloads);
                    assert(polled_since(notes0, safari.notes@, safari.runs@, script));
                    assert(chatgpt_waited(times, ps, prompt@, timeout_seconds, answer_view(answer)));
                    lemma_prompt_contract(
                    before,
                    mid,
                    safari.runs@,
                    reads,
                    spec_build_exec_script_for_profile(spec_build_chatgpt_fill_input_js(prompt@), opt_view(profile_filter)),
                    spec_build_exec_script_for_profile(spec_build_chatgpt_click_send_js(), opt_view(profile_filter)),
                    "failed to fill ChatGPT input: "@,
                    script,
                    Ok::<SafariAiResponseResult, MacosError>(answer),
                );
                }
                return Ok(answer);
            },
            None => {},
        }
    }
    proof {
        lemma_take_take(safari.runs@, mid, before);
        assert(safari.runs@[before.len() as int] == mid[before.len() as int]);
        assert(safari.notes@.clock.skip(notes0.clock.len() as int) =~= times);
        assert(safari.notes@.payloads.skip(notes0.payloads.len() as int) =~= ps);
        assert(safari.notes@.clock.take(notes0.clock.len() as int) =~= notes0.clock);
        assert(safari.notes@.payloads.take(notes0.payloads.len() as int) =~= notes0.payloads);
        assert(polled_since(notes0, safari.notes@, safari.runs@, script));
    }
    let answer = timeout_answer("chatgpt", watch.last_response, watch.last_conversation_url);
    assert(chatgpt_waited(times, ps, prompt@, timeout_seconds, answer_view(answer)));
    proof {
        lemma_prompt_contract(
            before,
            mid,
            safari.runs@,
            reads,
            spec_build_exec_script_for_profile(spec_build_chatgpt_fill_input_js(prompt@), opt_view(profile_filter)),
            spec_build_exec_script_for_profile(spec_build_chatgpt_click_send_js(), opt_view(profile_filter)),
            "failed to fill ChatGPT input: "@,
            script,
            Ok::<SafariAiResponseResult, MacosError>(answer),
        );
    }
    Ok(answer)
}

/// The last text, how many polls in a row repeated it, and whether the
/// answer is final, after the Gemini poll texts, from a fresh watch; a final
/// answer stays final.
pub open spec fn gemini_fold(texts: Seq<Seq<char>>, prompt: Seq<char>) -> (Seq<char>, nat, bool)
    decreases texts.len(),
{
    if texts.len() == 0 {
        (Seq::empty(), 0, false)
    } else {
        let prev = gemini_fold(texts.drop_last(), prompt);
        if prev.2 {
            prev
        } else {
            spec_gemini_step(prev.0, prev.1, texts.last(), prompt)
        }
    }
}

/// The texts that runs printed (empty for a run that failed).
pub open spec fn run_texts(runs: Seq<ScriptRun>) -> Seq<Seq<char>> {
    runs.map_values(|x: ScriptRun| match spec_profile_js_outcome(x.outcome) {
        Ok(t) => t,
        Err(_) => Seq::empty(),
    })
}

/// The error for a Gemini wait that read no answer.
pub open spec fn gemini_timeout_error() -> MacosErrorView {
    MacosErrorView::Other("timeout waiting for Gemini response"@)
}

/// How a Gemini wait ended, given its clock readings (at the start, then
/// before each poll and at the end) and the texts it polled: with the answer
/// once it was final; otherwise, once the minute had passed or the polls had
/// run out, with the last text read as a timeout, or the timeout error when
/// there was none.
pub open spec fn gemini_ended(times: Seq<u64>, texts: Seq<Seq<char>>, prompt: Seq<char>, r: Result<SafariAiResponseResult, MacosError>) -> bool {
    let f = gemini_fold(texts, prompt);
    &&& times.len() >= 1
    &&& texts.len() <= 61
    &&& if f.2 {
        r matches Ok(v) && answer_view(v) == AnswerView { provider: "gemini"@, status: "complete"@, response: f.0, conversation_url: None }
    } else {
        &&& (texts.len() == 61 || times.last() >= deadline_after(times[0], 60_000))
        &&& if f.0.len() > 0 {
            r matches Ok(v) && answer_view(v) == timeout_view("gemini"@, f.0, None)
        } else {
            fails_with(r, gemini_timeout_error())
        }
    }
}

/// The runs from `k` on are Gemini polls with `script`; when every one
/// printed, the wait ended as the texts say, and when the last failed, with
/// its error.
pub open spec fn gemini_polled(runs: Seq<ScriptRun>, k: int, script: Seq<char>, times: Seq<u64>, prompt: Seq<char>, r: Result<SafariAiResponseResult, MacosError>) -> bool {
    let polls = runs.skip(k);
    &&& 0 <= k <= runs.len()
    &&& forall|j: int| 0 <= j < polls.len() ==> (#[trigger] polls[j]).script == script
    &&& (forall|j: int| 0 <= j < polls.len() ==> spec_profile_js_outcome((#[trigger] polls[j]).outcome) is Ok)
        ==> gemini_ended(times, run_texts(polls), prompt, r)
    &&& polls.len() > 0 && spec_profile_js_outcome(polls.last().outcome) is Err ==> (forall|j: int|
        0 <= j < polls.len() - 1 ==> spec_profile_js_outcome((#[trigger] polls[j]).outcome) is Ok)
    &&& polls.len() > 0 ==> (spec_profile_js_outcome(polls.last().outcome) matches Err(e) ==> fails_with(r, e))
}

/// Sends `prompt` to Gemini and waits up to a minute for its answer, polling
/// every second: the answer is final when three polls in a row read the same
/// text (`GeminiWatch`); otherwise the last text read is returned as a
/// timeout, and an error when there was none.
pub fn send_gemini_prompt<H: SafariHost>(safari: &mut Safari<H>, prompt: &str, profile_filter: Option<&str>) -> (r: Result<SafariAiResponseResult, MacosError>)
    ensures
        exists|k: int| #[trigger] prompt_sent(
            old(safari).runs@,
            final(safari).runs@,
            final(safari).send_clock@.skip(old(safari).send_clock@.len() as int),
            spec_build_exec_script_for_profile(spec_build_gemini_fill_input_js(prompt@), opt_view(profile_filter)),
            spec_build_exec_script_for_profile(spec_build_gemini_click_send_js(), opt_view(profile_filter)),
            "failed to fill Gemini input: "@,
            err_of(r),
            k,
        ) && (was_sent(old(safari).runs@, final(safari).runs@, k) ==> final(safari).notes@.clock.len() > old(
            safari,
        ).notes@.clock.len() && gemini_polled(
            final(safari).runs@,
            k,
            spec_build_exec_script_for_profile(spec_gemini_response_extract_js(), opt_view(profile_filter)),
            final(safari).notes@.clock.skip(old(safari).notes@.clock.len() as int),
            prompt@,
            r,
        )),
        r matches Ok(v) ==> v.provider@ == "gemini"@ && v.response@.len() > 0 && (v.status@ == "complete"@ || v.status@ == "timeout"@),
        r is Ok ==> final(safari).notes@.clock.len() > old(safari).notes@.clock.len(),
{
    let ghost before = safari.runs@;
    let ghost c0 = safari.send_clock@;
    let ghost notes0 = safari.notes@;
    let ghost fill_s = spec_build_exec_script_for_profile(spec_build_gemini_fill_input_js(prompt@), opt_view(profile_filter));
    let ghost send_s = spec_build_exec_script_for_profile(spec_build_gemini_click_send_js(), opt_view(profile_filter));
    let ghost failure_s = "failed to fill Gemini input: "@;
    let fill_js = build_gemini_fill_input_js(prompt);
    let send_js = build_gemini_click_send_js();
    match fill_and_send(safari, fill_js.as_str(), send_js.as_str(), profile_filter, "safari_gemini_prompt_fill", "safari_gemini_wait_send", "failed to fill Gemini input: ") {
        Ok(()) => {},
        Err(e) => {
            let r: Result<SafariAiResponseResult, MacosError> = Err(e);
            assert(prompt_sent(
                before,
                safari.runs@,
                safari.send_clock@.skip(c0.len() as int),
                spec_build_exec_script_for_profile(fill_js@, opt_view(profile_filter)),
                spec_build_exec_script_for_profile(send_js@, opt_view(profile_filter)),
                "failed to fill Gemini input: "@,
                err_of(r),
                safari.runs@.len() as int,
            ));
            return r;
        },
    }
    let ghost mid = safari.runs@;
    let ghost clock_mid = safari.send_clock@;
    let ghost reads = clock_mid.skip(c0.len() as int);
    let ghost script = spec_build_exec_script_for_profile(spec_gemini_response_extract_js(), opt_view(profile_filter));
    let start = safari.read_clock();
    let deadline = start.saturating_add(60_000);
    let response_js = gemini_response_extract_js();
    let mut watch = GeminiWatch::new();
    let mut polls: u64 = 0;
    let ghost mut times: Seq<u64> = seq![start];
    proof {
        assert(safari.notes@.clock =~= notes0.clock + times);
        assert(safari.runs@.skip(mid.len() as int) =~= Seq::<ScriptRun>::empty());
    }
    while polls < 61
        invariant
            polls <= 61,
            watch.stable_count <= 1,
            watch.stable_count > 0 ==> watch.last_text@.len() > 0,
            deadline == deadline_after(times[0], 60_000),
            safari.runs@.len() == mid.len() + polls,
            safari.runs@.take(mid.len() as int) == mid,
            forall|j: int| 0 <= j < safari.runs@.skip(mid.len() as int).len() ==> (#[trigger] safari.runs@.skip(mid.len() as int)[j]).script == script,
            forall|j: int| 0 <= j < safari.runs@.skip(mid.len() as int).len() ==> spec_profile_js_outcome((#[trigger] safari.runs@.skip(mid.len() as int)[j]).outcome) is Ok,
            script == spec_build_exec_script_for_profile(response_js@, opt_view(profile_filter)),
            response_js@ == spec_gemini_response_extract_js(),
            prompt_sent(before, mid, reads, fill_s, send_s, failure_s, None, mid.len() as int),
            safari.send_clock@ == clock_mid,
            reads == clock_mid.skip(c0.len() as int),
            c0 == old(safari).send_clock@,
            fill_s == spec_build_exec_script_for_profile(spec_build_gemini_fill_input_js(prompt@), opt_view(profile_filter)),
            send_s == spec_build_exec_script_for_profile(spec_build_gemini_click_send_js(), opt_view(profile_filter)),
            failure_s == "failed to fill Gemini input: "@,
            before == old(safari).runs@,
            notes0 == old(safari).notes@,
            times.len() >= 1,
            safari.notes@.clock == notes0.clock + times,
            (watch.last_text@, watch.stable_count as nat, false) == gemini_fold(run_texts(safari.runs@.skip(mid.len() as int)), prompt@),
        ensures
            polls == 61 || times.last() >= deadline,
            polls <= 61,
            watch.stable_count > 0 ==> watch.last_text@.len() > 0,
            safari.runs@.len() == mid.len() + polls,
            safari.runs@.take(mid.len() as int) == mid,
            forall|j: int| 0 <= j < safari.runs@.skip(mid.len() as int).len() ==> (#[trigger] safari.runs@.skip(mid.len() as int)[j]).script == script,
            forall|j: int| 0 <= j < safari.runs@.skip(mid.len() as int).len() ==> spec_profile_js_outcome((#[trigger] safari.runs@.skip(mid.len() as int)[j]).outcome) is Ok,
            times.len() >= 1,
            safari.notes@.clock == notes0.clock + times,
            (watch.last_text@, watch.stable_count as nat, false) == gemini_fold(run_texts(safari.runs@.skip(mid.len() as int)), prompt@),
        decreases 61 - polls,
    {
        let now = safari.read_clock();
        proof {
            times = times.push(now);
            assert(safari.notes@.clock =~= notes0.clock + times);
        }
        if now >= deadline {
            break;
        }
        safari.host.sleep_millis(1000);
        let ghost prev = safari.runs@;
        let reply = safari.run_js_for_profile(response_js.as_str(), profile_filter, "safari_gemini_response");
        polls = polls + 1;
        let ghost polls_now = safari.runs@.skip(mid.len() as int);
        proof {
            assert(safari.runs@.take(prev.len() as int) =~= prev);
            lemma_take_take(safari.runs@, prev, mid);
            assert(polls_now.drop_last() =~= prev.skip(mid.len() as int));
            assert(polls_now.last() == safari.runs@.last());
        }
        let text = match reply {
            Ok(t) => t,
            Err(e) => {
                proof {
                    lemma_take_take(safari.runs@, mid, before);
                    assert(safari.runs@[before.len() as int] == mid[before.len() as int]);
                    assert(safari.notes@.clock.skip(notes0.clock.len() as int) =~= times);
                    assert forall|j: int| 0 <= j < polls_now.len() - 1 implies spec_profile_js_outcome((#[trigger] polls_now[j]).outcome) is Ok by {
                        assert(polls_now[j] == polls_now.drop_last()[j]);
                    }
                    assert forall|j: int| 0 <= j < polls_now.len() implies (#[trigger] polls_now[j]).script == script by {
                        if j < polls_now.len() - 1 {
                            assert(polls_now[j] == polls_now.drop_last()[j]);
                        }
                    }
                    assert(gemini_polled(safari.runs@, mid.len() as int, script, times, prompt@, Err::<SafariAiResponseResult, MacosError>(e)));
                    lemma_prompt_sent_extends(before, mid, safari.runs@, reads, fill_s, send_s, failure_s, err_of(Err::<SafariAiResponseResult, MacosError>(e)));
                }
                return Err(e);
            },
        };
        proof {
            assert forall|j: int| 0 <= j < polls_now.len() implies (#[trigger] polls_now[j]).script == script
                && spec_profile_js_outcome(polls_now[j].outcome) is Ok by {
                if j < polls_now.len() - 1 {
                    assert(polls_now[j] == polls_now.drop_last()[j]);
                }
            }
            assert(run_texts(polls_now).drop_last() =~= run_texts(prev.skip(mid.len() as int)));
            assert(run_texts(polls_now).last() == text@);
        }
        if watch.step(text.as_str(), prompt) {
            proof {
                lemma_take_take(safari.runs@, mid, before);
                assert(safari.runs@[before.len() as int] == mid[before.len() as int]);
                assert(safari.notes@.clock.skip(notes0.clock.len() as int) =~= times);
            }
            let answer = SafariAiResponseResult {
                provider: String::from_str("gemini"),
                status: String::from_str("complete"),
                response: watch.last_text,
                conversation_url: None,
            };
            assert(gemini_polled(safari.runs@, mid.len() as int, script, times, prompt@, Ok::<SafariAiResponseResult, MacosError>(answer)));
            proof {
                lemma_prompt_sent_extends(before, mid, safari.runs@, reads, fill_s, send_s, failure_s, err_of(Ok::<SafariAiResponseResult, MacosError>(answer)));
            }
            return Ok(answer);
        }
    }
    proof {
        lemma_take_take(safari.runs@, mid, before);
        assert(safari.runs@[before.len() as int] == mid[before.len() as int]);
        assert(safari.notes@.clock.skip(notes0.clock.len() as int) =~= times);
    }
    if chars_of(watch.last_text.as_str()).len() > 0 {
        let answer = timeout_answer("gemini", watch.last_text, None);
        assert(gemini_polled(safari.runs@, mid.len() as int, script, times, prompt@, Ok::<SafariAiResponseResult, MacosError>(answer)));
        proof {
            lemma_prompt_sent_extends(before, mid, safari.runs@, reads, fill_s, send_s, failure_s, err_of(Ok::<SafariAiResponseResult, MacosError>(answer)));
        }
        return Ok(answer);
    }
    let r: Result<SafariAiResponseResult, MacosError> = Err(MacosError::Other(String::from_str("timeout waiting for Gemini response")));
    assert(gemini_polled(safari.runs@, mid.len() as int, script, times, prompt@, r));
    proof {
        lemma_prompt_sent_extends(before, mid, safari.runs@, reads, fill_s, send_s, failure_s, err_of(r));
    }
    r
}

/// The last answer, the conversation URL and the answer of the first payload
/// that finished, after the Grok payloads, from a fresh watch; `reading` says
/// whether a conversation is read rather than a prompt answered.
pub open spec fn grok_fold(ps: Seq<ResponsePayload>, prompt: Seq<char>, reading: bool) -> (Seq<char>, Option<Seq<char>>, Option<AnswerView>)
    decreases ps.len(),
{
    if ps.len() == 0 {
        (Seq::empty(), None, None)
    } else {
        let prev = grok_fold(ps.drop_last(), prompt, reading);
        if prev.2 is Some {
            prev
        } else if reading {
            spec_grok_read_step(prev.0, prev.1, ps.last())
        } else {
            spec_grok_step(prev.0, prev.1, ps.last(), prompt)
        }
    }
}

/// A Grok wait for a sent prompt that had not finished finishes at the first
/// poll that reads `complete` with a usable answer, with that poll's answer.
pub proof fn lemma_grok_wait_answers_completing_poll(ps: Seq<ResponsePayload>, prompt: Seq<char>)
    requires
        ps.len() > 0,
        grok_fold(ps.drop_last(), prompt, false).2 is None,
        reads_complete(ps.last()),
        has_usable_answer(ps.last(), prompt),
    ensures
        grok_fold(ps, prompt, false).2 is Some,
        grok_fold(ps, prompt, false).2->Some_0.status == "complete"@,
        grok_fold(ps, prompt, false).2->Some_0.response == trim(ps.last().response->Some_0@),
{
    let prev = grok_fold(ps.drop_last(), prompt, false);
    lemma_grok_complete_poll_answers(prev.0, prev.1, ps.last(), prompt);
}

/// An answer a Grok wait finishes with is a complete Grok answer, with text
/// when a conversation is read.
pub proof fn lemma_grok_fold_answer(ps: Seq<ResponsePayload>, prompt: Seq<char>, reading: bool)
    ensures
        grok_fold(ps, prompt, reading).2 matches Some(a) ==> a.provider == "grok"@ && a.status == "complete"@ && (reading
            ==> a.response.len() > 0),
    decreases ps.len(),
{
    if ps.len() > 0 {
        lemma_grok_fold_answer(ps.drop_last(), prompt, reading);
    }
}

/// How a Grok wait of at most `max_polls` polls and `span` milliseconds
/// ended, given its clock readings and the payloads it polled: with the answer
/// of the first payload that finished; otherwise, once the deadline had passed
/// or the polls had run out, with the last answer read as a timeout.
pub open spec fn grok_waited(times: Seq<u64>, ps: Seq<ResponsePayload>, prompt: Seq<char>, reading: bool, max_polls: int, span: int, v: AnswerView) -> bool {
    let f = grok_fold(ps, prompt, reading);
    &&& times.len() >= 1
    &&& ps.len() <= max_polls
    &&& match f.2 {
        Some(a) => v == a,
        None => v == timeout_view("grok"@, f.0, f.1) && (ps.len() == max_polls || times.last() >= deadline_after(times[0], span)),
    }
}

/// Polls Grok's answer every 750 ms, at most `max_polls` times and until
/// `span` milliseconds have passed, until a payload finishes it.
#[verifier::rlimit(40)]
fn poll_grok<H: SafariHost>(safari: &mut Safari<H>, prompt: &str, reading: bool, span: u64, max_polls: u64, profile_filter: Option<&str>, context: &str) -> (r: Result<SafariAiResponseResult, MacosError>)
    requires
        max_polls < u64::MAX,
    ensures
        final(safari).runs@.len() >= old(safari).runs@.len(),
        final(safari).runs@.take(old(safari).runs@.len() as int) == old(safari).runs@,
        final(safari).send_clock == old(safari).send_clock,
        polls_after(
            final(safari).runs@,
            old(safari).runs@.len() as int,
            spec_build_exec_script_for_profile(spec_grok_response_extract_js(), opt_view(profile_filter)),
            r,
        ),
        r matches Ok(v) ==> polled_since(
            old(safari).notes@,
            final(safari).notes@,
            final(safari).runs@,
            spec_build_exec_script_for_profile(spec_grok_response_extract_js(), opt_view(profile_filter)),
        ) && grok_waited(
            final(safari).notes@.clock.skip(old(safari).notes@.clock.len() as int),
            final(safari).notes@.payloads.skip(old(safari).notes@.payloads.len() as int),
            prompt@,
            reading,
            max_polls as int,
            span as int,
            answer_view(v),
        ),
{
    let ghost mid = safari.runs@;
    let ghost notes0 = safari.notes@;
    let ghost script = spec_build_exec_script_for_profile(spec_grok_response_extract_js(), opt_view(profile_filter));
    let start = safari.read_clock();
    let deadline = start.saturating_add(span);
    let response_js = grok_response_extract_js();
    let mut watch = GrokWatch::new();
    let mut polls: u64 = 0;
    let ghost mut times: Seq<u64> = seq![start];
    let ghost mut ps: Seq<ResponsePayload> = Seq::empty();
    proof {
        assert(safari.notes@.clock =~= notes0.clock + times);
        assert(safari.notes@.payloads =~= notes0.payloads + ps);
    }
    while polls < max_polls
        invariant
            polls <= max_polls,
            deadline == deadline_after(times[0], span as int),
            safari.runs@.len() == mid.len() + polls,
            safari.runs@.take(mid.len() as int) == mid,
            forall|j: int| mid.len() <= j < safari.runs@.len() ==> (#[trigger] safari.runs@[j]).script == script,
            safari.runs@.len() > mid.len() ==> spec_profile_js_outcome(safari.runs@.last().outcome) is Ok,
            script == spec_build_exec_script_for_profile(response_js@, opt_view(profile_filter)),
            response_js@ == spec_grok_response_extract_js(),
            mid == old(safari).runs@,
            notes0 == old(safari).notes@,
            safari.send_clock == old(safari).send_clock,
            times.len() >= 1,
            safari.notes@.clock == notes0.clock + times,
            safari.notes@.payloads == notes0.payloads + ps,
            ps.len() == polls,
            (watch.last_response@, opt_string(watch.last_conversation_url), None::<AnswerView>) == grok_fold(ps, prompt@, reading),
        ensures
            polls == max_polls || times.last() >= deadline,
            safari.send_clock == old(safari).send_clock,
            safari.runs@.len() == mid.len() + polls,
            safari.runs@.take(mid.len() as int) == mid,
            forall|j: int| mid.len() <= j < safari.runs@.len() ==> (#[trigger] safari.runs@[j]).script == script,
            safari.runs@.len() > mid.len() ==> spec_profile_js_outcome(safari.runs@.last().outcome) is Ok,
            times.len() >= 1,
            safari.notes@.clock == notes0.clock + times,
            safari.notes@.payloads == notes0.payloads + ps,
            ps.len() == polls,
            polls <= max_polls,
            (watch.last_response@, opt_string(watch.last_conversation_url), None::<AnswerView>) == grok_fold(ps, prompt@, reading),
        decreases max_polls - polls,
    {
        let now = safari.read_clock();
        proof {
            times = times.push(now);
            assert(safari.notes@.clock =~= notes0.clock + times);
        }
        if now >= deadline {
            break;
        }
        safari.host.sleep_millis(750);
        let ghost prev = safari.runs@;
        let reply = response_reply(safari, response_js.as_str(), profile_filter, context, "failed to parse grok response payload: ");
        polls = polls + 1;
        proof {
            lemma_take_take(safari.runs@, prev, mid);
            assert(safari.runs@.drop_last() == prev);
            assert forall|j: int| mid.len() <= j < safari.runs@.len() implies (#[trigger] safari.runs@[j]).script == script by {
                if j < prev.len() {
                    assert(safari.runs@[j] == safari.runs@.drop_last()[j]);
                }
            }
        }
        let payload = match reply {
            Ok(p) => p,
            Err(e) => {
                return Err(e);
            },
        };
        proof {
            let next = ps.push(payload);
            assert(next.drop_last() =~= ps);
            assert(safari.notes@.payloads =~= notes0.payloads + next);
            assert(safari.runs@.drop_last() == prev);
            assert forall|j: int| mid.len() <= j < safari.runs@.len() implies (#[trigger] safari.runs@[j]).script == script by {
                if j < prev.len() {
                    assert(safari.runs@[j] == safari.runs@.drop_last()[j]);
                }
            }
            ps = next;
        }
        let step = if reading {
            watch.read_step(&payload)
        } else {
            watch.step(&payload, prompt)
        };
        match step {
            Some(answer) => {
                proof {
                    assert(safari.notes@.clock.skip(notes0.clock.len() as int) =~= times);
                    assert(safari.notes@.payloads.skip(notes0.payloads.len() as int) =~= ps);
                    assert(safari.notes@.clock.take(notes0.clock.len() as int) =~= notes0.clock);
                    assert(safari.notes@.payloads.take(notes0.payloads.len() as int) =~= notes0.payloads);
                    assert(polled_since(notes0, safari.notes@, safari.runs@, script));
                }
                return Ok(answer);
            },
            None => {},
        }
    }
    proof {
        assert(safari.notes@.clock.skip(notes0.clock.len() as int) =~= times);
        assert(safari.notes@.payloads.skip(notes0.payloads.len() as int) =~= ps);
        assert(safari.notes@.clock.take(notes0.clock.len() as int) =~= notes0.clock);
        assert(safari.notes@.payloads.take(notes0.payloads.len() as int) =~= notes0.payloads);
        assert(polled_since(notes0, safari.notes@, safari.runs@, script));
    }
    let answer = timeout_answer("grok", watch.last_response, watch.last_conversation_url);
    Ok(answer)
}

/// Sends `prompt` to Grok and waits up to two minutes for its answer,
/// polling every 750 ms: a `complete` reply finishes it (`GrokWatch`);
/// otherwise the last answer read is returned as a timeout.
pub fn send_grok_prompt<H: SafariHost>(safari: &mut Safari<H>, prompt: &str, profile_filter: Option<&str>) -> (r: Result<SafariAiResponseResult, MacosError>)
    ensures
        prompt_contract(
            old(safari).runs@,
            final(safari).runs@,
            final(safari).send_clock@.skip(old(safari).send_clock@.len() as int),
            spec_build_exec_script_for_profile(spec_build_grok_fill_input_js(prompt@), opt_view(profile_filter)),
            spec_build_exec_script_for_profile(spec_build_grok_click_send_js(), opt_view(profile_filter)),
            "failed to fill Grok input: "@,
            spec_build_exec_script_for_profile(spec_grok_response_extract_js(), opt_view(profile_filter)),
            r,
        ),
        r matches Ok(v) ==> v.provider@ == "grok"@ && (v.status@ == "complete"@ || v.status@ == "timeout"@),
        r matches Ok(v) ==> polled_since(
            old(safari).notes@,
            final(safari).notes@,
            final(safari).runs@,
            spec_build_exec_script_for_profile(spec_grok_response_extract_js(), opt_view(profile_filter)),
        ) && grok_waited(
            final(safari).notes@.clock.skip(old(safari).notes@.clock.len() as int),
            final(safari).notes@.payloads.skip(old(safari).notes@.payloads.len() as int),
            prompt@,
            false,
            161,
            120_000,
            answer_view(v),
        ),
{
    let ghost before = safari.runs@;
    let ghost c0 = safari.send_clock@;
    let fill_js = build_grok_fill_input_js(prompt);
    let send_js = build_grok_click_send_js();
    match fill_and_send(safari, fill_js.as_str(), send_js.as_str(), profile_filter, "safari_grok_prompt_fill", "safari_grok_wait_send", "failed to fill Grok input: ") {
        Ok(()) => {},
        Err(e) => {
            let r: Result<SafariAiResponseResult, MacosError> = Err(e);
            assert(prompt_sent(
                before,
                safari.runs@,
                safari.send_clock@.skip(c0.len() as int),
                spec_build_exec_script_for_profile(fill_js@, opt_view(profile_filter)),
                spec_build_exec_script_for_profile(send_js@, opt_view(profile_filter)),
                "failed to fill Grok input: "@,
                err_of(r),
                safari.runs@.len() as int,
            ));
            return r;
        },
    }
    let ghost mid = safari.runs@;
    let ghost clock_mid = safari.send_clock@;
    let ghost reads = clock_mid.skip(c0.len() as int);
    let r = poll_grok(safari, prompt, false, 120_000, 161, profile_filter, "safari_grok_response");
    proof {
        lemma_prompt_contract(
            before,
            mid,
            safari.runs@,
            reads,
            spec_build_exec_script_for_profile(spec_build_grok_fill_input_js(prompt@), opt_view(profile_filter)),
            spec_build_exec_script_for_profile(spec_build_grok_click_send_js(), opt_view(profile_filter)),
            "failed to fill Grok input: "@,
            spec_build_exec_script_for_profile(spec_grok_response_extract_js(), opt_view(profile_filter)),
            r,
        );
        lemma_take_take(safari.runs@, mid, before);
        assert(safari.runs@[before.len() as int] == mid[before.len() as int]);
        lemma_grok_fold_answer(safari.notes@.payloads.skip(old(safari).notes@.payloads.len() as int), prompt@, false);
    }
    r
}

/// The script that navigates the current tab to `url`.
pub open spec fn spec_navigate_js(url: Seq<char>) -> Seq<char> {
    "(function() { window.location.href = \""@ + crate::applescript::quoted(url) + "\"; return \"true\"; })()"@
}

pub(crate) fn navigate_js(url: &str) -> (r: String)
    ensures
        r@ == spec_navigate_js(url@),
{
    let mut s = String::from_str("(function() { window.location.href = \"");
    let e = crate::applescript::escape_js_string(url);
    s.append(e.as_str());
    s.append("\"; return \"true\"; })()");
    s
}

/// Opens the Grok conversation at `url` and waits up to thirty seconds for
/// its answer to read complete; otherwise returns the last answer read as a
/// timeout.
pub fn grok_read_conversation<H: SafariHost>(safari: &mut Safari<H>, url: &str, profile_filter: Option<&str>) -> (r: Result<SafariAiResponseResult, MacosError>)
    ensures
        final(safari).runs@.len() >= old(safari).runs@.len() + 1,
        final(safari).runs@.take(old(safari).runs@.len() as int) == old(safari).runs@,
        final(safari).runs@[old(safari).runs@.len() as int].script == spec_build_exec_script_for_profile(spec_navigate_js(url@), opt_view(profile_filter)),
        spec_profile_js_outcome(final(safari).runs@[old(safari).runs@.len() as int].outcome) matches Err(e) ==> fails_with(r, e)
            && final(safari).runs@.len() == old(safari).runs@.len() + 1,
        spec_profile_js_outcome(final(safari).runs@[old(safari).runs@.len() as int].outcome) is Ok ==> polls_after(
            final(safari).runs@,
            old(safari).runs@.len() + 1int,
            spec_build_exec_script_for_profile(spec_grok_response_extract_js(), opt_view(profile_filter)),
            r,
        ),
        r matches Ok(v) ==> v.provider@ == "grok"@ && (v.status@ == "complete"@ && v.response@.len() > 0 || v.status@ == "timeout"@),
        r matches Ok(v) ==> polled_since(
            old(safari).notes@,
            final(safari).notes@,
            final(safari).runs@,
            spec_build_exec_script_for_profile(spec_grok_response_extract_js(), opt_view(profile_filter)),
        ) && grok_waited(
            final(safari).notes@.clock.skip(old(safari).notes@.clock.len() as int),
            final(safari).notes@.payloads.skip(old(safari).notes@.payloads.len() as int),
            ""@,
            true,
            41,
            30_000,
            answer_view(v),
        ),
{
    let ghost before = safari.runs@;
    let nav = navigate_js(url);
    match safari.run_js_for_profile(nav.as_str(), profile_filter, "safari_grok_read_navigate") {
        Ok(_) => {},
        Err(e) => {
            return Err(e);
        },
    }
    let ghost mid = safari.runs@;
    assert(mid.take(before.len() as int) =~= before);
    safari.host.sleep_millis(3000);
    let r = poll_grok(safari, "", true, 30_000, 41, profile_filter, "safari_grok_read_response");
    proof {
        lemma_take_take(safari.runs@, mid, before);
        assert(safari.runs@[before.len() as int] == mid[before.len() as int]);
        lemma_grok_fold_answer(safari.notes@.payloads.skip(old(safari).notes@.payloads.len() as int), ""@, true);
    }
    r
}

/// Lists a provider's conversations with `js`, trying every half second for
/// `tries` tries until the listing is not empty.
fn list_conversations<H: SafariHost>(safari: &mut Safari<H>, js: &str, profile_filter: Option<&str>, context: &str, tries: u64) -> (r: Result<Vec<SafariConversation>, MacosError>)
    requires
        tries <= 1000,
    ensures
        final(safari).runs@.len() >= old(safari).runs@.len(),
        final(safari).runs@.take(old(safari).runs@.len() as int) == old(safari).runs@,
{
    let ghost before = safari.runs@;
    let start = safari.host.now_millis();
    let deadline = start.saturating_add(tries * 500);
    let mut n: u64 = 0;
    while n < tries
        invariant
            n <= tries,
            safari.runs@.len() >= before.len(),
            safari.runs@.take(before.len() as int) == before,
            before == old(safari).runs@,
        decreases tries - n,
    {
        let now = safari.host.now_millis();
        if now >= deadline {
            break;
        }
        let ghost prev = safari.runs@;
        let reply = safari.run_js_for_profile(js, profile_filter, context);
        n = n + 1;
        proof {
            assert(safari.runs@.take(prev.len() as int) =~= prev);
            lemma_take_take(safari.runs@, prev, before);
        }
        let raw = match reply {
            Ok(raw) => raw,
            Err(e) => {
                return Err(e);
            },
        };
        let items = match safari.host.parse_conversations(raw.as_str()) {
            Ok(items) => items,
            Err(m) => {
                let mut msg = String::from_str("failed to parse conversations: ");
                msg.append(m.as_str());
                return Err(MacosError::Other(msg));
            },
        };
        if items.len() > 0 {
            return Ok(items);
        }
        safari.host.sleep_millis(500);
    }
    Ok(Vec::new())
}

/// The Grok conversations of the sidebar, waiting up to ten seconds for it to load.
pub fn grok_list_conversations<H: SafariHost>(safari: &mut Safari<H>, profile_filter: Option<&str>) -> (r: Result<Vec<SafariConversation>, MacosError>)
    ensures
        final(safari).runs@.len() >= old(safari).runs@.len(),
        final(safari).runs@.take(old(safari).runs@.len() as int) == old(safari).runs@,
{
    let js = grok_list_conversations_js();
    list_conversations(safari, js.as_str(), profile_filter, "safari_grok_list_conversations", 20)
}

/// The ChatGPT conversations of the history sidebar, waiting up to ten
/// seconds for it to load.
pub fn chatgpt_list_conversations<H: SafariHost>(safari: &mut Safari<H>, profile_filter: Option<&str>) -> (r: Result<Vec<SafariConversation>, MacosError>)
    ensures
        final(safari).runs@.len() >= old(safari).runs@.len(),
        final(safari).runs@.take(old(safari).runs@.len() as int) == old(safari).runs@,
{
    let js = chatgpt_list_conversations_js();
    list_conversations(safari, js.as_str(), profile_filter, "safari_chatgpt_list_conversations", 20)
}

/// The script that lists the Gemini conversations linked from the page.
pub const GEMINI_LIST_JS: &'static str = r#"(() => {
        const items = document.querySelectorAll('a[href*="/app/"]');
        const convos = [];
        for (const a of items) {
          const href = a.getAttribute("href") || "";
          if (!/\/app\/[a-f0-9]{10,}/.test(href)) continue;
          const title = (a.innerText || a.textContent || "").trim();
          if (!title) continue;
          convos.push({ title, url: "https://gemini.google.com" + href });
        }
        return JSON.stringify(convos);
    })()"#;

/// The Gemini conversations linked from the page.
pub fn gemini_list_conversations<H: SafariHost>(safari: &mut Safari<H>, profile_filter: Option<&str>) -> (r: Result<Vec<SafariConversation>, MacosError>)
    ensures
        one_more_run(old(safari).runs@, final(safari).runs@, spec_build_exec_script_for_profile(GEMINI_LIST_JS@, opt_view(profile_filter))),
        spec_profile_js_outcome(final(safari).runs@.last().outcome) matches Err(e) ==> fails_with(r, e),
{
    let raw = match safari.run_js_for_profile(GEMINI_LIST_JS, profile_filter, "safari_gemini_list_conversations") {
        Ok(raw) => raw,
        Err(e) => {
            return Err(e);
        },
    };
    match safari.host.parse_conversations(raw.as_str()) {
        Ok(items) => Ok(items),
        Err(m) => {
            let mut msg = String::from_str("failed to parse conversations: ");
            msg.append(m.as_str());
            Err(MacosError::Other(msg))
        },
    }
}

/// The script that reads the longest answer panel of a Gemini conversation.
pub const GEMINI_READ_JS: &'static str = r#"(() => {
        const panels = document.querySelectorAll('.markdown.markdown-main-panel');
        let biggest = null;
        let maxLen = 0;
        for (const p of panels) {
          const len = (p.innerText || "").length;
          if (len > maxLen) { maxLen = len; biggest = p; }
        }
        if (!biggest || maxLen === 0) return JSON.stringify({ status: "empty", response: "" });
        return JSON.stringify({ status: "complete", response: (biggest.innerText || "").trim() });
    })()"#;

/// Opens the Gemini conversation at `url` and reads its longest answer.
pub fn gemini_read_conversation<H: SafariHost>(safari: &mut Safari<H>, url: &str, profile_filter: Option<&str>) -> (r: Result<SafariAiResponseResult, MacosError>)
    ensures
        final(safari).runs@.len() >= old(safari).runs@.len() + 1,
        final(safari).runs@.take(old(safari).runs@.len() as int) == old(safari).runs@,
        final(safari).runs@[old(safari).runs@.len() as int].script == spec_build_exec_script_for_profile(spec_navigate_js(url@), opt_view(profile_filter)),
        spec_profile_js_outcome(final(safari).runs@[old(safari).runs@.len() as int].outcome) matches Err(e) ==> fails_with(r, e),
        r matches Ok(v) ==> v.provider@ == "gemini"@ && v.conversation_url is None,
{
    let ghost before = safari.runs@;
    let nav = navigate_js(url);
    match safari.run_js_for_profile(nav.as_str(), profile_filter, "safari_gemini_read_navigate") {
        Ok(_) => {},
        Err(e) => {
            return Err(e);
        },
    }
    let ghost mid = safari.runs@;
    assert(mid.take(before.len() as int) =~= before);
    safari.host.sleep_millis(3000);
    let raw = safari.run_js_for_profile(GEMINI_READ_JS, profile_filter, "safari_gemini_read_content");
    proof {
        assert(safari.runs@.take(mid.len() as int) =~= mid);
        lemma_take_take(safari.runs@, mid, before);
        assert(safari.runs@[before.len() as int] == mid[before.len() as int]);
    }
    let raw = match raw {
        Ok(raw) => raw,
        Err(e) => {
            return Err(e);
        },
    };
    let fields = match safari.host.parse_response_payload(raw.as_str()) {
        Ok(f) => f,
        Err(m) => {
            let mut msg = String::from_str("failed to parse read result: ");
            msg.append(m.as_str());
            return Err(MacosError::Other(msg));
        },
    };
    let status = match fields.status {
        Some(s) => s,
        None => String::from_str("error"),
    };
    let response = match fields.response {
        Some(r) => r,
        None => String::new(),
    };
    Ok(SafariAiResponseResult { provider: String::from_str("gemini"), status, response, conversation_url: None })
}

/// The script that navigates the current tab to a Gemini mode's page.
pub open spec fn spec_mode_navigate_js(url: Seq<char>) -> Seq<char> {
    "(function() { window.location.href = \""@ + url + "\"; return \"true\"; })()"@
}

/// The runs that open a Gemini mode: the navigation to its page, then the
/// read of the prompt-box placeholder, which must show the mode. A failed run,
/// or a placeholder of another mode, is the error `r_err`; `ok` is whether
/// both runs went through.
pub open spec fn mode_prepared(
    before: Seq<ScriptRun>,
    after: Seq<ScriptRun>,
    mode: GeminiMode,
    profile_filter: Option<Seq<char>>,
    r_err: Option<MacosErrorView>,
    ok: bool,
) -> bool {
    let b = before.len() as int;
    &&& after.len() >= b + 1
    &&& after.take(b) == before
    &&& after[b].script == spec_build_exec_script_for_profile(spec_mode_navigate_js(spec_gemini_mode_url(mode)), profile_filter)
    &&& match spec_profile_js_outcome(after[b].outcome) {
        Err(e) => r_err == Some(e) && after.len() == b + 1 && !ok,
        Ok(_) => {
            &&& after.len() >= b + 2
            &&& after[b + 1].script == spec_build_exec_script_for_profile(spec_build_gemini_placeholder_read_js(), profile_filter)
            &&& match spec_profile_js_outcome(after[b + 1].outcome) {
                Err(e) => r_err == Some(e) && after.len() == b + 2 && !ok,
                Ok(p) => if spec_placeholder_shows_mode(mode, p) {
                    ok
                } else {
                    r_err == Some(MacosErrorView::Other(
                        "unexpected Gemini placeholder after URL navigation to "@ + spec_gemini_mode_url(mode) + ": "@ + p,
                    )) && after.len() == b + 2 && !ok
                },
            }
        },
    }
}

/// Opens the page of a Gemini mode and checks, by the prompt-box
/// placeholder, that the mode is active.
pub fn prepare_gemini_mode<H: SafariHost>(safari: &mut Safari<H>, mode: GeminiMode, profile_filter: Option<&str>) -> (r: Result<SafariAiReadyResult, MacosError>)
    ensures
        final(safari).runs@.len() >= old(safari).runs@.len() + 1,
        final(safari).runs@.take(old(safari).runs@.len() as int) == old(safari).runs@,
        final(safari).runs@[old(safari).runs@.len() as int].script == spec_build_exec_script_for_profile(
            spec_mode_navigate_js(spec_gemini_mode_url(mode)),
            opt_view(profile_filter),
        ),
        mode_prepared(old(safari).runs@, final(safari).runs@, mode, opt_view(profile_filter), err_of(r), r is Ok),
        final(safari).runs@.len() <= old(safari).runs@.len() + 2,
        final(safari).send_clock == old(safari).send_clock,
        r matches Ok(v) ==> {
            &&& final(safari).runs@.len() == old(safari).runs@.len() + 2
            &&& final(safari).runs@.last().script == spec_build_exec_script_for_profile(spec_build_gemini_placeholder_read_js(), opt_view(profile_filter))
            &&& spec_profile_js_outcome(final(safari).runs@.last().outcome) matches Ok(placeholder)
                && spec_placeholder_shows_mode(mode, placeholder)
            &&& v.provider@ == "gemini"@ && v.mode@ == spec_gemini_mode_slug(mode) && v.status@ == "ready"@
        },
{
    let ghost before = safari.runs@;
    let url = gemini_mode_url(mode);
    let mut nav = String::from_str("(function() { window.location.href = \"");
    nav.append(url);
    nav.append("\"; return \"true\"; })()");
    assert(nav@ == spec_mode_navigate_js(spec_gemini_mode_url(mode)));
    match safari.run_js_for_profile(nav.as_str(), profile_filter, "safari_gemini_mode_navigate") {
        Ok(_) => {},
        Err(e) => {
            proof {
                assert(safari.runs@.take(before.len() as int) =~= before);
                assert(safari.runs@[before.len() as int] == safari.runs@.last());
            }
            return Err(e);
        },
    }
    let ghost mid = safari.runs@;
    assert(mid.take(before.len() as int) =~= before);
    assert(mid[before.len() as int] == mid.last());
    safari.host.sleep_millis(2500);
    let read_js = build_gemini_placeholder_read_js();
    let reply = safari.run_js_for_profile(read_js.as_str(), profile_filter, "safari_gemini_mode_placeholder");
    proof {
        assert(safari.runs@.take(mid.len() as int) =~= mid);
        lemma_take_take(safari.runs@, mid, before);
        assert(safari.runs@[before.len() as int] == mid[before.len() as int]);
        assert(safari.runs@[before.len() + 1int] == safari.runs@.last());
    }
    let placeholder = match reply {
        Ok(p) => p,
        Err(e) => {
            return Err(e);
        },
    };
    if !placeholder_shows_mode(mode, placeholder.as_str()) {
        let mut msg = String::from_str("unexpected Gemini placeholder after URL navigation to ");
        msg.append(url);
        msg.append(": ");
        msg.append(placeholder.as_str());
        let r: Result<SafariAiReadyResult, MacosError> = Err(MacosError::Other(msg));
        assert(err_of(r) == Some(MacosErrorView::Other(
            "unexpected Gemini placeholder after URL navigation to "@ + spec_gemini_mode_url(mode) + ": "@ + placeholder@,
        )));
        return r;
    }
    Ok(SafariAiReadyResult {
        provider: String::from_str("gemini"),
        mode: String::from_str(gemini_mode_slug(mode)),
        status: String::from_str("ready"),
    })
}

/// A deep research state that timed out.
fn deep_research_timeout() -> (r: SafariDeepResearchResult)
    ensures
        r.provider@ == "gemini"@,
        r.mode@ == "deep-research"@,
        r.status@ == "timeout"@,
{
    SafariDeepResearchResult {
        provider: String::from_str("gemini"),
        mode: String::from_str("deep-research"),
        status: String::from_str("timeout"),
        conversation_url: None,
        plan: None,
        response: None,
        actions: Vec::new(),
    }
}

/// Polls a deep research run every second for up to `timeout_seconds`, until
/// its plan is ready or its report complete; a timeout otherwise.
pub fn poll_gemini_deep_research<H: SafariHost>(safari: &mut Safari<H>, timeout_seconds: u64, profile_filter: Option<&str>) -> (r: Result<SafariDeepResearchResult, MacosError>)
    ensures
        final(safari).runs@.len() >= old(safari).runs@.len(),
        final(safari).runs@.take(old(safari).runs@.len() as int) == old(safari).runs@,
        final(safari).runs@.len() <= old(safari).runs@.len() + timeout_seconds,
        final(safari).send_clock == old(safari).send_clock,
        polls_after(
            final(safari).runs@,
            old(safari).runs@.len() as int,
            spec_build_exec_script_for_profile(spec_gemini_deep_research_poll_js(), opt_view(profile_filter)),
            r,
        ),
        r matches Ok(v) ==> v.provider@ == "gemini"@ && v.mode@ == "deep-research"@
            && (v.status@ == "plan_ready"@ || v.status@ == "complete"@ || v.status@ == "timeout"@),
{
    let ghost before = safari.runs@;
    let start = safari.host.now_millis();
    let span: u64 = if timeout_seconds > u64::MAX / 1000 {
        u64::MAX
    } else {
        timeout_seconds * 1000
    };
    let deadline = start.saturating_add(span);
    let ghost script = spec_build_exec_script_for_profile(spec_gemini_deep_research_poll_js(), opt_view(profile_filter));
    let js = gemini_deep_research_poll_js();
    let mut polls: u64 = 0;
    while polls < timeout_seconds
        invariant
            polls <= timeout_seconds,
            safari.runs@.len() == before.len() + polls,
            safari.runs@.take(before.len() as int) == before,
            before == old(safari).runs@,
            safari.send_clock == old(safari).send_clock,
            js@ == spec_gemini_deep_research_poll_js(),
            script == spec_build_exec_script_for_profile(spec_gemini_deep_research_poll_js(), opt_view(profile_filter)),
            forall|j: int| before.len() <= j < safari.runs@.len() ==> (#[trigger] safari.runs@[j]).script == script,
            forall|j: int| before.len() <= j < safari.runs@.len() ==> spec_profile_js_outcome((#[trigger] safari.runs@[j]).outcome) is Ok,
        decreases timeout_seconds - polls,
    {
        let now = safari.host.now_millis();
        if now >= deadline {
            break;
        }
        let ghost prev = safari.runs@;
        let reply = safari.run_js_for_profile(js.as_str(), profile_filter, "safari_gemini_deep_research_poll");
        polls = polls + 1;
        proof {
            assert(safari.runs@.take(prev.len() as int) =~= prev);
            lemma_take_take(safari.runs@, prev, before);
            assert forall|j: int| before.len() <= j < safari.runs@.len() implies (#[trigger] safari.runs@[j]).script == script by {
                if j < prev.len() {
                    assert(safari.runs@[j] == safari.runs@.drop_last()[j]);
                }
            }
            assert forall|j: int| before.len() <= j < safari.runs@.len() - 1 implies spec_profile_js_outcome((#[trigger] safari.runs@[j]).outcome) is Ok by {
                assert(safari.runs@[j] == safari.runs@.drop_last()[j]);
            }
        }
        let payload = match reply {
            Ok(p) => p,
            Err(e) => {
                return Err(e);
            },
        };
        let fields = match safari.host.parse_deep_research_payload(payload.as_str()) {
            Ok(f) => f,
            Err(m) => {
                let mut msg = String::from_str("invalid deep research payload: ");
                msg.append(m.as_str());
                msg.append(": ");
                msg.append(payload.as_str());
                return Err(MacosError::Other(msg));
            },
        };
        let result = match deep_research_result(&fields) {
            Ok(v) => v,
            Err(e) => {
                return Err(e);
            },
        };
        match deep_research_step(result.status.as_str()) {
            DeepResearchStep::Done => {
                return Ok(result);
            },
            DeepResearchStep::Again => {},
            DeepResearchStep::Fail(e) => {
                return Err(e);
            },
        }
        safari.host.sleep_millis(1000);
    }
    Ok(deep_research_timeout())
}

/// The script that reads the URL of the open Gemini conversation.
pub const GEMINI_CONVERSATION_URL_JS: &'static str = r#"(() => {
        const url = window.location.href || "";
        if (url.match(/gemini\.google\.com\/app\/[a-f0-9]{10,}/)) return url;
        return "";
    })()"#;

/// The URL of the open Gemini conversation.
pub fn get_gemini_conversation_url<H: SafariHost>(safari: &mut Safari<H>, profile_filter: Option<&str>) -> (r: Result<String, MacosError>)
    ensures
        final(safari).send_clock == old(safari).send_clock,
        one_more_run(old(safari).runs@, final(safari).runs@, spec_build_exec_script_for_profile(GEMINI_CONVERSATION_URL_JS@, opt_view(profile_filter))),
        match spec_profile_js_outcome(final(safari).runs@.last().outcome) {
            Err(e) => fails_with(r, e),
            Ok(url) => if trim(url).len() == 0 {
                fails_with(r, MacosErrorView::Other("no conversation URL found"@))
            } else {
                r matches Ok(u) && u@ == trim(url)
            },
        },
{
    let url = match safari.run_js_for_profile(GEMINI_CONVERSATION_URL_JS, profile_filter, "safari_gemini_conversation_url") {
        Ok(u) => u,
        Err(e) => {
            return Err(e);
        },
    };
    let t = trim_chars(chars_of(url.as_str()).as_slice());
    if t.len() == 0 {
        return Err(MacosError::Other(String::from_str("no conversation URL found")));
    }
    Ok(crate::text::string_of(t.as_slice()))
}

/// The mode page opened and its placeholder showed the mode.
pub open spec fn prepare_went_through(before: Seq<ScriptRun>, after: Seq<ScriptRun>, mode: GeminiMode, profile_filter: Option<Seq<char>>) -> bool {
    let b = before.len() as int;
    &&& after.len() >= b + 2
    &&& spec_profile_js_outcome(after[b].outcome) is Ok
    &&& spec_profile_js_outcome(after[b + 1].outcome) matches Ok(p) && spec_placeholder_shows_mode(mode, p)
}

/// A mode that was prepared before `mid` stays prepared with runs added.
proof fn lemma_mode_prepared_extends(
    before: Seq<ScriptRun>,
    mid: Seq<ScriptRun>,
    after: Seq<ScriptRun>,
    mode: GeminiMode,
    profile_filter: Option<Seq<char>>,
    e1: Option<MacosErrorView>,
    e2: Option<MacosErrorView>,
)
    requires
        mode_prepared(before, mid, mode, profile_filter, e1, true),
        mid.len() == before.len() + 2,
        mid.len() <= after.len(),
        after.take(mid.len() as int) == mid,
    ensures
        mode_prepared(before, after, mode, profile_filter, e2, true),
        prepare_went_through(before, after, mode, profile_filter),
{
    let b = before.len() as int;
    lemma_take_take(after, mid, before);
    assert(after[b] == mid[b]) by {
        assert(after.take(mid.len() as int)[b] == after[b]);
    }
    assert(after[b + 1] == mid[b + 1]) by {
        assert(after.take(mid.len() as int)[b + 1] == after[b + 1]);
    }
}

/// A prompt sent between `start` and `mid`, with clock readings `reads`
/// taken after `c0`, keeps that description with runs and readings added.
proof fn lemma_sent_extends(
    start: Seq<ScriptRun>,
    mid: Seq<ScriptRun>,
    after: Seq<ScriptRun>,
    c0: Seq<u64>,
    c_mid: Seq<u64>,
    c_after: Seq<u64>,
    fill_script: Seq<char>,
    send_script: Seq<char>,
    failure: Seq<char>,
    r_err: Option<MacosErrorView>,
)
    requires
        prompt_sent(start, mid, c_mid.skip(c0.len() as int), fill_script, send_script, failure, None, mid.len() as int),
        mid.len() <= after.len(),
        after.take(mid.len() as int) == mid,
        c0.len() <= c_mid.len() <= c_after.len(),
        c_after.take(c_mid.len() as int) == c_mid,
        start.len() <= mid.len(),
        mid.take(start.len() as int) == start,
    ensures
        exists|n: int, k: int| #[trigger] prompt_sent(after.take(start.len() as int), after, #[trigger] c_after.skip(c0.len() as int).take(n), fill_script, send_script, failure, r_err, k),
{
    let reads = c_mid.skip(c0.len() as int);
    lemma_prompt_sent_extends(start, mid, after, reads, fill_script, send_script, failure, r_err);
    lemma_take_take(after, mid, start);
    let n = reads.len() as int;
    assert(c_after.skip(c0.len() as int).take(n) =~= reads) by {
        assert forall|j: int| 0 <= j < n implies c_after.skip(c0.len() as int).take(n)[j] == reads[j] by {
            assert(c_after.take(c_mid.len() as int)[c0.len() + j] == c_after[c0.len() + j]);
        }
    }
    assert(prompt_sent(after.take(start.len() as int), after, c_after.skip(c0.len() as int).take(n), fill_script, send_script, failure, r_err, mid.len() as int));
}

/// What follows a deep research prompt that was sent: reads the conversation
/// URL, polls for the plan, and, with `auto_confirm` and a plan ready,
/// confirms it and polls for the report.
fn finish_gemini_deep_research<H: SafariHost>(safari: &mut Safari<H>, prompt: &str, auto_confirm: bool, send_js: &str, profile_filter: Option<&str>) -> (r: Result<SafariDeepResearchResult, MacosError>)
    ensures
        final(safari).runs@.len() >= old(safari).runs@.len(),
        final(safari).runs@.take(old(safari).runs@.len() as int) == old(safari).runs@,
        final(safari).send_clock@.len() >= old(safari).send_clock@.len(),
        final(safari).send_clock@.take(old(safari).send_clock@.len() as int) == old(safari).send_clock@,
        r matches Ok(v) ==> v.provider@ == "gemini"@ && v.mode@ == "deep-research"@,
{
    let ghost m2 = safari.runs@;
    let ghost c2 = safari.send_clock@;
    safari.host.sleep_millis(1000);
    let conv_url = match get_gemini_conversation_url(safari, profile_filter) {
        Ok(u) => Some(u),
        Err(_) => None,
    };
    let ghost m3 = safari.runs@;
    proof {
        assert(m3.take(m2.len() as int) =~= m2);
        assert(c2.take(c2.len() as int) =~= c2);
    }
    let polled = poll_gemini_deep_research(safari, 30, profile_filter);
    let ghost m4 = safari.runs@;
    proof {
        lemma_take_take(m4, m3, m2);
    }
    let mut result = match polled {
        Ok(v) => v,
        Err(e) => {
            return Err(e);
        },
    };
    result.conversation_url = match &conv_url {
        Some(u) => Some(u.clone()),
        None => None,
    };
    if result.plan.is_none() {
        result.plan = Some(String::from_str(prompt));
    }
    let plan_ready = chars_eq(chars_of(result.status.as_str()).as_slice(), chars_of("plan_ready").as_slice());
    if !(auto_confirm && plan_ready) {
        return Ok(result);
    }
    let confirm_js = build_gemini_fill_input_js("ok");
    let filled = safari.run_js_for_profile(confirm_js.as_str(), profile_filter, "safari_gemini_deep_research_confirm_fill");
    let ghost m5 = safari.runs@;
    proof {
        assert(m5.take(m4.len() as int) =~= m4);
        lemma_take_take(m5, m4, m2);
    }
    let text = match filled {
        Ok(t) => t,
        Err(e) => {
            return Err(e);
        },
    };
    if !is_true_reply(&text) {
        return Err(MacosError::Other(String::from_str("failed to fill confirm text")));
    }
    let clicked = wait_and_click_send(safari, send_js, profile_filter, "safari_gemini_wait_send");
    let ghost m6 = safari.runs@;
    proof {
        lemma_take_take(m6, m5, m2);
    }
    match clicked {
        Ok(()) => {},
        Err(e) => {
            return Err(e);
        },
    }
    safari.host.sleep_millis(3000);
    let final_polled = poll_gemini_deep_research(safari, 900, profile_filter);
    proof {
        lemma_take_take(safari.runs@, m6, m2);
    }
    let mut final_result = match final_polled {
        Ok(v) => v,
        Err(e) => {
            return Err(e);
        },
    };
    final_result.conversation_url = conv_url;
    Ok(final_result)
}

/// Starts a Gemini deep research on `prompt`: opens the mode, sends the
/// prompt, waits up to thirty seconds for the plan, and, with `auto_confirm`,
/// confirms the plan and waits up to fifteen minutes for the report.
pub fn start_gemini_deep_research<H: SafariHost>(safari: &mut Safari<H>, prompt: &str, auto_confirm: bool, profile_filter: Option<&str>) -> (r: Result<SafariDeepResearchResult, MacosError>)
    ensures
        final(safari).runs@.len() >= old(safari).runs@.len() + 1,
        final(safari).runs@.take(old(safari).runs@.len() as int) == old(safari).runs@,
        mode_prepared(
            old(safari).runs@,
            final(safari).runs@,
            GeminiMode::DeepResearch,
            opt_view(profile_filter),
            err_of(r),
            prepare_went_through(old(safari).runs@, final(safari).runs@, GeminiMode::DeepResearch, opt_view(profile_filter)),
        ),
        prepare_went_through(old(safari).runs@, final(safari).runs@, GeminiMode::DeepResearch, opt_view(profile_filter)) ==> exists|
            n: int,
            k: int,
        |
            #[trigger] prompt_sent(
                final(safari).runs@.take(old(safari).runs@.len() + 2int),
                final(safari).runs@,
                #[trigger] final(safari).send_clock@.skip(old(safari).send_clock@.len() as int).take(n),
                spec_build_exec_script_for_profile(spec_build_gemini_fill_input_js(prompt@), opt_view(profile_filter)),
                spec_build_exec_script_for_profile(spec_build_gemini_click_send_js(), opt_view(profile_filter)),
                "failed to fill deep research input: "@,
                err_of(r),
                k,
            ),
        r matches Ok(v) ==> v.provider@ == "gemini"@ && v.mode@ == "deep-research"@,
{
    let ghost before = safari.runs@;
    let ghost c0 = safari.send_clock@;
    let prepared = prepare_gemini_mode(safari, GeminiMode::DeepResearch, profile_filter);
    let ghost m1 = safari.runs@;
    match prepared {
        Ok(_) => {},
        Err(e) => {
            proof {
                assert(!prepare_went_through(before, m1, GeminiMode::DeepResearch, opt_view(profile_filter)));
            }
            return Err(e);
        },
    }
    assert(prepare_went_through(before, m1, GeminiMode::DeepResearch, opt_view(profile_filter)));
    let ghost c1 = safari.send_clock@;
    let fill_js = build_gemini_fill_input_js(prompt);
    let send_js = build_gemini_click_send_js();
    let sent = fill_and_send(safari, fill_js.as_str(), send_js.as_str(), profile_filter, "safari_gemini_deep_research_fill", "safari_gemini_wait_send", "failed to fill deep research input: ");
    let ghost m2 = safari.runs@;
    let ghost c2 = safari.send_clock@;
    proof {
        lemma_take_take(m2, m1, before);
        lemma_mode_prepared_extends(before, m1, m2, GeminiMode::DeepResearch, opt_view(profile_filter), None, err_of(sent));
        assert(c1 == c0);
        assert(m2.take(m1.len() as int) == m1);
    }
    match sent {
        Ok(()) => {},
        Err(e) => {
            let r: Result<SafariDeepResearchResult, MacosError> = Err(e);
            proof {
                lemma_mode_prepared_extends(before, m1, m2, GeminiMode::DeepResearch, opt_view(profile_filter), None, err_of(r));
                let n = c2.skip(c0.len() as int).len() as int;
                assert(c2.skip(c0.len() as int).take(n) =~= c2.skip(c0.len() as int));
                assert(prompt_sent(m2.take(before.len() + 2int), m2, c2.skip(c0.len() as int).take(n),
                    spec_build_exec_script_for_profile(spec_build_gemini_fill_input_js(prompt@), opt_view(profile_filter)),
                    spec_build_exec_script_for_profile(spec_build_gemini_click_send_js(), opt_view(profile_filter)),
                    "failed to fill deep research input: "@, err_of(r), m2.len() as int));
            }
            return r;
        },
    }
    let r = finish_gemini_deep_research(safari, prompt, auto_confirm, send_js.as_str(), profile_filter);
    proof {
        lemma_take_take(safari.runs@, m2, before);
        lemma_take_take(safari.runs@, m2, m1);
        lemma_mode_prepared_extends(before, m1, safari.runs@, GeminiMode::DeepResearch, opt_view(profile_filter), None, err_of(r));
        lemma_sent_extends(
            m1,
            m2,
            safari.runs@,
            c0,
            c2,
            safari.send_clock@,
            spec_build_exec_script_for_profile(spec_build_gemini_fill_input_js(prompt@), opt_view(profile_filter)),
            spec_build_exec_script_for_profile(spec_build_gemini_click_send_js(), opt_view(profile_filter)),
            "failed to fill deep research input: "@,
            err_of(r),
        );
    }
    r
}
} // verus!
