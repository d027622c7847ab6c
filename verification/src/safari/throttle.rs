//! Pacing of Safari automation: the delay between operations, detection of
//! rate-limit replies with their retry schedule, the automation lock file, and
//! the nesting of automation sessions.
use vstd::prelude::*;

use crate::error::{MacosError, MacosErrorView};
use crate::text::{
    ascii_lowercase, ascii_lowercase_chars, chars_eq, chars_of, contains, contains_str, string_of,
    trim, trim_chars, push_decimal, push_signed_decimal, decimal, signed_decimal,
};

verus! {

broadcast use vstd::string::group_string_axioms;

/// The least time between two Safari operations, in milliseconds.
pub const SAFARI_OPERATION_DELAY_MS: u64 = 1000;

/// How many times an operation is retried after a rate-limit reply.
pub const SAFARI_429_MAX_RETRIES: usize = 3;

/// How long the automation lock file holds, in seconds.
pub const SAFARI_LOCK_TTL_SECS: i64 = 1800;

/// When the next operation may start, given the time now and when the last one
/// was allowed to start (milliseconds): the wait, if any, and the reserved slot.
pub open spec fn spec_next_safari_operation(now: u64, last_operation_at: Option<u64>) -> (Option<u64>, u64) {
    match last_operation_at {
        Some(last) => if now < last + SAFARI_OPERATION_DELAY_MS {
            (Some((last + SAFARI_OPERATION_DELAY_MS - now) as u64), (last + SAFARI_OPERATION_DELAY_MS) as u64)
        } else {
            (None, now)
        },
        None => (None, now),
    }
}

pub fn compute_next_safari_operation(now: u64, last_operation_at: Option<u64>) -> (r: (Option<u64>, u64))
    requires
        last_operation_at matches Some(last) ==> last + SAFARI_OPERATION_DELAY_MS <= u64::MAX,
    ensures
        r == spec_next_safari_operation(now, last_operation_at),
{
    match last_operation_at {
        Some(last) => {
            if now < last + SAFARI_OPERATION_DELAY_MS {
                let next_allowed = last + SAFARI_OPERATION_DELAY_MS;
                (Some(next_allowed - now), next_allowed)
            } else {
                (None, now)
            }
        },
        None => (None, now),
    }
}

/// The number of bytes of one character in UTF-8.
pub open spec fn utf8_width(c: char) -> nat {
    if (c as u32) < 0x80 {
        1
    } else if (c as u32) < 0x800 {
        2
    } else if (c as u32) < 0x10000 {
        3
    } else {
        4
    }
}

/// The number of bytes of a text in UTF-8 (`str::len`).
pub open spec fn utf8_len(s: Seq<char>) -> nat
    decreases s.len(),
{
    if s.len() == 0 {
        0
    } else {
        utf8_len(s.drop_last()) + utf8_width(s.last())
    }
}

/// Whether the UTF-8 length of `s` exceeds `limit`.
fn utf8_len_exceeds(s: &[char], limit: usize) -> (r: bool)
    ensures
        r == (utf8_len(s@) > limit),
{
    let mut total: usize = 0;
    let mut i: usize = 0;
    while i < s.len()
        invariant
            i <= s.len(),
            total == utf8_len(s@.take(i as int)),
            total <= limit,
        decreases s.len() - i,
    {
        let c = s[i];
        let w: usize = if (c as u32) < 0x80 {
            1
        } else if (c as u32) < 0x800 {
            2
        } else if (c as u32) < 0x10000 {
            3
        } else {
            4
        };
        assert(s@.take(i + 1).drop_last() =~= s@.take(i as int));
        if w > limit - total {
            proof {
                lemma_utf8_len_prefix(s@, i + 1);
            }
            return true;
        }
        total = total + w;
        i = i + 1;
    }
    assert(s@.take(s.len() as int) =~= s@);
    false
}

proof fn lemma_utf8_len_prefix(s: Seq<char>, k: int)
    requires
        0 <= k <= s.len(),
    ensures
        utf8_len(s.take(k)) <= utf8_len(s),
    decreases s.len(),
{
    if k < s.len() {
        lemma_utf8_len_prefix(s.drop_last(), k);
        assert(s.drop_last().take(k) =~= s.take(k));
    } else {
        assert(s.take(k) =~= s);
    }
}

/// Whether a reply from Safari says that automation hit a rate limit: a short
/// text (at most 256 bytes once trimmed) that names HTTP 429 or "too many
/// requests", or reads exactly "rate limit exceeded" or "rate-limited".
pub open spec fn spec_is_safari_rate_limited(text: Seq<char>) -> bool {
    let trimmed = trim(text);
    if trimmed.len() == 0 || utf8_len(trimmed) > 256 {
        false
    } else {
        let n = ascii_lowercase(trimmed);
        ||| contains(n, "too many requests"@)
        ||| contains(n, "http 429"@)
        ||| contains(n, "429 too many requests"@)
        ||| contains(n, "\"status\":429"@)
        ||| n == "rate limit exceeded"@
        ||| n == "rate-limited"@
    }
}

pub fn is_safari_rate_limited(text: &str) -> (r: bool)
    ensures
        r == spec_is_safari_rate_limited(text@),
{
    let v = chars_of(text);
    let trimmed = trim_chars(v.as_slice());
    if trimmed.len() == 0 || utf8_len_exceeds(trimmed.as_slice(), 256) {
        return false;
    }
    let n = ascii_lowercase_chars(trimmed.as_slice());
    let a = chars_of("rate limit exceeded");
    let b = chars_of("rate-limited");
    contains_str(n.as_slice(), "too many requests") || contains_str(n.as_slice(), "http 429")
        || contains_str(n.as_slice(), "429 too many requests") || contains_str(
        n.as_slice(),
        "\"status\":429",
    ) || chars_eq(n.as_slice(), a.as_slice()) || chars_eq(n.as_slice(), b.as_slice())
}

/// The pause before retry number `attempt + 1` after a rate-limit reply, in
/// seconds: 30, 60, 90, ...
pub fn safari_rate_limit_backoff(attempt: usize) -> (r: u64)
    requires
        30 * (attempt + 1) <= u64::MAX,
    ensures
        r == 30 * (attempt + 1),
{
    30 * (attempt as u64 + 1)
}

/// The error reported when every retry met a rate limit.
pub fn rate_limit_error(context: &str, detail: &str) -> (r: MacosError)
    ensures
        r@ == MacosErrorView::Other(spec_rate_limit_message(context@, detail@)),
{
    let mut s = String::from_str(context);
    s.append(": Safari automation hit rate limit: ");
    s.append(detail);
    MacosError::Other(s)
}

pub open spec fn spec_rate_limit_message(context: Seq<char>, detail: Seq<char>) -> Seq<char> {
    context + ": Safari automation hit rate limit: "@ + detail
}

/// What to do after one attempt to run a Safari script.
pub enum RateLimitStep {
    /// Hand this outcome to the caller.
    Finish(Result<String, MacosError>),
    /// Wait this many seconds, then run the script again.
    Retry { backoff_secs: u64 },
    /// Every attempt met a rate limit.
    GiveUp(MacosError),
}

/// The rate-limit detail an outcome carries, if it is a rate-limit reply.
pub open spec fn spec_limited_detail(outcome: Result<String, MacosError>) -> Option<Seq<char>> {
    match outcome {
        Ok(stdout) => if spec_is_safari_rate_limited(stdout@) {
            Some(trim(stdout@))
        } else {
            None
        },
        Err(e) => if spec_is_safari_rate_limited(e.spec_text()) {
            Some(e.spec_text())
        } else {
            None
        },
    }
}

/// `r` is what follows attempt `attempt` with this outcome.
pub open spec fn spec_rate_limit_step(attempt: usize, outcome: Result<String, MacosError>, context: Seq<char>, r: RateLimitStep) -> bool {
    match spec_limited_detail(outcome) {
        None => r == RateLimitStep::Finish(outcome),
        Some(detail) => if attempt == SAFARI_429_MAX_RETRIES {
            r matches RateLimitStep::GiveUp(e) && e@ == MacosErrorView::Other(spec_rate_limit_message(context, detail))
        } else {
            r == RateLimitStep::Retry { backoff_secs: (30 * (attempt + 1)) as u64 }
        },
    }
}

/// Decides what follows attempt number `attempt` (from 0) of running a Safari
/// script: an outcome that is no rate-limit reply is final; otherwise the script
/// runs again after a linear backoff, up to `SAFARI_429_MAX_RETRIES` retries,
/// after which the last reply is reported as a rate-limit error.
pub fn rate_limit_step(attempt: usize, outcome: Result<String, MacosError>, context: &str) -> (r: RateLimitStep)
    requires
        attempt <= SAFARI_429_MAX_RETRIES,
    ensures
        spec_rate_limit_step(attempt, outcome, context@, r),
{
    let detail = match &outcome {
        Ok(stdout) => {
            if !is_safari_rate_limited(stdout.as_str()) {
                return RateLimitStep::Finish(outcome);
            }
            let v = chars_of(stdout.as_str());
            let t = trim_chars(v.as_slice());
            string_of(t.as_slice())
        },
        Err(e) => {
            let text = e.to_string();
            if !is_safari_rate_limited(text.as_str()) {
                return RateLimitStep::Finish(outcome);
            }
            text
        },
    };
    if attempt == SAFARI_429_MAX_RETRIES {
        RateLimitStep::GiveUp(rate_limit_error(context, detail.as_str()))
    } else {
        RateLimitStep::Retry { backoff_secs: safari_rate_limit_backoff(attempt) }
    }
}

/// The automation lock file: who holds it, since when, until when (seconds).
#[derive(Debug, Clone, PartialEq, Eq)]
pub struct SafariLockFile {
    pub pid: u32,
    pub acquired_at: i64,
    pub expires_at: i64,
}

/// What is found at the lock path.
pub enum ExistingLock {
    /// No lock file.
    Absent,
    /// A lock file that does not decode.
    Corrupted,
    /// A lock file that decodes.
    Held(SafariLockFile),
}

/// What to do to take the automation lock.
pub enum LockDecision {
    /// Create the lock file with this content.
    Create(SafariLockFile),
    /// Remove the expired lock file, then look again.
    RemoveStale,
    /// The lock cannot be taken.
    Fail(MacosError),
}

/// `r` is how to take the lock, given what lies at `path`.
pub open spec fn spec_lock_decision(existing: ExistingLock, now: i64, pid: u32, path: Seq<char>, r: LockDecision) -> bool {
    match existing {
        ExistingLock::Absent => r == LockDecision::Create(
            SafariLockFile { pid, acquired_at: now, expires_at: (now + SAFARI_LOCK_TTL_SECS) as i64 },
        ),
        ExistingLock::Corrupted => r matches LockDecision::Fail(e) && e@ == MacosErrorView::Other(
            "Safari automation lock "@ + path + " exists but is corrupted or unreadable"@,
        ),
        ExistingLock::Held(l) => if l.expires_at <= now {
            r == LockDecision::RemoveStale
        } else {
            r matches LockDecision::Fail(e) && e@ == MacosErrorView::Other(
                "Safari automation is locked by pid "@ + decimal(l.pid as nat) + " until "@
                    + signed_decimal(l.expires_at as int),
            )
        },
    }
}

/// Decides how to take the automation lock at `path` for process `pid` at time
/// `now`: a missing lock is created for `SAFARI_LOCK_TTL_SECS`, an expired one is
/// removed, a live or corrupted one refuses.
pub fn lock_decision(existing: ExistingLock, now: i64, pid: u32, path: &str) -> (r: LockDecision)
    requires
        now + SAFARI_LOCK_TTL_SECS <= i64::MAX,
    ensures
        spec_lock_decision(existing, now, pid, path@, r),
{
    match existing {
        ExistingLock::Absent => LockDecision::Create(
            SafariLockFile { pid, acquired_at: now, expires_at: now + SAFARI_LOCK_TTL_SECS },
        ),
        ExistingLock::Corrupted => {
            let mut s = String::from_str("Safari automation lock ");
            s.append(path);
            s.append(" exists but is corrupted or unreadable");
            LockDecision::Fail(MacosError::Other(s))
        },
        ExistingLock::Held(l) => {
            if l.expires_at <= now {
                LockDecision::RemoveStale
            } else {
                let mut s = String::from_str("Safari automation is locked by pid ");
                push_decimal(&mut s, l.pid as u128);
                s.append(" until ");
                push_signed_decimal(&mut s, l.expires_at);
                LockDecision::Fail(MacosError::Other(s))
            }
        },
    }
}

/// The process-wide state of Safari automation.
#[derive(Debug, Clone, PartialEq, Eq)]
pub struct SafariAutomationState {
    /// How many automation sessions are open, nested.
    pub depth: usize,
    /// When the last operation was allowed to start (milliseconds).
    pub last_operation_at: Option<u64>,
    /// The lock file the outermost session holds.
    pub lock_path: Option<String>,
    /// The process that holds it.
    pub lock_owner_pid: Option<u32>,
}

/// `state` with its session depth changed to `depth`.
pub open spec fn with_depth(state: SafariAutomationState, depth: int) -> SafariAutomationState {
    SafariAutomationState { depth: depth as usize, ..state }
}

/// The lock held by `state`, if it names both a path and an owner.
pub open spec fn held_lock(state: SafariAutomationState) -> Option<(String, u32)> {
    match (state.lock_path, state.lock_owner_pid) {
        (Some(p), Some(pid)) => Some((p, pid)),
        _ => None,
    }
}

/// Opening a session inside another one only counts it; the outermost session
/// must take the lock first. Returns whether the session is the outermost.
pub fn session_enter(state: &mut SafariAutomationState) -> (outermost: bool)
    requires
        old(state).depth < usize::MAX,
    ensures
        outermost == (old(state).depth == 0),
        !outermost ==> *final(state) == with_depth(*old(state), old(state).depth + 1),
        outermost ==> (*final(state) == *old(state)),
{
    if state.depth > 0 {
        state.depth = state.depth + 1;
        false
    } else {
        true
    }
}

/// Records that the outermost session took the lock at `path` for `pid`.
pub fn session_locked(state: &mut SafariAutomationState, path: String, pid: u32)
    ensures
        final(state).depth == 1,
        final(state).lock_path == (Some(path)),
        final(state).lock_owner_pid == (Some(pid)),
        final(state).last_operation_at == old(state).last_operation_at,
{
    state.depth = 1;
    state.lock_owner_pid = Some(pid);
    state.lock_path = Some(path);
}

/// Closes a session. When the outermost session closes, the lock it holds is
/// returned for release and forgotten; the time of the last operation stays.
pub fn session_exit(state: &mut SafariAutomationState, outermost: bool) -> (release: Option<(String, u32)>)
    ensures
        final(state).last_operation_at == old(state).last_operation_at,
        old(state).depth == 0 ==> *final(state) == *old(state) && (release is None),
        old(state).depth > 0 ==> final(state).depth == old(state).depth - 1,
        old(state).depth > 0 && (!outermost || old(state).depth > 1) ==> *final(state)
            == with_depth(*old(state), old(state).depth - 1) && (release is None),
        old(state).depth == 1 && outermost ==> (final(state).lock_path is None)
            && (final(state).lock_owner_pid is None) && release == held_lock(*old(state)),
{
    if state.depth == 0 {
        return None;
    }
    state.depth = state.depth - 1;
    if !outermost || state.depth > 0 {
        return None;
    }
    let release = match (state.lock_path.take(), state.lock_owner_pid.take()) {
        (Some(p), Some(pid)) => Some((p, pid)),
        _ => None,
    };
    release
}

/// Operations are spaced by the delay: an operation that comes too soon waits
/// exactly until one delay after the previous slot, and the slot it reserves is
/// never earlier than that.
pub proof fn lemma_operations_are_spaced(now: u64, last: u64)
    requires
        last + SAFARI_OPERATION_DELAY_MS <= u64::MAX,
    ensures
        spec_next_safari_operation(now, Some(last)).1 >= last + SAFARI_OPERATION_DELAY_MS
            || spec_next_safari_operation(now, Some(last)).1 == now,
        spec_next_safari_operation(now, Some(last)).1 >= now,
        spec_next_safari_operation(now, Some(last)).0 matches Some(d) ==> now + d == last + SAFARI_OPERATION_DELAY_MS,
        spec_next_safari_operation(now, Some(last)).0 is None ==> now >= last + SAFARI_OPERATION_DELAY_MS,
{
}

/// A session opened inside another and both closed, innermost first, leave
/// no session open, hand back the lock only when the outermost closes, and
/// keep the time of the last operation.
pub proof fn lemma_nested_sessions_release_once(
    s0: SafariAutomationState,
    s1: SafariAutomationState,
    s2: SafariAutomationState,
    s3: SafariAutomationState,
    s4: SafariAutomationState,
    path: String,
    pid: u32,
    r3: Option<(String, u32)>,
    r4: Option<(String, u32)>,
)
    requires
        s0.depth == 0,
        s1.depth == 1 && s1.lock_path == Some(path) && s1.lock_owner_pid == Some(pid) && s1.last_operation_at == s0.last_operation_at,
        s2 == with_depth(s1, s1.depth + 1),
        s3.last_operation_at == s2.last_operation_at,
        s3.depth == s2.depth - 1,
        s3 == with_depth(s2, s2.depth - 1) && r3 is None,
        s4.last_operation_at == s3.last_operation_at,
        s4.depth == s3.depth - 1,
        s4.lock_path is None && s4.lock_owner_pid is None && r4 == held_lock(s3),
    ensures
        r3 is None,
        r4 == Some((path, pid)),
        s4.depth == 0,
        s4.last_operation_at == s0.last_operation_at,
{
}

} // verus!
