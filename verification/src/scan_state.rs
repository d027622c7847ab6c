//! The state kept per scanned target between scans: when a scan may run
//! again, what a successful or failed scan changes, and the filters applied to
//! scanned content.
use vstd::prelude::*;

use crate::error::{MacosError, MacosErrorView};
use crate::text::{ascii_lowercase, ascii_lowercase_chars, chars_eq, chars_of, is_whitespace, is_ws, trim, trim_chars};

verus! {

broadcast use vstd::string::group_string_axioms;

/// The least time between two scans of a target, in seconds.
pub const NORMAL_MIN_SCAN_INTERVAL_SECS: i64 = 1800;

/// The time between scans of a target that stopped changing, in seconds.
pub const BACKOFF_SCAN_INTERVAL_SECS: i64 = 21600;

/// How long without change makes a target stale, in seconds.
pub const STALE_SKIP_AFTER_SECS: i64 = 259200;

/// The time between scans of a stale target, in seconds.
pub const STALE_RECHECK_INTERVAL_SECS: i64 = 86400;

/// Content older than this many days is dropped.
pub const CONTENT_MAX_AGE_DAYS: i64 = 30;

/// Content with fewer words than this, and fewer characters than
/// `MIN_CONTENT_CHARS`, is too short.
pub const MIN_CONTENT_WORDS: usize = 5;

/// See `MIN_CONTENT_WORDS`.
pub const MIN_CONTENT_CHARS: usize = 20;

/// What a scan of a target found.
#[derive(Debug, Clone, Copy, PartialEq, Eq)]
pub enum ScanStatus {
    Fresh,
    Unchanged,
    Skipped,
    Warning,
    Deleted,
}

/// What is remembered of one target between scans; times are Unix seconds.
#[derive(Debug, Clone, PartialEq, Eq)]
pub struct ScanTargetState {
    pub provider: String,
    pub target_url: String,
    pub last_checked_at: Option<i64>,
    pub last_changed_at: Option<i64>,
    pub last_fingerprint: Option<String>,
    pub no_change_count: u32,
    pub consecutive_not_found_count: u32,
    pub deleted: bool,
}

/// A scan's result with the target's state.
#[derive(Debug, Clone, PartialEq, Eq)]
pub struct ScanEnvelope<T> {
    pub provider: String,
    pub target_url: String,
    pub status: ScanStatus,
    pub no_change_count: u32,
    pub consecutive_not_found_count: u32,
    pub deleted: bool,
    pub last_checked_at: Option<i64>,
    pub last_changed_at: Option<i64>,
    pub reason: Option<String>,
    pub warning: Option<String>,
    pub data: Option<T>,
}

/// The fields of a target's state as values.
pub struct ScanTargetStateView {
    pub provider: Seq<char>,
    pub target_url: Seq<char>,
    pub last_checked_at: Option<i64>,
    pub last_changed_at: Option<i64>,
    pub last_fingerprint: Option<Seq<char>>,
    pub no_change_count: u32,
    pub consecutive_not_found_count: u32,
    pub deleted: bool,
}

impl View for ScanTargetState {
    type V = ScanTargetStateView;

    open spec fn view(&self) -> ScanTargetStateView {
        ScanTargetStateView {
            provider: self.provider@,
            target_url: self.target_url@,
            last_checked_at: self.last_checked_at,
            last_changed_at: self.last_changed_at,
            last_fingerprint: crate::safari::types::opt_string(self.last_fingerprint),
            no_change_count: self.no_change_count,
            consecutive_not_found_count: self.consecutive_not_found_count,
            deleted: self.deleted,
        }
    }
}

impl ScanTargetState {
    /// A copy of this state.
    pub fn copy_state(&self) -> (r: ScanTargetState)
        ensures
            r@ == self@,
    {
        let last_fingerprint = match &self.last_fingerprint {
            Some(f) => Some(f.clone()),
            None => None,
        };
        ScanTargetState {
            provider: self.provider.clone(),
            target_url: self.target_url.clone(),
            last_checked_at: self.last_checked_at,
            last_changed_at: self.last_changed_at,
            last_fingerprint,
            no_change_count: self.no_change_count,
            consecutive_not_found_count: self.consecutive_not_found_count,
            deleted: self.deleted,
        }
    }
}

/// The state of a target never scanned.
pub open spec fn fresh_target(provider: Seq<char>, target_url: Seq<char>) -> ScanTargetStateView {
    ScanTargetStateView {
        provider,
        target_url,
        last_checked_at: None,
        last_changed_at: None,
        last_fingerprint: None,
        no_change_count: 0,
        consecutive_not_found_count: 0,
        deleted: false,
    }
}

/// One stored target: its key and its state.
pub struct ScanSlot {
    pub key: String,
    pub entry: ScanTargetState,
}

/// The states of all scanned targets, by key.
pub struct ScanState {
    slots: Vec<ScanSlot>,
}

/// The state kept under `key` among `slots[i..]`: the first slot with that key.
pub open spec fn slot_lookup(slots: Seq<ScanSlot>, key: Seq<char>, i: int) -> Option<ScanTargetStateView>
    decreases slots.len() - i,
{
    if i < 0 || i >= slots.len() {
        None
    } else if slots[i].key@ == key {
        Some(slots[i].entry@)
    } else {
        slot_lookup(slots, key, i + 1)
    }
}

proof fn lemma_lookup_update(slots: Seq<ScanSlot>, i: int, slot: ScanSlot, key: Seq<char>, j: int)
    requires
        0 <= j,
        0 <= i < slots.len(),
        slot.key@ == slots[i].key@,
        key != slot.key@,
    ensures
        slot_lookup(slots.update(i, slot), key, j) == slot_lookup(slots, key, j),
    decreases slots.len() - j,
{
    if j < slots.len() {
        lemma_lookup_update(slots, i, slot, key, j + 1);
    }
}

proof fn lemma_lookup_found(slots: Seq<ScanSlot>, i: int, slot: ScanSlot, j: int)
    requires
        0 <= j <= i < slots.len(),
        slot.key@ == slots[i].key@,
        forall|k: int| j <= k < i ==> slots[k].key@ != slot.key@,
    ensures
        slot_lookup(slots.update(i, slot), slot.key@, j) == Some(slot.entry@),
    decreases i - j,
{
    if j < i {
        lemma_lookup_found(slots, i, slot, j + 1);
    }
}

proof fn lemma_lookup_push(slots: Seq<ScanSlot>, slot: ScanSlot, key: Seq<char>, j: int)
    requires
        0 <= j <= slots.len(),
    ensures
        slot_lookup(slots.push(slot), key, j) == (match slot_lookup(slots, key, j) {
            Some(e) => Some(e),
            None => if slot.key@ == key { Some(slot.entry@) } else { None },
        }),
    decreases slots.len() - j,
{
    let pushed = slots.push(slot);
    if j < slots.len() {
        assert(pushed[j] == slots[j]);
        lemma_lookup_push(slots, slot, key, j + 1);
    } else {
        assert(pushed[j] == slot);
        assert(slot_lookup(pushed, key, j + 1) is None);
    }
}

impl ScanState {
    /// The state kept under `key`, if any.
    pub closed spec fn lookup(&self, key: Seq<char>) -> Option<ScanTargetStateView> {
        slot_lookup(self.slots@, key, 0)
    }

    /// No target scanned yet.
    pub fn new() -> (r: ScanState)
        ensures
            forall|k: Seq<char>| r.lookup(k) is None,
    {
        ScanState { slots: Vec::new() }
    }

    /// The position of the first slot under `key`, if any.
    fn position(&self, key: &str) -> (r: Option<usize>)
        ensures
            match r {
                Some(i) => {
                    &&& i < self.slots@.len()
                    &&& self.slots@[i as int].key@ == key@
                    &&& forall|k: int| 0 <= k < i ==> self.slots@[k].key@ != key@
                },
                None => forall|k: int| 0 <= k < self.slots@.len() ==> self.slots@[k].key@ != key@,
            },
    {
        let target = chars_of(key);
        let mut i: usize = 0;
        while i < self.slots.len()
            invariant
                i <= self.slots@.len(),
                target@ == key@,
                forall|k: int| 0 <= k < i ==> self.slots@[k].key@ != key@,
            decreases self.slots@.len() - i,
        {
            let k = chars_of(self.slots[i].key.as_str());
            if chars_eq(k.as_slice(), target.as_slice()) {
                return Some(i);
            }
            i = i + 1;
        }
        None
    }

    proof fn lemma_lookup_at(&self, key: Seq<char>, i: int)
        requires
            0 <= i <= self.slots@.len(),
            forall|k: int| 0 <= k < i ==> self.slots@[k].key@ != key,
        ensures
            self.lookup(key) == slot_lookup(self.slots@, key, i),
        decreases i,
    {
        if i > 0 {
            self.lemma_lookup_at(key, i - 1);
        }
    }

    /// The state kept under `key`, if any (`stored_entry`).
    pub fn scan_target(&self, key: &str) -> (r: Option<&ScanTargetState>)
        ensures
            match r {
                Some(e) => self.lookup(key@) == Some(e@),
                None => self.lookup(key@) is None,
            },
    {
        match self.position(key) {
            Some(i) => {
                proof {
                    self.lemma_lookup_at(key@, i as int);
                }
                Some(&self.slots[i].entry)
            },
            None => {
                proof {
                    self.lemma_lookup_at(key@, self.slots@.len() as int);
                }
                None
            },
        }
    }

    /// The stored targets with their keys, in the order they were first kept.
    pub fn slots(&self) -> (r: &[ScanSlot])
        ensures
            forall|k: Seq<char>| #[trigger] self.lookup(k) == slot_lookup(r@, k, 0),
    {
        self.slots.as_slice()
    }

    /// Keeps `entry` under `key`, in place of what was kept there.
    pub fn set_entry(&mut self, key: &str, entry: ScanTargetState)
        ensures
            forall|k: Seq<char>| #[trigger] final(self).lookup(k) == if k == key@ {
                Some(entry@)
            } else {
                old(self).lookup(k)
            },
    {
        let ghost e = entry@;
        let slot = ScanSlot { key: String::from_str(key), entry };
        let ghost s = slot;
        match self.position(key) {
            Some(i) => {
                let ghost before = self.slots@;
                self.slots.set(i, slot);
                proof {
                    assert(self.slots@ == before.update(i as int, s));
                    assert forall|k: Seq<char>| #[trigger] self.lookup(k) == if k == key@ {
                        Some(e)
                    } else {
                        slot_lookup(before, k, 0)
                    } by {
                        if k == key@ {
                            lemma_lookup_found(before, i as int, s, 0);
                        } else {
                            lemma_lookup_update(before, i as int, s, k, 0);
                        }
                    }
                }
            },
            None => {
                let ghost before = self.slots@;
                proof {
                    assert forall|k: Seq<char>| k == key@ implies slot_lookup(before, k, 0) is None by {
                        old(self).lemma_lookup_at(k, before.len() as int);
                    }
                }
                self.slots.push(slot);
                proof {
                    assert(self.slots@ == before.push(s));
                    assert forall|k: Seq<char>| #[trigger] self.lookup(k) == if k == key@ {
                        Some(e)
                    } else {
                        slot_lookup(before, k, 0)
                    } by {
                        lemma_lookup_push(before, s, k, 0);
                    }
                }
            },
        }
    }
}

/// The state kept under `key`, or the error when there is none.
pub fn stored_entry<'a>(state: &'a ScanState, key: &str) -> (r: Result<&'a ScanTargetState, MacosError>)
    ensures
        match r {
            Ok(e) => state.lookup(key@) == Some(e@),
            Err(err) => state.lookup(key@) is None && err@ == MacosErrorView::Other("scan state entry not found"@),
        },
{
    match state.scan_target(key) {
        Some(e) => Ok(e),
        None => Err(MacosError::Other(String::from_str("scan state entry not found"))),
    }
}

/// The state of the target under `key`: the one kept, or a new one for
/// `provider` and `target_url` (`entry_for`).
pub fn entry_for(state: &ScanState, key: &str, provider: &str, target_url: &str) -> (r: ScanTargetState)
    ensures
        r@ == stored_or_fresh(*state, key@, provider@, target_url@),
{
    match state.scan_target(key) {
        Some(e) => e.copy_state(),
        None => new_target_state(provider, target_url),
    }
}

/// Whether a scan stops before it looks at a target, and how: a deleted
/// target answers `Deleted`; one that `skip_reason` holds back answers
/// `Skipped`, with the reason.
pub open spec fn spec_scan_gate(entry: ScanTargetStateView, now: i64) -> Option<(ScanStatus, Seq<char>)> {
    if entry.deleted {
        Some((ScanStatus::Deleted, "deleted_target"@))
    } else {
        match spec_skip_reason(false, entry.last_checked_at, entry.last_changed_at, entry.no_change_count, now) {
            Some(reason) => Some((ScanStatus::Skipped, reason)),
            None => None,
        }
    }
}

/// Whether a scan stops before it looks at `entry` at `now`, with the status
/// and the reason it answers.
pub fn scan_gate(entry: &ScanTargetState, now: i64) -> (r: Option<(ScanStatus, String)>)
    ensures
        match r {
            Some((status, reason)) => spec_scan_gate(entry@, now) == Some((status, reason@)),
            None => spec_scan_gate(entry@, now) is None,
        },
{
    if entry.deleted {
        return Some((ScanStatus::Deleted, String::from_str("deleted_target")));
    }
    match skip_reason(entry, now) {
        Some(reason) => Some((ScanStatus::Skipped, reason)),
        None => None,
    }
}

/// The warning a scan reports when its state could not be saved.
pub open spec fn spec_save_warning(saved: Result<(), Seq<char>>) -> Option<Seq<char>> {
    match saved {
        Ok(()) => None,
        Err(e) => Some("failed to save scan state: "@ + e),
    }
}

/// The warning for the outcome of saving the scan state
/// (`save_state_warning`).
pub fn save_state_warning(saved: Result<(), String>) -> (r: Option<String>)
    ensures
        crate::safari::types::opt_string(r) == spec_save_warning(match saved {
            Ok(()) => Ok(()),
            Err(e) => Err(e@),
        }),
{
    match saved {
        Ok(()) => None,
        Err(e) => {
            let mut m = String::from_str("failed to save scan state: ");
            m.append(e.as_str());
            Some(m)
        },
    }
}

/// What a successful scan at `now` whose content has `fingerprint` answers,
/// and the target's state after it.
pub open spec fn spec_record_success(e: ScanTargetStateView, fingerprint: Seq<char>, now: i64) -> (ScanStatus, ScanTargetStateView) {
    if e.last_fingerprint == Some(fingerprint) {
        (ScanStatus::Unchanged, ScanTargetStateView {
            provider: e.provider,
            target_url: e.target_url,
            last_checked_at: Some(now),
            last_changed_at: e.last_changed_at,
            last_fingerprint: e.last_fingerprint,
            no_change_count: (e.no_change_count + 1) as u32,
            consecutive_not_found_count: 0,
            deleted: false,
        })
    } else {
        (ScanStatus::Fresh, ScanTargetStateView {
            provider: e.provider,
            target_url: e.target_url,
            last_checked_at: Some(now),
            last_changed_at: Some(now),
            last_fingerprint: Some(fingerprint),
            no_change_count: 0,
            consecutive_not_found_count: 0,
            deleted: false,
        })
    }
}

/// What a scan at `now` that did not find the target answers, and the
/// target's state after it.
pub open spec fn spec_record_not_found(e: ScanTargetStateView, now: i64) -> (ScanStatus, ScanTargetStateView) {
    let misses = (e.consecutive_not_found_count + 1) as u32;
    (if misses >= 2 { ScanStatus::Deleted } else { ScanStatus::Warning }, ScanTargetStateView {
        provider: e.provider,
        target_url: e.target_url,
        last_checked_at: Some(now),
        last_changed_at: e.last_changed_at,
        last_fingerprint: e.last_fingerprint,
        no_change_count: e.no_change_count,
        consecutive_not_found_count: misses,
        deleted: e.deleted || misses >= 2,
    })
}

/// `env` reports `status` on a target whose state is `e`.
pub open spec fn envelope_reports<T>(env: ScanEnvelope<T>, e: ScanTargetStateView, status: ScanStatus) -> bool {
    &&& env.provider@ == e.provider
    &&& env.target_url@ == e.target_url
    &&& env.status == status
    &&& env.no_change_count == e.no_change_count
    &&& env.consecutive_not_found_count == e.consecutive_not_found_count
    &&& env.deleted == e.deleted
    &&& env.last_checked_at == e.last_checked_at
    &&& env.last_changed_at == e.last_changed_at
}

/// The state kept under `key`, or a new one for `provider` and `target_url`.
pub open spec fn stored_or_fresh(state: ScanState, key: Seq<char>, provider: Seq<char>, target_url: Seq<char>) -> ScanTargetStateView {
    match state.lookup(key) {
        Some(e) => e,
        None => fresh_target(provider, target_url),
    }
}

/// `after` keeps `e` under `key` and what `before` kept under other keys.
pub open spec fn stores(before: ScanState, after: ScanState, key: Seq<char>, e: ScanTargetStateView) -> bool {
    forall|k: Seq<char>| #[trigger] after.lookup(k) == if k == key { Some(e) } else { before.lookup(k) }
}

/// The key under which a target's state is kept.
pub open spec fn spec_scan_key(provider: Seq<char>, target_url: Seq<char>) -> Seq<char> {
    provider + ":"@ + target_url
}

/// The key under which a target's state is kept: `provider:target_url`.
pub fn build_scan_key(provider: &str, target_url: &str) -> (r: String)
    ensures
        r@ == spec_scan_key(provider@, target_url@),
{
    let mut s = String::from_str(provider);
    s.append(":");
    s.append(target_url);
    s
}

/// A new target's state: never checked.
pub fn new_target_state(provider: &str, target_url: &str) -> (r: ScanTargetState)
    ensures
        r.provider@ == provider@,
        r.target_url@ == target_url@,
        r.last_checked_at is None,
        r.last_changed_at is None,
        r.last_fingerprint is None,
        r.no_change_count == 0,
        r.consecutive_not_found_count == 0,
        !r.deleted,
{
    ScanTargetState {
        provider: String::from_str(provider),
        target_url: String::from_str(target_url),
        last_checked_at: None,
        last_changed_at: None,
        last_fingerprint: None,
        no_change_count: 0,
        consecutive_not_found_count: 0,
        deleted: false,
    }
}

/// Why a target is not to be scanned at `now`, if it is not: it was deleted;
/// it is stale (unchanged for three days) and was checked within a day; or
/// the interval since the last check (six hours after two unchanged scans,
/// else thirty minutes) has not passed.
pub open spec fn spec_skip_reason(
    deleted: bool,
    last_checked_at: Option<i64>,
    last_changed_at: Option<i64>,
    no_change_count: u32,
    now: i64,
) -> Option<Seq<char>> {
    if deleted {
        Some("deleted_target"@)
    } else {
        match last_checked_at {
            None => None,
            Some(checked) => {
                let stale = match last_changed_at {
                    Some(changed) => now - changed >= STALE_SKIP_AFTER_SECS && now - checked < STALE_RECHECK_INTERVAL_SECS,
                    None => false,
                };
                let min_interval = if no_change_count >= 2 {
                    BACKOFF_SCAN_INTERVAL_SECS
                } else {
                    NORMAL_MIN_SCAN_INTERVAL_SECS
                };
                if stale {
                    Some("stale_target_backoff"@)
                } else if now - checked < min_interval {
                    Some("backoff_interval_not_elapsed"@)
                } else {
                    None
                }
            },
        }
    }
}

/// Why `entry` is not to be scanned at `now`, if it is not.
pub fn skip_reason(entry: &ScanTargetState, now: i64) -> (r: Option<String>)
    ensures
        crate::safari::types::opt_string(r) == spec_skip_reason(
            entry.deleted,
            entry.last_checked_at,
            entry.last_changed_at,
            entry.no_change_count,
            now,
        ),
{
    if entry.deleted {
        return Some(String::from_str("deleted_target"));
    }
    let checked = match entry.last_checked_at {
        Some(c) => c,
        None => {
            return None;
        },
    };
    let since_checked: i128 = now as i128 - checked as i128;
    match entry.last_changed_at {
        Some(changed) => {
            let since_changed: i128 = now as i128 - changed as i128;
            if since_changed >= STALE_SKIP_AFTER_SECS as i128 && since_checked < STALE_RECHECK_INTERVAL_SECS as i128 {
                return Some(String::from_str("stale_target_backoff"));
            }
        },
        None => {},
    }
    let min_interval: i64 = if entry.no_change_count >= 2 {
        BACKOFF_SCAN_INTERVAL_SECS
    } else {
        NORMAL_MIN_SCAN_INTERVAL_SECS
    };
    if since_checked < min_interval as i128 {
        return Some(String::from_str("backoff_interval_not_elapsed"));
    }
    None
}

/// Records a successful scan at `now` whose content has `fingerprint`: the
/// same fingerprint as last time counts one more unchanged scan; another one
/// marks the target changed. Either way the target is found again.
pub fn record_success(entry: &mut ScanTargetState, fingerprint: String, now: i64) -> (r: ScanStatus)
    requires
        crate::safari::types::opt_string(old(entry).last_fingerprint) == Some(fingerprint@) ==> old(entry).no_change_count < u32::MAX,
    ensures
        final(entry).provider == old(entry).provider,
        final(entry).target_url == old(entry).target_url,
        final(entry).last_checked_at == Some(now),
        final(entry).consecutive_not_found_count == 0,
        !final(entry).deleted,
        if crate::safari::types::opt_string(old(entry).last_fingerprint) == Some(fingerprint@) {
            &&& r == ScanStatus::Unchanged
            &&& final(entry).no_change_count == old(entry).no_change_count + 1
            &&& final(entry).last_changed_at == old(entry).last_changed_at
            &&& final(entry).last_fingerprint == old(entry).last_fingerprint
        } else {
            &&& r == ScanStatus::Fresh
            &&& final(entry).no_change_count == 0
            &&& final(entry).last_changed_at == Some(now)
            &&& crate::safari::types::opt_string(final(entry).last_fingerprint) == Some(fingerprint@)
        },
        (r, final(entry)@) == spec_record_success(old(entry)@, fingerprint@, now),
{
    entry.last_checked_at = Some(now);
    let same = match &entry.last_fingerprint {
        Some(f) => {
            let a = chars_of(f.as_str());
            let b = chars_of(fingerprint.as_str());
            chars_eq(a.as_slice(), b.as_slice())
        },
        None => false,
    };
    let status = if same {
        entry.no_change_count = entry.no_change_count + 1;
        ScanStatus::Unchanged
    } else {
        entry.last_changed_at = Some(now);
        entry.last_fingerprint = Some(fingerprint);
        entry.no_change_count = 0;
        ScanStatus::Fresh
    };
    entry.consecutive_not_found_count = 0;
    entry.deleted = false;
    status
}

/// Records a scan at `now` that did not find the target: the second miss in a
/// row marks it deleted.
pub fn record_not_found(entry: &mut ScanTargetState, now: i64) -> (r: ScanStatus)
    requires
        old(entry).consecutive_not_found_count < u32::MAX,
    ensures
        final(entry).last_checked_at == Some(now),
        final(entry).consecutive_not_found_count == old(entry).consecutive_not_found_count + 1,
        final(entry).deleted == (old(entry).deleted || final(entry).consecutive_not_found_count >= 2),
        r == (if final(entry).consecutive_not_found_count >= 2 {
            ScanStatus::Deleted
        } else {
            ScanStatus::Warning
        }),
        final(entry).provider == old(entry).provider,
        final(entry).target_url == old(entry).target_url,
        final(entry).last_changed_at == old(entry).last_changed_at,
        final(entry).last_fingerprint == old(entry).last_fingerprint,
        final(entry).no_change_count == old(entry).no_change_count,
        (r, final(entry)@) == spec_record_not_found(old(entry)@, now),
{
    entry.last_checked_at = Some(now);
    entry.consecutive_not_found_count = entry.consecutive_not_found_count + 1;
    if entry.consecutive_not_found_count >= 2 {
        entry.deleted = true;
        ScanStatus::Deleted
    } else {
        ScanStatus::Warning
    }
}

/// A scan's result wrapped with the target's state.
pub fn make_envelope<T>(
    entry: &ScanTargetState,
    status: ScanStatus,
    reason: Option<String>,
    warning: Option<String>,
    data: Option<T>,
) -> (r: ScanEnvelope<T>)
    ensures
        r.provider@ == entry.provider@,
        r.target_url@ == entry.target_url@,
        r.status == status,
        r.no_change_count == entry.no_change_count,
        r.consecutive_not_found_count == entry.consecutive_not_found_count,
        r.deleted == entry.deleted,
        r.last_checked_at == entry.last_checked_at,
        r.last_changed_at == entry.last_changed_at,
        r.reason == reason,
        r.warning == warning,
        r.data == data,
{
    ScanEnvelope {
        provider: entry.provider.clone(),
        target_url: entry.target_url.clone(),
        status,
        no_change_count: entry.no_change_count,
        consecutive_not_found_count: entry.consecutive_not_found_count,
        deleted: entry.deleted,
        last_checked_at: entry.last_checked_at,
        last_changed_at: entry.last_changed_at,
        reason,
        warning,
        data,
    }
}

/// The SHA-256 digest of some bytes.
pub uninterp spec fn sha256(bytes: Seq<u8>) -> Seq<u8>;

/// Hashes the bytes with `sha2::Sha256`. The contract names the digest and
/// says nothing more of it.
#[verifier::external_body]
fn sha256_digest(bytes: &[u8]) -> (r: Vec<u8>)
    ensures
        r@ == sha256(bytes@),
{
    <sha2::Sha256 as sha2::Digest>::digest(bytes).to_vec()
}

/// The lower-case hexadecimal digit of a value below 16.
pub open spec fn hex_digit(v: int) -> char {
    if v < 10 {
        (v + '0' as int) as char
    } else {
        (v - 10 + 'a' as int) as char
    }
}

/// Bytes in lower-case hexadecimal, two digits each (`{:02x}` per byte).
pub open spec fn hex(bytes: Seq<u8>) -> Seq<char>
    decreases bytes.len(),
{
    if bytes.len() == 0 {
        seq![]
    } else {
        hex(bytes.drop_last()) + seq![hex_digit((bytes.last() / 16) as int), hex_digit((bytes.last() % 16) as int)]
    }
}

fn hex_digit_char(v: u8) -> (c: char)
    requires
        v < 16,
    ensures
        c == hex_digit(v as int),
{
    if v < 10 {
        (v + 48) as char
    } else {
        (v - 10 + 97) as char
    }
}

/// Writes bytes in lower-case hexadecimal.
pub fn hex_string(bytes: &[u8]) -> (r: String)
    ensures
        r@ == hex(bytes@),
{
    let mut s = String::new();
    let mut i: usize = 0;
    while i < bytes.len()
        invariant
            i <= bytes.len(),
            s@ == hex(bytes@.take(i as int)),
        decreases bytes.len() - i,
    {
        proof {
            assert(bytes@.take(i + 1).drop_last() =~= bytes@.take(i as int));
            assert(bytes@.take(i + 1).last() == bytes@[i as int]);
        }
        let b = bytes[i];
        crate::text::push_char(&mut s, hex_digit_char(b / 16));
        crate::text::push_char(&mut s, hex_digit_char(b % 16));
        assert(s@ =~= hex(bytes@.take(i + 1)));
        i = i + 1;
    }
    assert(bytes@.take(bytes.len() as int) =~= bytes@);
    s
}

/// The fingerprint of serialized content: its SHA-256 digest in hexadecimal.
pub fn fingerprint_bytes(bytes: &[u8]) -> (r: String)
    ensures
        r@ == hex(sha256(bytes@)),
{
    let digest = sha256_digest(bytes);
    hex_string(digest.as_slice())
}

/// Whether an author is a bot or a removed account.
pub open spec fn spec_is_bot_like_author(author: Seq<char>) -> bool {
    let n = ascii_lowercase(trim(author));
    n == "automoderator"@ || n == "[deleted]"@ || n == "[removed]"@
}

/// Whether an author is a bot or a removed account, ignoring case and
/// surrounding whitespace.
pub fn is_bot_like_author(author: &str) -> (r: bool)
    ensures
        r == spec_is_bot_like_author(author@),
{
    let a = chars_of(author);
    let t = trim_chars(a.as_slice());
    let n = ascii_lowercase_chars(t.as_slice());
    chars_eq(n.as_slice(), chars_of("automoderator").as_slice()) || chars_eq(n.as_slice(), chars_of("[deleted]").as_slice())
        || chars_eq(n.as_slice(), chars_of("[removed]").as_slice())
}

/// The number of whitespace-separated words of `s` (`split_whitespace().count()`).
pub open spec fn word_count(s: Seq<char>) -> nat
    decreases s.len(),
{
    if s.len() == 0 {
        0
    } else {
        word_count(s.drop_last()) + if !is_ws(s.last()) && (s.len() == 1 || is_ws(s[s.len() - 2])) {
            1nat
        } else {
            0nat
        }
    }
}

/// A text without whitespace, and not empty, is one word.
pub proof fn lemma_word_count_one_word(s: Seq<char>)
    requires
        s.len() > 0,
        forall|i: int| 0 <= i < s.len() ==> !is_ws(#[trigger] s[i]),
    ensures
        word_count(s) == 1,
    decreases s.len(),
{
    if s.len() > 1 {
        assert forall|i: int| 0 <= i < s.drop_last().len() implies !is_ws(#[trigger] s.drop_last()[i]) by {
            assert(s.drop_last()[i] == s[i]);
        }
        lemma_word_count_one_word(s.drop_last());
        assert(!is_ws(s[s.len() - 2]));
    } else {
        assert(!is_ws(s[0]));
        assert(s.last() == s[0]);
        assert(word_count(s.drop_last()) == 0);
    }
}

/// A text of whitespace only has no word.
pub proof fn lemma_word_count_blank(s: Seq<char>)
    requires
        forall|i: int| 0 <= i < s.len() ==> is_ws(#[trigger] s[i]),
    ensures
        word_count(s) == 0,
    decreases s.len(),
{
    if s.len() > 0 {
        assert forall|i: int| 0 <= i < s.drop_last().len() implies is_ws(#[trigger] s.drop_last()[i]) by {
            assert(s.drop_last()[i] == s[i]);
        }
        lemma_word_count_blank(s.drop_last());
        assert(is_ws(s[s.len() - 1]));
    }
}

/// Two texts joined by a whitespace character have the words of both.
pub proof fn lemma_word_count_join(a: Seq<char>, c: char, b: Seq<char>)
    requires
        is_ws(c),
    ensures
        word_count(a + seq![c] + b) == word_count(a) + word_count(b),
    decreases b.len(),
{
    let s = a + seq![c] + b;
    if b.len() == 0 {
        assert(s =~= a.push(c));
        assert(s.drop_last() =~= a);
    } else {
        lemma_word_count_join(a, c, b.drop_last());
        assert(s.drop_last() =~= a + seq![c] + b.drop_last());
        assert(s.last() == b.last());
        if b.len() == 1 {
            assert(s[s.len() - 2] == c);
        } else {
            assert(s[s.len() - 2] == b[b.len() - 2]);
        }
    }
}

/// Whether content is too short to keep: under 20 characters and under five
/// words, once trimmed.
pub open spec fn spec_is_too_short(text: Seq<char>) -> bool {
    trim(text).len() < MIN_CONTENT_CHARS && word_count(trim(text)) < MIN_CONTENT_WORDS
}

fn count_words(s: &[char]) -> (r: usize)
    ensures
        r == word_count(s@),
{
    let mut count: usize = 0;
    let mut i: usize = 0;
    while i < s.len()
        invariant
            i <= s.len(),
            count == word_count(s@.take(i as int)),
            count <= i,
        decreases s.len() - i,
    {
        proof {
            assert(s@.take(i + 1).drop_last() =~= s@.take(i as int));
            assert(s@.take(i + 1).last() == s@[i as int]);
            if i > 0 {
                assert(s@.take(i + 1)[i - 1] == s@[i - 1]);
            }
        }
        if !is_whitespace(s[i]) && (i == 0 || is_whitespace(s[i - 1])) {
            count = count + 1;
        }
        i = i + 1;
    }
    assert(s@.take(s.len() as int) =~= s@);
    count
}

/// Whether content is too short to keep.
pub fn is_too_short(text: &str) -> (r: bool)
    ensures
        r == spec_is_too_short(text@),
{
    let v = chars_of(text);
    let t = trim_chars(v.as_slice());
    t.len() < MIN_CONTENT_CHARS && count_words(t.as_slice()) < MIN_CONTENT_WORDS
}

/// Whether content created at `created_at` is older than thirty days at `now`.
pub open spec fn spec_is_too_old(created_at: i64, now: i64) -> bool {
    now - created_at > CONTENT_MAX_AGE_DAYS * 86400
}

/// Whether content is too old to keep.
pub fn is_too_old(created_at: i64, now: i64) -> (r: bool)
    ensures
        r == spec_is_too_old(created_at, now),
{
    (now as i128 - created_at as i128) > (CONTENT_MAX_AGE_DAYS as i128) * 86400
}

/// A target that misses twice in a row, from a state with no misses, is
/// marked deleted: the first miss warns, the second deletes.
pub proof fn lemma_two_misses_delete(first: ScanTargetState, second: ScanTargetState, third: ScanTargetState, r1: ScanStatus, r2: ScanStatus)
    requires
        first.consecutive_not_found_count == 0,
        !first.deleted,
        second.consecutive_not_found_count == first.consecutive_not_found_count + 1,
        second.deleted == (first.deleted || second.consecutive_not_found_count >= 2),
        r1 == (if second.consecutive_not_found_count >= 2 { ScanStatus::Deleted } else { ScanStatus::Warning }),
        third.consecutive_not_found_count == second.consecutive_not_found_count + 1,
        third.deleted == (second.deleted || third.consecutive_not_found_count >= 2),
        r2 == (if third.consecutive_not_found_count >= 2 { ScanStatus::Deleted } else { ScanStatus::Warning }),
    ensures
        r1 == ScanStatus::Warning,
        !second.deleted,
        r2 == ScanStatus::Deleted,
        third.deleted,
{
}

/// Scanning the same content again finds it unchanged: the second of two
/// successful scans with one fingerprint answers `Unchanged` and counts one
/// more unchanged scan.
pub proof fn lemma_repeat_scan_unchanged(e: ScanTargetStateView, fingerprint: Seq<char>, first: i64, second: i64)
    requires
        e.no_change_count + 2 <= u32::MAX,
    ensures
        ({
            let (_, after_first) = spec_record_success(e, fingerprint, first);
            let (status, after_second) = spec_record_success(after_first, fingerprint, second);
            &&& status == ScanStatus::Unchanged
            &&& after_second.no_change_count == after_first.no_change_count + 1
            &&& after_second.last_changed_at == after_first.last_changed_at
            &&& after_second.last_checked_at == Some(second)
        }),
{
}

/// A scan never looks at a deleted target: it stops with `Deleted` and the
/// reason `deleted_target`.
pub proof fn lemma_deleted_target_stops(e: ScanTargetStateView, now: i64)
    requires
        e.deleted,
    ensures
        spec_scan_gate(e, now) == Some((ScanStatus::Deleted, "deleted_target"@)),
{
}

/// A deleted target is always skipped, with the reason `deleted_target`.
pub proof fn lemma_deleted_is_skipped(last_checked_at: Option<i64>, last_changed_at: Option<i64>, no_change_count: u32, now: i64)
    ensures
        spec_skip_reason(true, last_checked_at, last_changed_at, no_change_count, now) == Some("deleted_target"@),
{
}

/// A target never checked, and not deleted, is never skipped.
pub proof fn lemma_unchecked_is_scanned(last_changed_at: Option<i64>, no_change_count: u32, now: i64)
    ensures
        spec_skip_reason(false, None, last_changed_at, no_change_count, now) is None,
{
}

} // verus!
