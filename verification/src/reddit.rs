//! Reddit comments, and which of them a scan keeps.
use chrono::TimeZone;
use vstd::prelude::*;

use crate::scan_state::{
    is_bot_like_author, is_too_old, is_too_short, record_not_found, spec_is_bot_like_author, spec_is_too_old,
    spec_is_too_short, ScanStatus, ScanTargetState,
};

verus! {

/// A top-level comment of a Reddit post.
#[derive(Debug, Clone, PartialEq, Eq)]
pub struct RedditComment {
    pub id: String,
    pub author: String,
    pub body: String,
    pub score: i64,
    pub created_utc: i64,
    pub permalink: String,
}

/// Whether `chrono` can represent the UTC time `secs` seconds after the
/// epoch: the seconds `DateTime::from_timestamp` accepts, from the start of
/// the first day `NaiveDate::from_num_days_from_ce_opt` gives in year 262144
/// BCE to the last second of December 31, 262142 CE.
pub open spec fn utc_timestamp_representable(secs: i64) -> bool {
    -8334601228800 <= secs <= 8210266876799
}

/// Calls `Utc.timestamp_opt(secs, 0).single()` and tells whether it gave a
/// time: `DateTime::from_timestamp` gives one exactly when the day falls in
/// the years `NaiveDate` holds (nanoseconds 0 are always valid), which the
/// contract states as the interval of seconds.
#[verifier::external_body]
fn utc_timestamp_valid(secs: i64) -> (r: bool)
    ensures
        r == utc_timestamp_representable(secs),
{
    chrono::Utc.timestamp_opt(secs, 0).single().is_some()
}

/// Whether a comment is kept: not by a bot or a removed account, not too
/// short, and not older than thirty days when its time can be represented.
pub open spec fn spec_keep_comment(comment: RedditComment, now: i64) -> bool {
    &&& !spec_is_bot_like_author(comment.author@)
    &&& !spec_is_too_short(comment.body@)
    &&& (utc_timestamp_representable(comment.created_utc) ==> !spec_is_too_old(comment.created_utc, now))
}

/// The comments that are kept, in order.
pub open spec fn kept_comments(comments: Seq<RedditComment>, now: i64) -> Seq<RedditComment>
    decreases comments.len(),
{
    if comments.len() == 0 {
        Seq::empty()
    } else {
        let r = kept_comments(comments.drop_last(), now);
        if spec_keep_comment(comments.last(), now) {
            r.push(comments.last())
        } else {
            r
        }
    }
}

/// Every comment kept passes the filters, and none is added.
pub proof fn lemma_kept_comments_pass(comments: Seq<RedditComment>, now: i64)
    ensures
        kept_comments(comments, now).len() <= comments.len(),
        forall|i: int|
            0 <= i < kept_comments(comments, now).len() ==> spec_keep_comment(#[trigger] kept_comments(comments, now)[i], now),
    decreases comments.len(),
{
    if comments.len() > 0 {
        lemma_kept_comments_pass(comments.drop_last(), now);
        let r = kept_comments(comments.drop_last(), now);
        let all = kept_comments(comments, now);
        assert forall|i: int| 0 <= i < all.len() implies spec_keep_comment(#[trigger] all[i], now) by {
            if i < r.len() {
                assert(all[i] == r[i]);
            }
        }
    }
}

fn keep_comment(comment: &RedditComment, now: i64) -> (r: bool)
    ensures
        r == spec_keep_comment(*comment, now),
{
    if is_bot_like_author(comment.author.as_str()) || is_too_short(comment.body.as_str()) {
        return false;
    }
    if utc_timestamp_valid(comment.created_utc) {
        !is_too_old(comment.created_utc, now)
    } else {
        true
    }
}

/// The comments worth keeping, in order, at the time `now` (seconds since
/// the epoch).
pub fn filter_comments(comments: Vec<RedditComment>, now: i64) -> (r: Vec<RedditComment>)
    ensures
        r@ == kept_comments(comments@, now),
{
    let mut out: Vec<RedditComment> = Vec::new();
    let mut rest = comments;
    let ghost all = comments@;
    let ghost mut done: int = 0;
    while rest.len() > 0
        invariant
            0 <= done <= all.len(),
            rest@ == all.skip(done),
            out@ == kept_comments(all.take(done), now),
        decreases rest.len(),
    {
        let comment = rest.remove(0);
        proof {
            assert(comment == all[done]);
            assert(all.take(done + 1).drop_last() =~= all.take(done));
            assert(all.take(done + 1).last() == all[done]);
            assert(rest@ =~= all.skip(done + 1));
            done = done + 1;
        }
        if keep_comment(&comment, now) {
            out.push(comment);
        }
    }
    assert(all.take(done) =~= all);
    out
}

/// Why a post the site no longer has was reported so: confirmed deleted
/// after a second miss in a row, or a first strike.
pub open spec fn spec_not_found_reason(status: ScanStatus) -> Option<Seq<char>> {
    match status {
        ScanStatus::Deleted => Some("target_confirmed_deleted"@),
        ScanStatus::Warning => Some("target_missing_first_strike"@),
        _ => None,
    }
}

/// The reason reported with a not-found status.
pub fn not_found_reason(status: ScanStatus) -> (r: Option<String>)
    ensures
        match r {
            Some(t) => spec_not_found_reason(status) == Some(t@),
            None => spec_not_found_reason(status) is None,
        },
{
    match status {
        ScanStatus::Deleted => Some(String::from_str("target_confirmed_deleted")),
        ScanStatus::Warning => Some(String::from_str("target_missing_first_strike")),
        _ => None,
    }
}

/// Records that the post was not found at `now` and gives the status with
/// its reason: a first strike, or confirmed deleted on the second miss in a
/// row.
pub fn post_not_found(entry: &mut ScanTargetState, now: i64) -> (r: (ScanStatus, Option<String>))
    requires
        old(entry).consecutive_not_found_count < u32::MAX,
    ensures
        final(entry).last_checked_at == Some(now),
        final(entry).consecutive_not_found_count == old(entry).consecutive_not_found_count + 1,
        final(entry).deleted == (old(entry).deleted || final(entry).consecutive_not_found_count >= 2),
        r.0 == (if final(entry).consecutive_not_found_count >= 2 {
            ScanStatus::Deleted
        } else {
            ScanStatus::Warning
        }),
        r.1 matches Some(t) && spec_not_found_reason(r.0) == Some(t@),
{
    let status = record_not_found(entry, now);
    let reason = not_found_reason(status);
    (status, reason)
}

} // verus!
