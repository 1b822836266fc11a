//! The reconciler's decisions: fold a completed-queue message into the
//! persisted record — never overwriting a terminal status — and compose the
//! user notification.
//!
//! Reading the record, writing it back, checking that the artifact file
//! exists and delivering the notification are I/O and live outside the
//! library; their results are handed in.

use vstd::prelude::*;
use vstd::string::{StrSliceExecFns, StringExecFns};
use crate::schemas::{db_wf, DbView, QueuedView, TaskStatus, VideoStylizerTaskInDB, VideoStylizerTaskInQueue};
use crate::textenc::{dec_nat, enc_str, escape_string, u64_to_string};

verus! {

// ---------------------------------------------------------------------------
// The persisted-record update
// ---------------------------------------------------------------------------

/// The record after an unconditional terminal write: status, result and the
/// update timestamp change, nothing else.
pub open spec fn spec_apply_update(db: DbView, st: TaskStatus, res: Seq<char>, now: i64) -> DbView {
    DbView { status: st, result: Some(res), updated_at: now, ..db }
}

/// The record after reconciling one message: a pending record takes the
/// terminal write; a record already terminal is left untouched —
/// reprocessing a finished task is a protocol violation, logged, not
/// applied.
pub open spec fn spec_reconcile(db: DbView, st: TaskStatus, res: Seq<char>, now: i64) -> DbView {
    if db.status is Pending {
        spec_apply_update(db, st, res, now)
    } else {
        db
    }
}

/// Fold one completed-queue message into the persisted record.
///
/// Returns whether the write was applied: exactly when the record was still
/// pending. Duplicate redeliveries are harmless — the second application
/// changes nothing — and a terminal status is never overwritten.
pub fn apply_status_update(
    record: &mut VideoStylizerTaskInDB,
    status: TaskStatus,
    result: String,
    now: i64,
) -> (applied: bool)
    requires
        status.spec_is_terminal(),
    ensures
        final(record)@ == spec_reconcile(old(record)@, status, result@, now),
        applied <==> old(record)@.status is Pending,
        db_wf(old(record)@) ==> db_wf(final(record)@),
{
    match record.status {
        TaskStatus::Pending => {
            record.status = status;
            record.result = Some(result);
            record.updated_at = now;
            true
        },
        _ => false,
    }
}

/// A terminal status, once recorded, is never overwritten: after a pending
/// record takes a terminal write, any further reconcile — even with a
/// different terminal status — leaves the record exactly as it was.
pub proof fn lemma_terminal_status_immutable(
    db: DbView,
    s1: TaskStatus,
    r1: Seq<char>,
    n1: i64,
    s2: TaskStatus,
    r2: Seq<char>,
    n2: i64,
)
    requires
        db.status is Pending,
        s1.spec_is_terminal(),
        s2.spec_is_terminal(),
    ensures
        spec_reconcile(db, s1, r1, n1).status == s1,
        spec_reconcile(db, s1, r1, n1).result == Some(r1),
        spec_reconcile(spec_reconcile(db, s1, r1, n1), s2, r2, n2) == spec_reconcile(
            db,
            s1,
            r1,
            n1,
        ),
{
}

// ---------------------------------------------------------------------------
// Notification composition
// ---------------------------------------------------------------------------

/// The success notification: mention, task kind and identifier, then the
/// prompt fields that are present, then the seed, one line each.
pub open spec fn success_text(t: QueuedView) -> Seq<char> {
    "New generation from <@"@ + dec_nat(t.user_id as nat)
        + ">:\nTask: **Video Stylization**\nTask ID: "@ + t.task_id + (match t.video_prompt {
        Option::Some(v) => "\nVideo Prompt: "@ + v,
        Option::None => Seq::empty(),
    }) + "\nStyle Prompt: "@ + t.style_prompt + (match t.negative_prompt {
        Option::Some(v) => "\nNegative Prompt: "@ + v,
        Option::None => Seq::empty(),
    }) + (match t.max_keyframes {
        Option::Some(k) => "\nMax Keyframes: "@ + dec_nat(k as nat),
        Option::None => Seq::empty(),
    }) + "\nSeed: "@ + dec_nat(t.seed as nat)
}

/// The failure notification: mention and the quoted error detail.
pub open spec fn failure_text(user_id: u64, e: Seq<char>) -> Seq<char> {
    "> Failed to stylize your video. <@"@ + dec_nat(user_id as nat) + "> Error: "@ + enc_str(e)
}

/// Compose the success notification for a completed task.
pub fn compose_success_notification(t: &VideoStylizerTaskInQueue) -> (r: String)
    ensures
        r@ == success_text(t@),
{
    let mut out: String = "New generation from <@".to_owned();
    out.append(u64_to_string(t.user_id).as_str());
    out.append(">:\nTask: **Video Stylization**\nTask ID: ");
    out.append(t.task_id.as_str());
    match &t.video_prompt {
        Some(v) => {
            out.append("\nVideo Prompt: ");
            out.append(v.as_str());
        },
        None => {},
    }
    out.append("\nStyle Prompt: ");
    out.append(t.style_prompt.as_str());
    match &t.negative_prompt {
        Some(v) => {
            out.append("\nNegative Prompt: ");
            out.append(v.as_str());
        },
        None => {},
    }
    match t.max_keyframes {
        Some(k) => {
            out.append("\nMax Keyframes: ");
            out.append(u64_to_string(k).as_str());
        },
        None => {},
    }
    out.append("\nSeed: ");
    out.append(u64_to_string(t.seed).as_str());
    out
}

/// Compose the failure notification.
pub fn compose_failure_notification(user_id: u64, error: &str) -> (r: String)
    ensures
        r@ == failure_text(user_id, error@),
{
    let mut out: String = "> Failed to stylize your video. <@".to_owned();
    out.append(u64_to_string(user_id).as_str());
    out.append("> Error: ");
    out.append(escape_string(error).as_str());
    out
}

// ---------------------------------------------------------------------------
// The artifact filename
// ---------------------------------------------------------------------------

/// What stands after the last `/` of a path; the whole path when it has no
/// `/`.
pub open spec fn basename_of(s: Seq<char>) -> Seq<char>
    decreases s.len(),
{
    if s.len() == 0 {
        s
    } else if s.last() == '/' {
        Seq::empty()
    } else {
        basename_of(s.drop_last()).push(s.last())
    }
}

/// The filename under which the artifact is attached to the notification.
pub fn artifact_filename(path: &str) -> (r: String)
    ensures
        r@ == basename_of(path@),
{
    let n = path.unicode_len();
    let mut start: usize = n;
    loop
        invariant
            0 <= start <= n,
            n == path@.len(),
            forall|q: int| start <= q < n ==> path@[q] != '/',
        ensures
            0 <= start <= n,
            forall|q: int| start <= q < n ==> path@[q] != '/',
            start == 0 || path@[start - 1] == '/',
        decreases start,
    {
        if start == 0 {
            break ;
        }
        if path.get_char(start - 1) == '/' {
            break ;
        }
        start = start - 1;
    }
    proof {
        lemma_basename_tail(path@, start as int);
    }
    let tail = path.substring_char(start, n);
    tail.to_owned()
}

/// Past the last slash, the basename is exactly the remaining suffix.
proof fn lemma_basename_tail(s: Seq<char>, start: int)
    requires
        0 <= start <= s.len(),
        forall|q: int| start <= q < s.len() ==> s[q] != '/',
        start == 0 || s[start - 1] == '/',
    ensures
        basename_of(s) == s.subrange(start, s.len() as int),
    decreases s.len() - start,
{
    if start == s.len() {
        if s.len() == 0 {
            assert(s.subrange(0, 0) =~= s);
        } else {
            assert(s.last() == '/');
            assert(s.subrange(start, s.len() as int) =~= Seq::<char>::empty());
        }
    } else {
        assert(s.last() != '/');
        let b = s.drop_last();
        lemma_basename_tail(b, start);
        assert(basename_of(s) == basename_of(b).push(s.last()));
        assert(b.subrange(start, b.len() as int).push(s.last()) =~= s.subrange(
            start,
            s.len() as int,
        ));
    }
}

// ---------------------------------------------------------------------------
// The notification decision
// ---------------------------------------------------------------------------

/// What the reconciler does about notifying, before any I/O.
pub enum NotificationPlan {
    /// The task completed with an artifact: check that the artifact is
    /// retrievable before composing the notification.
    VerifyArtifact { path: String },
    /// The task failed: send the failure text to the task's channel.
    NotifyFailure { channel_id: u64, message: String },
    /// Nothing to send: a non-terminal status on the completed queue, or a
    /// terminal record without its detail — a protocol violation, logged
    /// and dropped without halting the loop.
    Skip,
}

/// Decide the notification for one reconciled task.
pub fn plan_notification(t: &VideoStylizerTaskInQueue) -> (r: NotificationPlan)
    ensures
        t@.status is Completed ==> (t@.result matches Some(p) ==> (r
            matches NotificationPlan::VerifyArtifact { path } && path@ == p)),
        t@.status is Failed ==> (t@.result matches Some(e) ==> (r
            matches NotificationPlan::NotifyFailure { channel_id, message } && channel_id
            == t@.channel_id && message@ == failure_text(t@.user_id, e))),
        t@.status is Pending || t@.result is None ==> r is Skip,
{
    match t.status {
        TaskStatus::Completed => {
            match &t.result {
                Some(p) => NotificationPlan::VerifyArtifact { path: p.clone() },
                None => NotificationPlan::Skip,
            }
        },
        TaskStatus::Failed => {
            match &t.result {
                Some(e) => {
                    let message = compose_failure_notification(t.user_id, e.as_str());
                    NotificationPlan::NotifyFailure { channel_id: t.channel_id, message }
                },
                None => NotificationPlan::Skip,
            }
        },
        TaskStatus::Pending => NotificationPlan::Skip,
    }
}

/// The success notification, once the artifact check came back.
pub enum ArtifactFollowUp {
    /// The artifact is retrievable: attach it under its filename and send
    /// the composed text to the task's channel.
    Send { channel_id: u64, filename: String, message: String },
    /// The artifact is missing: log and skip — one missing artifact must
    /// not halt the reconciler.
    Skip,
}

/// Decide the follow-up after the artifact check for a completed task.
pub fn after_artifact_check(t: &VideoStylizerTaskInQueue, path: &str, artifact_exists: bool) -> (r:
    ArtifactFollowUp)
    ensures
        artifact_exists ==> (r matches ArtifactFollowUp::Send { channel_id, filename, message }
            && channel_id == t@.channel_id && filename@ == basename_of(path@) && message@
            == success_text(t@)),
        !artifact_exists ==> r is Skip,
{
    if artifact_exists {
        ArtifactFollowUp::Send {
            channel_id: t.channel_id,
            filename: artifact_filename(path),
            message: compose_success_notification(t),
        }
    } else {
        ArtifactFollowUp::Skip
    }
}

} // verus!
