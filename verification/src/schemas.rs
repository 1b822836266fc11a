//! The task data model: one logical record in three projections (creation,
//! queued, persisted), the closed status enumeration, and the lifecycle
//! transitions between the projections.

use vstd::prelude::*;

verus! {

/// Closed set of task states. A task starts `Pending`; the worker reports a
/// terminal `Completed` or `Failed`; no other transition exists.
#[derive(Clone, Copy, Debug, PartialEq, Eq, Structural)]
pub enum TaskStatus {
    Pending,
    Completed,
    Failed,
}

impl TaskStatus {
    /// A status is terminal when no later transition may change it.
    pub open spec fn spec_is_terminal(self) -> bool {
        self is Completed || self is Failed
    }

    pub fn is_terminal(&self) -> (r: bool)
        ensures
            r == self.spec_is_terminal(),
    {
        match self {
            TaskStatus::Pending => false,
            TaskStatus::Completed => true,
            TaskStatus::Failed => true,
        }
    }
}

/// Mathematical image of a creation request: what the requester asked for,
/// with the seed already resolved to a concrete value.
pub ghost struct CreationView {
    pub user_id: u64,
    pub channel_id: u64,
    pub src_video_url: Seq<char>,
    pub video_prompt: Option<Seq<char>>,
    pub style_prompt: Seq<char>,
    pub negative_prompt: Option<Seq<char>>,
    pub max_keyframes: Option<u64>,
    pub seed: u64,
}

/// Mathematical image of a queued task: the creation fields plus the
/// store-assigned identifier, the status and the optional result.
pub ghost struct QueuedView {
    pub task_id: Seq<char>,
    pub user_id: u64,
    pub channel_id: u64,
    pub src_video_url: Seq<char>,
    pub video_prompt: Option<Seq<char>>,
    pub style_prompt: Seq<char>,
    pub negative_prompt: Option<Seq<char>>,
    pub max_keyframes: Option<u64>,
    pub seed: u64,
    pub status: TaskStatus,
    pub result: Option<Seq<char>>,
}

/// Mathematical image of the persisted record: the queued fields minus the
/// identifier (the store's own key) plus the two timestamps, in milliseconds.
pub ghost struct DbView {
    pub user_id: u64,
    pub channel_id: u64,
    pub src_video_url: Seq<char>,
    pub video_prompt: Option<Seq<char>>,
    pub style_prompt: Seq<char>,
    pub negative_prompt: Option<Seq<char>>,
    pub max_keyframes: Option<u64>,
    pub seed: u64,
    pub status: TaskStatus,
    pub result: Option<Seq<char>>,
    pub created_at: i64,
    pub updated_at: i64,
}

/// A stylization request as it leaves the requester, before an identifier is
/// assigned. `max_keyframes`, when present, is at least 2; the seed is already
/// a concrete value.
#[derive(Debug, Clone)]
pub struct VideoStylizerTaskCreation {
    pub user_id: u64,
    pub channel_id: u64,
    pub src_video_url: String,
    pub video_prompt: Option<String>,
    pub style_prompt: String,
    pub negative_prompt: Option<String>,
    pub max_keyframes: Option<u64>,
    pub seed: u64,
}

impl View for VideoStylizerTaskCreation {
    type V = CreationView;

    open spec fn view(&self) -> CreationView {
        CreationView {
            user_id: self.user_id,
            channel_id: self.channel_id,
            src_video_url: self.src_video_url@,
            video_prompt: self.video_prompt.deep_view(),
            style_prompt: self.style_prompt@,
            negative_prompt: self.negative_prompt.deep_view(),
            max_keyframes: self.max_keyframes,
            seed: self.seed,
        }
    }
}

/// A task as carried on the two queues: the creation fields plus identifier,
/// status and optional result.
#[derive(Debug, Clone)]
pub struct VideoStylizerTaskInQueue {
    pub task_id: String,
    pub user_id: u64,
    pub channel_id: u64,
    pub src_video_url: String,
    pub video_prompt: Option<String>,
    pub style_prompt: String,
    pub negative_prompt: Option<String>,
    pub max_keyframes: Option<u64>,
    pub seed: u64,
    pub status: TaskStatus,
    pub result: Option<String>,
}

impl View for VideoStylizerTaskInQueue {
    type V = QueuedView;

    open spec fn view(&self) -> QueuedView {
        QueuedView {
            task_id: self.task_id@,
            user_id: self.user_id,
            channel_id: self.channel_id,
            src_video_url: self.src_video_url@,
            video_prompt: self.video_prompt.deep_view(),
            style_prompt: self.style_prompt@,
            negative_prompt: self.negative_prompt.deep_view(),
            max_keyframes: self.max_keyframes,
            seed: self.seed,
            status: self.status,
            result: self.result.deep_view(),
        }
    }
}

/// A task as persisted: queued fields minus the identifier, plus creation and
/// last-update timestamps in milliseconds since the epoch.
#[derive(Debug, Clone)]
pub struct VideoStylizerTaskInDB {
    pub user_id: u64,
    pub channel_id: u64,
    pub src_video_url: String,
    pub video_prompt: Option<String>,
    pub style_prompt: String,
    pub negative_prompt: Option<String>,
    pub max_keyframes: Option<u64>,
    pub seed: u64,
    pub status: TaskStatus,
    pub result: Option<String>,
    pub created_at: i64,
    pub updated_at: i64,
}

impl View for VideoStylizerTaskInDB {
    type V = DbView;

    open spec fn view(&self) -> DbView {
        DbView {
            user_id: self.user_id,
            channel_id: self.channel_id,
            src_video_url: self.src_video_url@,
            video_prompt: self.video_prompt.deep_view(),
            style_prompt: self.style_prompt@,
            negative_prompt: self.negative_prompt.deep_view(),
            max_keyframes: self.max_keyframes,
            seed: self.seed,
            status: self.status,
            result: self.result.deep_view(),
            created_at: self.created_at,
            updated_at: self.updated_at,
        }
    }
}

/// A record is well formed when the result is populated exactly on the
/// terminal statuses.
pub open spec fn queued_wf(v: QueuedView) -> bool {
    v.result is Some <==> v.status.spec_is_terminal()
}

/// Same well-formedness for the persisted projection.
pub open spec fn db_wf(v: DbView) -> bool {
    v.result is Some <==> v.status.spec_is_terminal()
}

/// The queued projection a creation request takes once the store has assigned
/// it the identifier `id`: same fields, status `Pending`, no result.
pub open spec fn queued_of_creation(c: CreationView, id: Seq<char>) -> QueuedView {
    QueuedView {
        task_id: id,
        user_id: c.user_id,
        channel_id: c.channel_id,
        src_video_url: c.src_video_url,
        video_prompt: c.video_prompt,
        style_prompt: c.style_prompt,
        negative_prompt: c.negative_prompt,
        max_keyframes: c.max_keyframes,
        seed: c.seed,
        status: TaskStatus::Pending,
        result: None,
    }
}

/// The persisted projection of a fresh creation request at time `now`: same
/// fields, status `Pending`, no result, both timestamps `now`.
pub open spec fn db_of_creation(c: CreationView, now: i64) -> DbView {
    DbView {
        user_id: c.user_id,
        channel_id: c.channel_id,
        src_video_url: c.src_video_url,
        video_prompt: c.video_prompt,
        style_prompt: c.style_prompt,
        negative_prompt: c.negative_prompt,
        max_keyframes: c.max_keyframes,
        seed: c.seed,
        status: TaskStatus::Pending,
        result: None,
        created_at: now,
        updated_at: now,
    }
}

/// The queued task after a worker recorded the terminal `status` with detail
/// `result`: only those two fields change.
pub open spec fn queued_with_result(v: QueuedView, status: TaskStatus, result: Seq<char>) -> QueuedView {
    QueuedView { status, result: Some(result), ..v }
}

impl VideoStylizerTaskCreation {
    /// Attach the store-assigned identifier, producing the queued projection:
    /// every creation field carried unchanged, status `Pending`, no result.
    pub fn with_task_id(self, task_id: String) -> (r: VideoStylizerTaskInQueue)
        ensures
            r@ == queued_of_creation(self@, task_id@),
            queued_wf(r@),
    {
        VideoStylizerTaskInQueue {
            task_id,
            user_id: self.user_id,
            channel_id: self.channel_id,
            src_video_url: self.src_video_url,
            video_prompt: self.video_prompt,
            style_prompt: self.style_prompt,
            negative_prompt: self.negative_prompt,
            max_keyframes: self.max_keyframes,
            seed: self.seed,
            status: TaskStatus::Pending,
            result: None,
        }
    }

    /// The persisted projection of this request at time `now`: every field
    /// carried unchanged, status `Pending`, no result, both timestamps `now`.
    pub fn into_db(self, now: i64) -> (r: VideoStylizerTaskInDB)
        ensures
            r@ == db_of_creation(self@, now),
            db_wf(r@),
    {
        VideoStylizerTaskInDB {
            user_id: self.user_id,
            channel_id: self.channel_id,
            src_video_url: self.src_video_url,
            video_prompt: self.video_prompt,
            style_prompt: self.style_prompt,
            negative_prompt: self.negative_prompt,
            max_keyframes: self.max_keyframes,
            seed: self.seed,
            status: TaskStatus::Pending,
            result: None,
            created_at: now,
            updated_at: now,
        }
    }
}

impl VideoStylizerTaskInQueue {
    /// Record a terminal outcome: status and result change, every other field
    /// — the identifier and the seed among them — is carried unchanged.
    pub fn with_result(self, status: TaskStatus, result: String) -> (r: VideoStylizerTaskInQueue)
        requires
            status.spec_is_terminal(),
        ensures
            r@ == queued_with_result(self@, status, result@),
            queued_wf(r@),
    {
        VideoStylizerTaskInQueue { status, result: Some(result), ..self }
    }
}

/// The persisted projection of a queued task: the identifier drops away
/// (the store keys the record itself), everything else is carried.
pub open spec fn db_of_queued(q: QueuedView, now: i64) -> DbView {
    DbView {
        user_id: q.user_id,
        channel_id: q.channel_id,
        src_video_url: q.src_video_url,
        video_prompt: q.video_prompt,
        style_prompt: q.style_prompt,
        negative_prompt: q.negative_prompt,
        max_keyframes: q.max_keyframes,
        seed: q.seed,
        status: q.status,
        result: q.result,
        created_at: now,
        updated_at: now,
    }
}

impl VideoStylizerTaskInQueue {
    /// The persisted projection of this queued task at time `now`: status
    /// and result carried as they stand, the identifier left to the store.
    pub fn into_db(self, now: i64) -> (r: VideoStylizerTaskInDB)
        ensures
            r@ == db_of_queued(self@, now),
            queued_wf(self@) ==> db_wf(r@),
    {
        VideoStylizerTaskInDB {
            user_id: self.user_id,
            channel_id: self.channel_id,
            src_video_url: self.src_video_url,
            video_prompt: self.video_prompt,
            style_prompt: self.style_prompt,
            negative_prompt: self.negative_prompt,
            max_keyframes: self.max_keyframes,
            seed: self.seed,
            status: self.status,
            result: self.result,
            created_at: now,
            updated_at: now,
        }
    }
}

} // verus!
