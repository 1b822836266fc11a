//! The producer pipeline's decisions: validate a creation request against
//! the media-size ceiling, resolve the seed, and — once the store has
//! answered — either publish the queued task or report the failure.
//!
//! The persistence call itself is I/O and lives outside the library; its
//! result (the assigned identifier, or an error rendering) is handed in.

use vstd::prelude::*;
use vstd::string::StringExecFns;
use crate::broker::spec_pending_queue;
use crate::broker::pending_queue_name;
use crate::codec::{enc_queued, encode_task_in_queue};
use crate::schemas::{
    db_of_creation, queued_of_creation, CreationView, VideoStylizerTaskCreation,
};
use crate::textenc::{dec_nat, u64_to_string};

verus! {

/// The closed set of style presets a requester can pick from.
#[derive(Clone, Copy, Debug, PartialEq, Eq, Structural)]
pub enum StyleChoice {
    ChinesePainting,
    OilPainting,
    Cyberpunk,
    Cartoon3D,
    JapaneseAnimation,
    PaperArt,
    ClayLook,
}

/// The prompt token each style preset stands for.
pub open spec fn spec_style_token(s: StyleChoice) -> Seq<char> {
    match s {
        StyleChoice::ChinesePainting => "<chinese painting>"@,
        StyleChoice::OilPainting => "<oil painting>"@,
        StyleChoice::Cyberpunk => "<cyberpunk>"@,
        StyleChoice::Cartoon3D => "<3d cartoon>"@,
        StyleChoice::JapaneseAnimation => "<japanese animation>"@,
        StyleChoice::PaperArt => "<paper art>"@,
        StyleChoice::ClayLook => "<clay look>"@,
    }
}

pub fn style_token(s: &StyleChoice) -> (r: String)
    ensures
        r@ == spec_style_token(*s),
{
    match s {
        StyleChoice::ChinesePainting => "<chinese painting>".to_owned(),
        StyleChoice::OilPainting => "<oil painting>".to_owned(),
        StyleChoice::Cyberpunk => "<cyberpunk>".to_owned(),
        StyleChoice::Cartoon3D => "<3d cartoon>".to_owned(),
        StyleChoice::JapaneseAnimation => "<japanese animation>".to_owned(),
        StyleChoice::PaperArt => "<paper art>".to_owned(),
        StyleChoice::ClayLook => "<clay look>".to_owned(),
    }
}

/// Relies on `rand::random`: draws a value of the requested type; nothing is
/// assumed about which value comes back.
pub assume_specification<T>[ rand::random::<T> ]() -> (r: T)
    where rand::distributions::Standard: rand::distributions::Distribution<T>
;

/// A requester-supplied seed is kept; an omitted seed is drawn at random
/// from the 16-bit range.
pub fn resolve_seed(seed: Option<u64>) -> (r: u64)
    ensures
        seed matches Some(s) ==> r == s,
        seed is None ==> r < 65536,
{
    match seed {
        Some(s) => s,
        None => rand::random::<u16>() as u64,
    }
}

/// The rejection text for oversized media, naming the ceiling in megabytes.
pub open spec fn size_error_text(size_limit: u64) -> Seq<char> {
    "> File size too large. Max file size is **"@ + dec_nat((size_limit / 1048576) as nat)
        + "MB**."@
}

/// The acknowledgement sent back once a task is created.
pub open spec fn ack_text(id: Seq<char>) -> Seq<char> {
    "> We are working on your video. We will notify you when it is ready. Task ID: **"@ + id
        + ".**"@
}

/// The reply sent when the store refused to persist the record.
pub open spec fn persist_error_text(e: Seq<char>) -> Seq<char> {
    "> Failed to create video stylization task. Error: "@ + e
}

/// Validate a creation request and assemble the creation form.
///
/// Rejected exactly when the media exceeds the configured ceiling; nothing
/// is persisted or published for a rejected request. On success every field
/// is carried into the creation form, the style resolved to its prompt
/// token and the seed resolved to a concrete value.
pub fn build_creation(
    user_id: u64,
    channel_id: u64,
    src_video_url: String,
    video_size: u64,
    size_limit: u64,
    style: &StyleChoice,
    video_prompt: Option<String>,
    negative_prompt: Option<String>,
    max_keyframes: Option<u64>,
    seed: Option<u64>,
) -> (r: Result<VideoStylizerTaskCreation, String>)
    requires
        max_keyframes matches Some(k) ==> k >= 2,
    ensures
        r is Ok <==> video_size <= size_limit,
        r matches Ok(t) ==> {
            &&& t@.user_id == user_id
            &&& t@.channel_id == channel_id
            &&& t@.src_video_url == src_video_url@
            &&& t@.video_prompt == video_prompt.deep_view()
            &&& t@.style_prompt == spec_style_token(*style)
            &&& t@.negative_prompt == negative_prompt.deep_view()
            &&& t@.max_keyframes == max_keyframes
            &&& (seed matches Some(s) ==> t@.seed == s)
            &&& (seed is None ==> t@.seed < 65536)
        },
        r matches Err(m) ==> m@ == size_error_text(size_limit),
{
    if video_size > size_limit {
        let mb = u64_to_string(size_limit / (1024 * 1024));
        let msg = "> File size too large. Max file size is **".to_owned().concat(
            mb.as_str(),
        ).concat("MB**.");
        return Err(msg);
    }
    let resolved = resolve_seed(seed);
    Ok(
        VideoStylizerTaskCreation {
            user_id,
            channel_id,
            src_video_url,
            video_prompt,
            style_prompt: style_token(style),
            negative_prompt,
            max_keyframes,
            seed: resolved,
        },
    )
}

/// What the producer does after the persistence attempt.
pub enum ProducerFollowUp {
    /// The record is persisted: acknowledge the requester and publish the
    /// queued task on the pending queue.
    Publish { queue: String, payload: String, reply: String },
    /// Persistence failed: report it, publish nothing — a message without a
    /// durable backing record would be an orphaned task.
    ReportFailure { reply: String },
}

/// Turn the store's answer into the producer's follow-up actions.
///
/// On a persisted identifier: the acknowledgement names the identifier and
/// the published payload is exactly the wire form of the queued task built
/// from this creation form and that identifier. On a persistence error:
/// only a failure reply, no publish.
pub fn plan_after_persist(task: VideoStylizerTaskCreation, persist: Result<String, String>) -> (r:
    ProducerFollowUp)
    ensures
        persist matches Ok(id) ==> r matches ProducerFollowUp::Publish { queue, payload, reply }
            && queue@ == spec_pending_queue() && payload@ == enc_queued(
            queued_of_creation(task@, id@),
        ) && reply@ == ack_text(id@),
        persist matches Err(e) ==> r matches ProducerFollowUp::ReportFailure { reply } && reply@
            == persist_error_text(e@),
{
    match persist {
        Ok(id) => {
            let reply =
                "> We are working on your video. We will notify you when it is ready. Task ID: **".to_owned().concat(
                id.as_str(),
            ).concat(".**");
            let queued = task.with_task_id(id);
            let payload = encode_task_in_queue(&queued);
            ProducerFollowUp::Publish { queue: pending_queue_name(), payload, reply }
        },
        Err(e) => {
            let reply = "> Failed to create video stylization task. Error: ".to_owned().concat(
                e.as_str(),
            );
            ProducerFollowUp::ReportFailure { reply }
        },
    }
}

/// Creating a task preserves every creation field into both downstream
/// projections: the persisted record starts `Pending` with no result and
/// both timestamps at creation time, and the queued form carries the
/// assigned identifier, the same fields — the seed among them — status
/// `Pending` and no result.
pub proof fn lemma_producer_creates_pending(c: CreationView, id: Seq<char>, now: i64)
    ensures
        db_of_creation(c, now).status is Pending,
        db_of_creation(c, now).result is None,
        db_of_creation(c, now).user_id == c.user_id,
        db_of_creation(c, now).channel_id == c.channel_id,
        db_of_creation(c, now).src_video_url == c.src_video_url,
        db_of_creation(c, now).video_prompt == c.video_prompt,
        db_of_creation(c, now).style_prompt == c.style_prompt,
        db_of_creation(c, now).negative_prompt == c.negative_prompt,
        db_of_creation(c, now).max_keyframes == c.max_keyframes,
        db_of_creation(c, now).seed == c.seed,
        db_of_creation(c, now).created_at == now && db_of_creation(c, now).updated_at == now,
        queued_of_creation(c, id).task_id == id,
        queued_of_creation(c, id).status is Pending,
        queued_of_creation(c, id).result is None,
        queued_of_creation(c, id).user_id == c.user_id,
        queued_of_creation(c, id).channel_id == c.channel_id,
        queued_of_creation(c, id).src_video_url == c.src_video_url,
        queued_of_creation(c, id).video_prompt == c.video_prompt,
        queued_of_creation(c, id).style_prompt == c.style_prompt,
        queued_of_creation(c, id).negative_prompt == c.negative_prompt,
        queued_of_creation(c, id).max_keyframes == c.max_keyframes,
        queued_of_creation(c, id).seed == c.seed,
{
}

} // verus!
