//! The worker pipeline's decisions: turn a pending-queue message into a
//! backend request, and turn the backend's outcome into the completion
//! message and the acknowledgement action.
//!
//! The HTTP call itself is I/O and lives outside the library; what came
//! back (a reply body, or a transport failure) is handed in.

use vstd::prelude::*;
use vstd::string::StringExecFns;
use crate::broker::{completed_queue_name, spec_completed_queue};
use crate::codec::{enc_queued, encode_task_in_queue};
use crate::schemas::{queued_with_result, QueuedView, TaskStatus, VideoStylizerTaskInQueue};
use crate::codec::parse_task_in_queue;
use crate::textenc::{
    dec_nat, enc_str, escape_string, lemma_prefix_join, lemma_prefix_split, lemma_prefix_whole,
    parse_lit, parse_string, prefix_at, str_chars, u64_to_string,
};

verus! {

// ---------------------------------------------------------------------------
// The backend request
// ---------------------------------------------------------------------------

/// Mathematical image of a backend request.
pub ghost struct RequestBodyView {
    pub videoname: Seq<char>,
    pub video_prompt: Seq<char>,
    pub style_prompt: Seq<char>,
    pub n_prompt: Seq<char>,
    pub max_keyframe: i64,
    pub seed: u64,
}

/// The body posted to the stylization backend. Absent optional fields of
/// the task are normalized: empty strings for missing prompts, `-1` for a
/// missing keyframe bound.
#[derive(Debug, Clone)]
pub struct VideoStylizerRequestBody {
    pub videoname: String,
    pub video_prompt: String,
    pub style_prompt: String,
    pub n_prompt: String,
    pub max_keyframe: i64,
    pub seed: u64,
}

impl View for VideoStylizerRequestBody {
    type V = RequestBodyView;

    open spec fn view(&self) -> RequestBodyView {
        RequestBodyView {
            videoname: self.videoname@,
            video_prompt: self.video_prompt@,
            style_prompt: self.style_prompt@,
            n_prompt: self.n_prompt@,
            max_keyframe: self.max_keyframe,
            seed: self.seed,
        }
    }
}

/// The body a successful backend reply carries: the artifact locator.
#[derive(Debug, Clone)]
pub struct VideoStylizerResponseBody {
    pub output_path: String,
}

/// The request a task maps to: source locator carried as is, missing
/// prompts as empty strings, missing keyframe bound as `-1`, the seed
/// unchanged.
pub open spec fn request_of(t: QueuedView) -> RequestBodyView {
    RequestBodyView {
        videoname: t.src_video_url,
        video_prompt: match t.video_prompt {
            Option::Some(p) => p,
            Option::None => Seq::empty(),
        },
        style_prompt: t.style_prompt,
        n_prompt: match t.negative_prompt {
            Option::Some(p) => p,
            Option::None => Seq::empty(),
        },
        max_keyframe: match t.max_keyframes {
            Option::Some(k) => k as i64,
            Option::None => -1 as i64,
        },
        seed: t.seed,
    }
}

/// Build the backend request from a task.
pub fn build_backend_request(t: &VideoStylizerTaskInQueue) -> (r: VideoStylizerRequestBody)
    ensures
        r@ == request_of(t@),
{
    VideoStylizerRequestBody {
        videoname: t.src_video_url.clone(),
        video_prompt: match &t.video_prompt {
            Some(p) => p.clone(),
            None => String::new(),
        },
        style_prompt: t.style_prompt.clone(),
        n_prompt: match &t.negative_prompt {
            Some(p) => p.clone(),
            None => String::new(),
        },
        max_keyframe: match t.max_keyframes {
            Some(k) => {
                #[verifier::truncate]
                (k as i64)
            },
            None => -1,
        },
        seed: t.seed,
    }
}

/// The signed decimal rendering of an `i64`.
pub open spec fn dec_i64(v: int) -> Seq<char> {
    if v >= 0 {
        dec_nat(v as nat)
    } else {
        seq!['-'] + dec_nat((-v) as nat)
    }
}

/// Render an `i64` in signed decimal.
pub fn i64_to_string(n: i64) -> (r: String)
    ensures
        r@ == dec_i64(n as int),
{
    if n >= 0 {
        u64_to_string(n as u64)
    } else {
        // magnitude computed without negating `i64::MIN`
        let m: u64 = ((-(n + 1)) as u64) + 1;
        proof {
            assert(m as nat == (-(n as int)) as nat);
        }
        let r = "-".to_owned().concat(u64_to_string(m).as_str());
        proof {
            reveal_strlit("-");
            assert("-"@ =~= seq!['-']);
        }
        r
    }
}

/// The wire form of a backend request.
pub open spec fn enc_request(b: RequestBodyView) -> Seq<char> {
    "{\"videoname\":"@ + (enc_str(b.videoname) + (",\"video_prompt\":"@ + (enc_str(b.video_prompt)
        + (",\"style_prompt\":"@ + (enc_str(b.style_prompt) + (",\"n_prompt\":"@ + (enc_str(
        b.n_prompt,
    ) + (",\"max_keyframe\":"@ + (dec_i64(b.max_keyframe as int) + (",\"seed\":"@ + (dec_nat(
        b.seed as nat,
    ) + "}"@)))))))))))
}

/// Serialize a backend request to its wire form.
pub fn encode_request(b: &VideoStylizerRequestBody) -> (r: String)
    ensures
        r@ == enc_request(b@),
{
    let mut out: String = "}".to_owned();
    out = u64_to_string(b.seed).concat(out.as_str());
    out = ",\"seed\":".to_owned().concat(out.as_str());
    out = i64_to_string(b.max_keyframe).concat(out.as_str());
    out = ",\"max_keyframe\":".to_owned().concat(out.as_str());
    out = escape_string(b.n_prompt.as_str()).concat(out.as_str());
    out = ",\"n_prompt\":".to_owned().concat(out.as_str());
    out = escape_string(b.style_prompt.as_str()).concat(out.as_str());
    out = ",\"style_prompt\":".to_owned().concat(out.as_str());
    out = escape_string(b.video_prompt.as_str()).concat(out.as_str());
    out = ",\"video_prompt\":".to_owned().concat(out.as_str());
    out = escape_string(b.videoname.as_str()).concat(out.as_str());
    out = "{\"videoname\":".to_owned().concat(out.as_str());
    out
}

// ---------------------------------------------------------------------------
// The backend reply
// ---------------------------------------------------------------------------

/// A run of `n` spaces.
pub open spec fn spaces(n: nat) -> Seq<char>
    decreases n,
{
    if n == 0 {
        Seq::empty()
    } else {
        spaces((n - 1) as nat).push(' ')
    }
}

pub proof fn lemma_spaces_props(n: nat)
    ensures
        spaces(n).len() == n,
        forall|q: int| 0 <= q < n ==> spaces(n)[q] == ' ',
    decreases n,
{
    if n > 0 {
        lemma_spaces_props((n - 1) as nat);
    }
}

/// A sequence of spaces is the canonical run of its length.
pub proof fn lemma_spaces_canonical(s: Seq<char>)
    requires
        forall|q: int| 0 <= q < s.len() ==> s[q] == ' ',
    ensures
        s == spaces(s.len()),
    decreases s.len(),
{
    if s.len() > 0 {
        lemma_spaces_canonical(s.drop_last());
        assert(s =~= s.drop_last().push(s.last()));
    }
}

/// `s` is a success reply carrying artifact path `p`, with `c` spaces after
/// the colon.
pub open spec fn response_enc(s: Seq<char>, p: Seq<char>, c: nat) -> bool {
    s == "{\"output_path\":"@ + (spaces(c) + (enc_str(p) + "}"@))
}

/// `s` is a success reply carrying artifact path `p`.
pub open spec fn is_success_reply(s: Seq<char>, p: Seq<char>) -> bool {
    exists|c: nat| response_enc(s, p, c)
}

/// Skip a maximal run of spaces.
fn skip_ws(v: &Vec<char>, i: usize) -> (j: usize)
    requires
        i <= v@.len(),
    ensures
        i <= j <= v@.len(),
        forall|q: int| i <= q < j ==> v@[q] == ' ',
        j == v@.len() || v@[j as int] != ' ',
{
    let mut j = i;
    while j < v.len()
        invariant
            i <= j <= v@.len(),
            forall|q: int| i <= q < j ==> v@[q] == ' ',
        decreases v@.len() - j,
    {
        if v[j] != ' ' {
            return j;
        }
        j = j + 1;
    }
    j
}

/// Parse a success reply body, if the body has the success shape
/// (optionally with spaces after the colon).
#[verifier::rlimit(100)]
pub fn parse_response_body(s: &str) -> (r: Option<VideoStylizerResponseBody>)
    ensures
        r matches Some(b) ==> is_success_reply(s@, b.output_path@),
        forall|p: Seq<char>, c: nat|
            #[trigger] response_enc(s@, p, c) ==> (r matches Some(b) && b.output_path@ == p),
{
    let v = str_chars(s);
    proof {
        assert forall|p: Seq<char>, c: nat| #[trigger] response_enc(s@, p, c) implies {
            &&& prefix_at(v@, 0, "{\"output_path\":"@)
            &&& prefix_at(v@, "{\"output_path\":"@.len() as int, spaces(c))
            &&& prefix_at(v@, "{\"output_path\":"@.len() + c as int, enc_str(p))
            &&& prefix_at(v@, "{\"output_path\":"@.len() + c + enc_str(p).len() as int, "}"@)
            &&& "{\"output_path\":"@.len() + c + enc_str(p).len() + "}"@.len() == v@.len()
            &&& ("{\"output_path\":"@.len() + c == v@.len() || v@["{\"output_path\":"@.len() + c as int]
                != ' ')
        } by {
            lemma_spaces_props(c);
            assert(v@.subrange(0, v@.len() as int) =~= v@);
            assert(prefix_at(v@, 0, "{\"output_path\":"@ + (spaces(c) + (enc_str(p) + "}"@))));
            lemma_prefix_split(v@, 0, "{\"output_path\":"@, spaces(c) + (enc_str(p) + "}"@));
            lemma_prefix_split(v@, "{\"output_path\":"@.len() as int, spaces(c), enc_str(p)
                + "}"@);
            lemma_prefix_split(v@, "{\"output_path\":"@.len() + c as int, enc_str(p), "}"@);
            assert(enc_str(p)[0] == '"');
            assert(v@["{\"output_path\":"@.len() + c as int] == enc_str(p)[0]);
        }
    }
    let i0 = match parse_lit(&v, 0, "{\"output_path\":") {
        Some(j) => j,
        None => {
            return None;
        },
    };
    let i1 = skip_ws(&v, i0);
    proof {
        lemma_spaces_canonical(v@.subrange(i0 as int, i1 as int));
        assert forall|p: Seq<char>, c: nat| #[trigger] response_enc(s@, p, c) implies i1 == i0
            + c by {
            lemma_spaces_props(c);
            if i1 < i0 + c {
                assert(v@[i1 as int] == v@.subrange(i0 as int, i0 + c)[i1 - i0]);
                assert(v@[i1 as int] == spaces(c)[i1 - i0]);
            }
            if i1 > i0 + c {
                assert(v@[i0 + c] == ' ');
            }
        }
    }
    let (path, i2) = match parse_string(&v, i1) {
        Some(x) => x,
        None => {
            return None;
        },
    };
    let i3 = match parse_lit(&v, i2, "}") {
        Some(j) => j,
        None => {
            return None;
        },
    };
    if i3 != v.len() {
        return None;
    }
    proof {
        let w = v@;
        let c = (i1 - i0) as nat;
        lemma_prefix_join(w, i1 as int, enc_str(path@), "}"@);
        assert(prefix_at(w, i0 as int, spaces(c))) by {
            assert(w.subrange(i0 as int, i1 as int) == spaces(c));
        }
        lemma_prefix_join(w, i0 as int, spaces(c), enc_str(path@) + "}"@);
        lemma_prefix_join(w, 0, "{\"output_path\":"@, spaces(c) + (enc_str(path@) + "}"@));
        lemma_prefix_whole(w, "{\"output_path\":"@ + (spaces(c) + (enc_str(path@) + "}"@)));
        assert(response_enc(s@, path@, c));
        assert(is_success_reply(s@, path@));
    }
    Some(VideoStylizerResponseBody { output_path: path })
}

// ---------------------------------------------------------------------------
// The worker's two decision steps
// ---------------------------------------------------------------------------

/// What to do with a pending-queue message.
pub enum WorkerStep {
    /// The payload does not decode: acknowledge and drop it — redelivering
    /// unparsable bytes can never succeed.
    Discard,
    /// The payload decodes: call the backend with this request.
    Dispatch { task: VideoStylizerTaskInQueue, request_payload: String },
}

/// Decide on a pending-queue message: decode it and build the backend
/// request, or discard what cannot decode.
pub fn worker_receive(payload: &str) -> (r: WorkerStep)
    ensures
        r matches WorkerStep::Dispatch { task, request_payload } ==> payload@ == enc_queued(task@)
            && request_payload@ == enc_request(request_of(task@)),
        forall|x: QueuedView|
            payload@ == #[trigger] enc_queued(x) ==> (r matches WorkerStep::Dispatch {
                task,
                request_payload,
            } && task@ == x),
{
    match parse_task_in_queue(payload) {
        None => WorkerStep::Discard,
        Some(task) => {
            let request = build_backend_request(&task);
            let request_payload = encode_request(&request);
            WorkerStep::Dispatch { task, request_payload }
        },
    }
}

/// What came back from the backend call, as far as the decision needs it.
pub enum BackendOutcome {
    /// The backend could not be reached, or the call timed out.
    TransportFailure,
    /// The backend answered; `body` is the reply body.
    Reply { body: String },
}

/// The worker's action after the backend call.
pub enum CompletionStep {
    /// Requeue the pending message: a transport blip is retried, on this or
    /// another worker instance.
    Nack { requeue: bool },
    /// Publish the finished task on the completed queue, then — only then —
    /// acknowledge the pending message.
    PublishAndAck { queue: String, payload: String, task: VideoStylizerTaskInQueue },
}

/// The result recorded when the backend answered but the reply carried no
/// artifact path: a deterministic rejection, reported rather than retried.
pub open spec fn unparsable_reply_text() -> Seq<char> {
    "backend reply carried no artifact path"@
}

/// A failed task never carries an empty detail: the text recorded for an
/// unparsable reply is non-empty.
pub proof fn lemma_failure_detail_nonempty()
    ensures
        unparsable_reply_text().len() > 0,
{
    reveal_strlit("backend reply carried no artifact path");
}

/// Decide on the backend's outcome for a task.
///
/// A transport failure nacks with requeue — nothing is published for that
/// attempt. A reply always yields exactly one completed-queue message: with
/// status `completed` and the artifact path when the reply has the success
/// shape, and with status `failed` and a non-empty error text otherwise.
/// Every other task field, the seed included, is carried unchanged.
pub fn worker_complete(task: VideoStylizerTaskInQueue, outcome: BackendOutcome) -> (r:
    CompletionStep)
    ensures
        outcome is TransportFailure <==> (r matches CompletionStep::Nack { requeue } && requeue),
        outcome matches BackendOutcome::Reply { body } ==> (r
            matches CompletionStep::PublishAndAck { queue, payload, task: done } && {
            &&& queue@ == spec_completed_queue()
            &&& payload@ == enc_queued(done@)
            &&& (forall|p: Seq<char>, c: nat|
                #[trigger] response_enc(body@, p, c) ==> done@ == queued_with_result(
                    task@,
                    TaskStatus::Completed,
                    p,
                ))
            &&& ((!exists|p: Seq<char>, c: nat| #[trigger] response_enc(body@, p, c)) ==> done@
                == queued_with_result(task@, TaskStatus::Failed, unparsable_reply_text()))
            &&& done@.status.spec_is_terminal()
            &&& done@.result is Some
        }),
{
    match outcome {
        BackendOutcome::TransportFailure => CompletionStep::Nack { requeue: true },
        BackendOutcome::Reply { body } => {
            let done = match parse_response_body(body.as_str()) {
                Some(b) => task.with_result(TaskStatus::Completed, b.output_path),
                None => {
                    let text = "backend reply carried no artifact path".to_owned();
                    task.with_result(TaskStatus::Failed, text)
                },
            };
            let payload = encode_task_in_queue(&done);
            CompletionStep::PublishAndAck { queue: completed_queue_name(), payload, task: done }
        },
    }
}

} // verus!
