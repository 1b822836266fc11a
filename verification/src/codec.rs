//! The wire codec for queued tasks: a field-named, JSON-style object with a
//! fixed field order, produced by the encoder and accepted — exactly — by the
//! decoder.
//!
//! The decoder's contract is two-sided: whatever it accepts is the encoding
//! of the returned task, and the encoding of every task is accepted and
//! returns that task. Serialize-then-deserialize is therefore the identity.

use vstd::prelude::*;
use vstd::string::StringExecFns;
use crate::schemas::{QueuedView, TaskStatus, VideoStylizerTaskInQueue};
use crate::textenc::{
    dec_nat, enc_str, escape_string, is_digit, lemma_dec_nat_props, lemma_prefix_join,
    lemma_prefix_split, lemma_prefix_whole, parse_lit, parse_string, parse_u64, prefix_at,
    str_chars, u64_to_string,
};

verus! {

// ---------------------------------------------------------------------------
// Wire-level spec
// ---------------------------------------------------------------------------

/// An optional string on the wire: the token `null`, or the quoted string.
pub open spec fn enc_opt_str(o: Option<Seq<char>>) -> Seq<char> {
    match o {
        Option::None => "null"@,
        Option::Some(s) => enc_str(s),
    }
}

/// An optional number on the wire: the token `null`, or the decimal digits.
pub open spec fn enc_opt_u64(o: Option<u64>) -> Seq<char> {
    match o {
        Option::None => "null"@,
        Option::Some(n) => dec_nat(n as nat),
    }
}

/// The status on the wire: one of the three quoted tokens. Any other token
/// fails decoding — an unknown status is a protocol violation, not data.
pub open spec fn enc_status(st: TaskStatus) -> Seq<char> {
    match st {
        TaskStatus::Pending => "\"pending\""@,
        TaskStatus::Completed => "\"completed\""@,
        TaskStatus::Failed => "\"failed\""@,
    }
}

// The wire form, defined field by field from the back so that every suffix
// of the message has a name.
pub open spec fn rest_result(x: QueuedView) -> Seq<char> {
    ",\"result\":"@ + (enc_opt_str(x.result) + "}"@)
}

pub open spec fn rest_status(x: QueuedView) -> Seq<char> {
    ",\"status\":"@ + (enc_status(x.status) + rest_result(x))
}

pub open spec fn rest_seed(x: QueuedView) -> Seq<char> {
    ",\"seed\":"@ + (dec_nat(x.seed as nat) + rest_status(x))
}

pub open spec fn rest_mk(x: QueuedView) -> Seq<char> {
    ",\"max_keyframes\":"@ + (enc_opt_u64(x.max_keyframes) + rest_seed(x))
}

pub open spec fn rest_np(x: QueuedView) -> Seq<char> {
    ",\"negative_prompt\":"@ + (enc_opt_str(x.negative_prompt) + rest_mk(x))
}

pub open spec fn rest_sp(x: QueuedView) -> Seq<char> {
    ",\"style_prompt\":"@ + (enc_str(x.style_prompt) + rest_np(x))
}

pub open spec fn rest_vp(x: QueuedView) -> Seq<char> {
    ",\"video_prompt\":"@ + (enc_opt_str(x.video_prompt) + rest_sp(x))
}

pub open spec fn rest_url(x: QueuedView) -> Seq<char> {
    ",\"src_video_url\":"@ + (enc_str(x.src_video_url) + rest_vp(x))
}

pub open spec fn rest_channel(x: QueuedView) -> Seq<char> {
    ",\"channel_id\":"@ + (dec_nat(x.channel_id as nat) + rest_url(x))
}

pub open spec fn rest_user(x: QueuedView) -> Seq<char> {
    ",\"user_id\":"@ + (dec_nat(x.user_id as nat) + rest_channel(x))
}

/// The complete wire form of a queued task.
pub open spec fn enc_queued(x: QueuedView) -> Seq<char> {
    "{\"task_id\":"@ + (enc_str(x.task_id) + rest_user(x))
}

// Offsets of each component of the wire form, counted from the start of the
// message. `off_<f>_lit` is where the field name of `f` begins; `off_<f>` is
// where its value begins.
pub open spec fn off_task_id(x: QueuedView) -> int {
    "{\"task_id\":"@.len() as int
}

pub open spec fn off_user_lit(x: QueuedView) -> int {
    off_task_id(x) + enc_str(x.task_id).len()
}

pub open spec fn off_user(x: QueuedView) -> int {
    off_user_lit(x) + ",\"user_id\":"@.len()
}

pub open spec fn off_channel_lit(x: QueuedView) -> int {
    off_user(x) + dec_nat(x.user_id as nat).len()
}

pub open spec fn off_channel(x: QueuedView) -> int {
    off_channel_lit(x) + ",\"channel_id\":"@.len()
}

pub open spec fn off_url_lit(x: QueuedView) -> int {
    off_channel(x) + dec_nat(x.channel_id as nat).len()
}

pub open spec fn off_url(x: QueuedView) -> int {
    off_url_lit(x) + ",\"src_video_url\":"@.len()
}

pub open spec fn off_vp_lit(x: QueuedView) -> int {
    off_url(x) + enc_str(x.src_video_url).len()
}

pub open spec fn off_vp(x: QueuedView) -> int {
    off_vp_lit(x) + ",\"video_prompt\":"@.len()
}

pub open spec fn off_sp_lit(x: QueuedView) -> int {
    off_vp(x) + enc_opt_str(x.video_prompt).len()
}

pub open spec fn off_sp(x: QueuedView) -> int {
    off_sp_lit(x) + ",\"style_prompt\":"@.len()
}

pub open spec fn off_np_lit(x: QueuedView) -> int {
    off_sp(x) + enc_str(x.style_prompt).len()
}

pub open spec fn off_np(x: QueuedView) -> int {
    off_np_lit(x) + ",\"negative_prompt\":"@.len()
}

pub open spec fn off_mk_lit(x: QueuedView) -> int {
    off_np(x) + enc_opt_str(x.negative_prompt).len()
}

pub open spec fn off_mk(x: QueuedView) -> int {
    off_mk_lit(x) + ",\"max_keyframes\":"@.len()
}

pub open spec fn off_seed_lit(x: QueuedView) -> int {
    off_mk(x) + enc_opt_u64(x.max_keyframes).len()
}

pub open spec fn off_seed(x: QueuedView) -> int {
    off_seed_lit(x) + ",\"seed\":"@.len()
}

pub open spec fn off_status_lit(x: QueuedView) -> int {
    off_seed(x) + dec_nat(x.seed as nat).len()
}

pub open spec fn off_status(x: QueuedView) -> int {
    off_status_lit(x) + ",\"status\":"@.len()
}

pub open spec fn off_result_lit(x: QueuedView) -> int {
    off_status(x) + enc_status(x.status).len()
}

pub open spec fn off_result(x: QueuedView) -> int {
    off_result_lit(x) + ",\"result\":"@.len()
}

pub open spec fn off_close(x: QueuedView) -> int {
    off_result(x) + enc_opt_str(x.result).len()
}

/// First half of the component placement: through the source-URL field.
proof fn lemma_peel_queued_front(s: Seq<char>, x: QueuedView)
    requires
        s == enc_queued(x),
    ensures
        prefix_at(s, 0, "{\"task_id\":"@),
        prefix_at(s, off_task_id(x), enc_str(x.task_id)),
        prefix_at(s, off_user_lit(x), ",\"user_id\":"@),
        prefix_at(s, off_user(x), dec_nat(x.user_id as nat)),
        off_channel_lit(x) < s.len() && !is_digit(s[off_channel_lit(x)]),
        prefix_at(s, off_channel_lit(x), ",\"channel_id\":"@),
        prefix_at(s, off_channel(x), dec_nat(x.channel_id as nat)),
        off_url_lit(x) < s.len() && !is_digit(s[off_url_lit(x)]),
        prefix_at(s, off_url_lit(x), ",\"src_video_url\":"@),
        prefix_at(s, off_url(x), enc_str(x.src_video_url)),
        prefix_at(s, off_vp_lit(x), rest_vp(x)),
        off_vp_lit(x) + rest_vp(x).len() == s.len(),
{
    assert(s.subrange(0, s.len() as int) =~= s);
    assert(prefix_at(s, 0, enc_queued(x)));
    lemma_prefix_split(s, 0, "{\"task_id\":"@, enc_str(x.task_id) + rest_user(x));
    lemma_prefix_split(s, off_task_id(x), enc_str(x.task_id), rest_user(x));
    lemma_prefix_split(
        s,
        off_user_lit(x),
        ",\"user_id\":"@,
        dec_nat(x.user_id as nat) + rest_channel(x),
    );
    lemma_prefix_split(s, off_user(x), dec_nat(x.user_id as nat), rest_channel(x));
    reveal_strlit(",\"channel_id\":");
    assert(s[off_channel_lit(x)] == ",\"channel_id\":"@[0]);
    lemma_prefix_split(
        s,
        off_channel_lit(x),
        ",\"channel_id\":"@,
        dec_nat(x.channel_id as nat) + rest_url(x),
    );
    lemma_prefix_split(s, off_channel(x), dec_nat(x.channel_id as nat), rest_url(x));
    reveal_strlit(",\"src_video_url\":");
    assert(s[off_url_lit(x)] == ",\"src_video_url\":"@[0]);
    lemma_prefix_split(
        s,
        off_url_lit(x),
        ",\"src_video_url\":"@,
        enc_str(x.src_video_url) + rest_vp(x),
    );
    lemma_prefix_split(s, off_url(x), enc_str(x.src_video_url), rest_vp(x));
}

/// Second half of the component placement: from the video-prompt field to
/// the closing brace.
proof fn lemma_peel_queued_back(s: Seq<char>, x: QueuedView)
    requires
        prefix_at(s, off_vp_lit(x), rest_vp(x)),
        off_vp_lit(x) + rest_vp(x).len() == s.len(),
    ensures
        prefix_at(s, off_vp_lit(x), ",\"video_prompt\":"@),
        prefix_at(s, off_vp(x), enc_opt_str(x.video_prompt)),
        prefix_at(s, off_sp_lit(x), ",\"style_prompt\":"@),
        prefix_at(s, off_sp(x), enc_str(x.style_prompt)),
        prefix_at(s, off_np_lit(x), ",\"negative_prompt\":"@),
        prefix_at(s, off_np(x), enc_opt_str(x.negative_prompt)),
        prefix_at(s, off_mk_lit(x), ",\"max_keyframes\":"@),
        prefix_at(s, off_mk(x), enc_opt_u64(x.max_keyframes)),
        off_seed_lit(x) < s.len() && !is_digit(s[off_seed_lit(x)]),
        prefix_at(s, off_seed_lit(x), ",\"seed\":"@),
        prefix_at(s, off_seed(x), dec_nat(x.seed as nat)),
        off_status_lit(x) < s.len() && !is_digit(s[off_status_lit(x)]),
        prefix_at(s, off_status_lit(x), ",\"status\":"@),
        prefix_at(s, off_status(x), enc_status(x.status)),
        prefix_at(s, off_result_lit(x), ",\"result\":"@),
        prefix_at(s, off_result(x), enc_opt_str(x.result)),
        prefix_at(s, off_close(x), "}"@),
        off_close(x) + "}"@.len() == s.len(),
{
    lemma_prefix_split(
        s,
        off_vp_lit(x),
        ",\"video_prompt\":"@,
        enc_opt_str(x.video_prompt) + rest_sp(x),
    );
    lemma_prefix_split(s, off_vp(x), enc_opt_str(x.video_prompt), rest_sp(x));
    lemma_prefix_split(
        s,
        off_sp_lit(x),
        ",\"style_prompt\":"@,
        enc_str(x.style_prompt) + rest_np(x),
    );
    lemma_prefix_split(s, off_sp(x), enc_str(x.style_prompt), rest_np(x));
    lemma_prefix_split(
        s,
        off_np_lit(x),
        ",\"negative_prompt\":"@,
        enc_opt_str(x.negative_prompt) + rest_mk(x),
    );
    lemma_prefix_split(s, off_np(x), enc_opt_str(x.negative_prompt), rest_mk(x));
    lemma_prefix_split(
        s,
        off_mk_lit(x),
        ",\"max_keyframes\":"@,
        enc_opt_u64(x.max_keyframes) + rest_seed(x),
    );
    lemma_prefix_split(s, off_mk(x), enc_opt_u64(x.max_keyframes), rest_seed(x));
    reveal_strlit(",\"seed\":");
    assert(s.subrange(off_seed_lit(x), off_seed_lit(x) + rest_seed(x).len() as int)[0] == s[
        off_seed_lit(x)]);
    assert(rest_seed(x)[0] == ",\"seed\":"@[0]);
    assert(s[off_seed_lit(x)] == ",\"seed\":"@[0]);
    lemma_prefix_split(s, off_seed_lit(x), ",\"seed\":"@, dec_nat(x.seed as nat) + rest_status(x));
    lemma_prefix_split(s, off_seed(x), dec_nat(x.seed as nat), rest_status(x));
    reveal_strlit(",\"status\":");
    assert(s.subrange(off_status_lit(x), off_status_lit(x) + rest_status(x).len() as int)[0] == s[
        off_status_lit(x)]);
    assert(rest_status(x)[0] == ",\"status\":"@[0]);
    assert(s[off_status_lit(x)] == ",\"status\":"@[0]);
    lemma_prefix_split(
        s,
        off_status_lit(x),
        ",\"status\":"@,
        enc_status(x.status) + rest_result(x),
    );
    lemma_prefix_split(s, off_status(x), enc_status(x.status), rest_result(x));
    lemma_prefix_split(s, off_result_lit(x), ",\"result\":"@, enc_opt_str(x.result) + "}"@);
    lemma_prefix_split(s, off_result(x), enc_opt_str(x.result), "}"@);
}

/// Where each component of the encoding of `x` sits inside `s`, when `s` is
/// that encoding; together with the non-digit guards after each number.
pub proof fn lemma_peel_queued(s: Seq<char>, x: QueuedView)
    requires
        s == enc_queued(x),
    ensures
        prefix_at(s, 0, "{\"task_id\":"@),
        prefix_at(s, off_task_id(x), enc_str(x.task_id)),
        prefix_at(s, off_user_lit(x), ",\"user_id\":"@),
        prefix_at(s, off_user(x), dec_nat(x.user_id as nat)),
        off_channel_lit(x) < s.len() && !is_digit(s[off_channel_lit(x)]),
        prefix_at(s, off_channel_lit(x), ",\"channel_id\":"@),
        prefix_at(s, off_channel(x), dec_nat(x.channel_id as nat)),
        off_url_lit(x) < s.len() && !is_digit(s[off_url_lit(x)]),
        prefix_at(s, off_url_lit(x), ",\"src_video_url\":"@),
        prefix_at(s, off_url(x), enc_str(x.src_video_url)),
        prefix_at(s, off_vp_lit(x), ",\"video_prompt\":"@),
        prefix_at(s, off_vp(x), enc_opt_str(x.video_prompt)),
        prefix_at(s, off_sp_lit(x), ",\"style_prompt\":"@),
        prefix_at(s, off_sp(x), enc_str(x.style_prompt)),
        prefix_at(s, off_np_lit(x), ",\"negative_prompt\":"@),
        prefix_at(s, off_np(x), enc_opt_str(x.negative_prompt)),
        prefix_at(s, off_mk_lit(x), ",\"max_keyframes\":"@),
        prefix_at(s, off_mk(x), enc_opt_u64(x.max_keyframes)),
        off_seed_lit(x) < s.len() && !is_digit(s[off_seed_lit(x)]),
        prefix_at(s, off_seed_lit(x), ",\"seed\":"@),
        prefix_at(s, off_seed(x), dec_nat(x.seed as nat)),
        off_status_lit(x) < s.len() && !is_digit(s[off_status_lit(x)]),
        prefix_at(s, off_status_lit(x), ",\"status\":"@),
        prefix_at(s, off_status(x), enc_status(x.status)),
        prefix_at(s, off_result_lit(x), ",\"result\":"@),
        prefix_at(s, off_result(x), enc_opt_str(x.result)),
        prefix_at(s, off_close(x), "}"@),
        off_close(x) + "}"@.len() == s.len(),
{
    lemma_peel_queued_front(s, x);
    lemma_peel_queued_back(s, x);
}

// ---------------------------------------------------------------------------
// Executable encoders
// ---------------------------------------------------------------------------

/// An optional string value on the wire.
fn encode_opt_string(o: &Option<String>) -> (r: String)
    ensures
        r@ == enc_opt_str(o.deep_view()),
{
    match o {
        Option::None => "null".to_owned(),
        Option::Some(s) => escape_string(s.as_str()),
    }
}

/// An optional number value on the wire.
fn encode_opt_u64(o: &Option<u64>) -> (r: String)
    ensures
        r@ == enc_opt_u64(*o),
{
    match o {
        Option::None => "null".to_owned(),
        Option::Some(n) => u64_to_string(*n),
    }
}

/// The status token on the wire.
fn encode_status(st: &TaskStatus) -> (r: String)
    ensures
        r@ == enc_status(*st),
{
    match st {
        TaskStatus::Pending => "\"pending\"".to_owned(),
        TaskStatus::Completed => "\"completed\"".to_owned(),
        TaskStatus::Failed => "\"failed\"".to_owned(),
    }
}

/// Serialize a queued task to its wire form.
pub fn encode_task_in_queue(t: &VideoStylizerTaskInQueue) -> (r: String)
    ensures
        r@ == enc_queued(t@),
{
    let mut out: String = "}".to_owned();
    out = encode_opt_string(&t.result).concat(out.as_str());
    out = ",\"result\":".to_owned().concat(out.as_str());
    assert(out@ == rest_result(t@));
    out = encode_status(&t.status).concat(out.as_str());
    out = ",\"status\":".to_owned().concat(out.as_str());
    assert(out@ == rest_status(t@));
    out = u64_to_string(t.seed).concat(out.as_str());
    out = ",\"seed\":".to_owned().concat(out.as_str());
    assert(out@ == rest_seed(t@));
    out = encode_opt_u64(&t.max_keyframes).concat(out.as_str());
    out = ",\"max_keyframes\":".to_owned().concat(out.as_str());
    assert(out@ == rest_mk(t@));
    out = encode_opt_string(&t.negative_prompt).concat(out.as_str());
    out = ",\"negative_prompt\":".to_owned().concat(out.as_str());
    assert(out@ == rest_np(t@));
    out = escape_string(t.style_prompt.as_str()).concat(out.as_str());
    out = ",\"style_prompt\":".to_owned().concat(out.as_str());
    assert(out@ == rest_sp(t@));
    out = encode_opt_string(&t.video_prompt).concat(out.as_str());
    out = ",\"video_prompt\":".to_owned().concat(out.as_str());
    assert(out@ == rest_vp(t@));
    out = escape_string(t.src_video_url.as_str()).concat(out.as_str());
    out = ",\"src_video_url\":".to_owned().concat(out.as_str());
    assert(out@ == rest_url(t@));
    out = u64_to_string(t.channel_id).concat(out.as_str());
    out = ",\"channel_id\":".to_owned().concat(out.as_str());
    assert(out@ == rest_channel(t@));
    out = u64_to_string(t.user_id).concat(out.as_str());
    out = ",\"user_id\":".to_owned().concat(out.as_str());
    assert(out@ == rest_user(t@));
    out = escape_string(t.task_id.as_str()).concat(out.as_str());
    out = "{\"task_id\":".to_owned().concat(out.as_str());
    out
}

// ---------------------------------------------------------------------------
// Executable decoders
// ---------------------------------------------------------------------------

/// Accept `null` or a string value at position `i`.
fn parse_opt_string(v: &Vec<char>, i: usize) -> (r: Option<(Option<String>, usize)>)
    requires
        i <= v@.len(),
    ensures
        r matches Some((o, j)) ==> i <= j <= v@.len() && prefix_at(
            v@,
            i as int,
            enc_opt_str(o.deep_view()),
        ) && j == i + enc_opt_str(o.deep_view()).len(),
        forall|x: Option<Seq<char>>|
            prefix_at(v@, i as int, #[trigger] enc_opt_str(x)) ==> (r matches Some((o, j))
                && o.deep_view() == x && j == i + enc_opt_str(x).len()),
{
    proof {
        reveal_strlit("null");
    }
    match parse_lit(v, i, "null") {
        Some(j) => {
            proof {
                assert forall|x: Option<Seq<char>>|
                    prefix_at(v@, i as int, #[trigger] enc_opt_str(x)) implies x is None by {
                    match x {
                        Option::Some(b) => {
                            assert(v@[i as int] == enc_str(b)[0]);
                            assert(v@[i as int] == "null"@[0]);
                        },
                        Option::None => {},
                    }
                }
            }
            Some((None, j))
        },
        None => {
            match parse_string(v, i) {
                Some((s, j)) => {
                    proof {
                        assert(Some(s).deep_view() == Some(s@));
                        assert forall|x: Option<Seq<char>>|
                            prefix_at(v@, i as int, #[trigger] enc_opt_str(x)) implies (Some(
                            s,
                        ).deep_view() == x && j == i + enc_opt_str(x).len()) by {
                            if x is None {
                                assert(prefix_at(v@, i as int, "null"@));
                            }
                        }
                    }
                    Some((Some(s), j))
                },
                None => {
                    proof {
                        assert forall|x: Option<Seq<char>>|
                            !prefix_at(v@, i as int, #[trigger] enc_opt_str(x)) by {
                            if prefix_at(v@, i as int, enc_opt_str(x)) {
                                if x is None {
                                    assert(prefix_at(v@, i as int, "null"@));
                                }
                            }
                        }
                    }
                    None
                },
            }
        },
    }
}

/// Accept `null` or a number value at position `i`, the number closed by a
/// following non-digit.
fn parse_opt_u64(v: &Vec<char>, i: usize) -> (r: Option<(Option<u64>, usize)>)
    requires
        i <= v@.len(),
    ensures
        r matches Some((o, j)) ==> i <= j <= v@.len() && prefix_at(v@, i as int, enc_opt_u64(o))
            && j == i + enc_opt_u64(o).len(),
        forall|x: Option<u64>|
            {
                &&& prefix_at(v@, i as int, #[trigger] enc_opt_u64(x))
                &&& (i + enc_opt_u64(x).len() == v@.len() || !is_digit(
                    v@[i + enc_opt_u64(x).len()],
                ))
            } ==> (r matches Some((o, j)) && o == x && j == i + enc_opt_u64(x).len()),
{
    proof {
        reveal_strlit("null");
    }
    match parse_lit(v, i, "null") {
        Some(j) => {
            proof {
                assert forall|x: Option<u64>|
                    prefix_at(v@, i as int, #[trigger] enc_opt_u64(x)) implies x is None by {
                    match x {
                        Option::Some(n) => {
                            lemma_dec_nat_props(n as nat);
                            assert(v@[i as int] == dec_nat(n as nat)[0]);
                            assert(v@[i as int] == "null"@[0]);
                            assert(is_digit('n') == false);
                        },
                        Option::None => {},
                    }
                }
            }
            Some((None, j))
        },
        None => {
            match parse_u64(v, i) {
                Some((n, j)) => {
                    proof {
                        assert forall|x: Option<u64>|
                            {
                                &&& prefix_at(v@, i as int, #[trigger] enc_opt_u64(x))
                                &&& (i + enc_opt_u64(x).len() == v@.len() || !is_digit(
                                    v@[i + enc_opt_u64(x).len()],
                                ))
                            } implies (Some(n) == x && j == i + enc_opt_u64(x).len()) by {
                            if x is None {
                                assert(prefix_at(v@, i as int, "null"@));
                            }
                        }
                    }
                    Some((Some(n), j))
                },
                None => {
                    proof {
                        assert forall|x: Option<u64>|
                            !({
                                &&& prefix_at(v@, i as int, #[trigger] enc_opt_u64(x))
                                &&& (i + enc_opt_u64(x).len() == v@.len() || !is_digit(
                                    v@[i + enc_opt_u64(x).len()],
                                ))
                            }) by {
                            if prefix_at(v@, i as int, enc_opt_u64(x)) && (i + enc_opt_u64(
                                x,
                            ).len() == v@.len() || !is_digit(v@[i + enc_opt_u64(x).len()])) {
                                if x is None {
                                    assert(prefix_at(v@, i as int, "null"@));
                                }
                            }
                        }
                    }
                    None
                },
            }
        },
    }
}

/// Accept one of the three status tokens at position `i`.
fn parse_status(v: &Vec<char>, i: usize) -> (r: Option<(TaskStatus, usize)>)
    requires
        i <= v@.len(),
    ensures
        r matches Some((st, j)) ==> i <= j <= v@.len() && prefix_at(v@, i as int, enc_status(st))
            && j == i + enc_status(st).len(),
        forall|x: TaskStatus|
            prefix_at(v@, i as int, #[trigger] enc_status(x)) ==> (r matches Some((st, j)) && st
                == x && j == i + enc_status(x).len()),
{
    proof {
        reveal_strlit("\"pending\"");
        reveal_strlit("\"completed\"");
        reveal_strlit("\"failed\"");
    }
    match parse_lit(v, i, "\"pending\"") {
        Some(j) => {
            proof {
                assert forall|x: TaskStatus|
                    prefix_at(v@, i as int, #[trigger] enc_status(x)) implies x is Pending by {
                    if x is Completed {
                        assert(v@[i + 1] == "\"completed\""@[1]);
                        assert(v@[i + 1] == "\"pending\""@[1]);
                    }
                    if x is Failed {
                        assert(v@[i + 1] == "\"failed\""@[1]);
                        assert(v@[i + 1] == "\"pending\""@[1]);
                    }
                }
            }
            return Some((TaskStatus::Pending, j));
        },
        None => {},
    }
    match parse_lit(v, i, "\"completed\"") {
        Some(j) => {
            proof {
                assert forall|x: TaskStatus|
                    prefix_at(v@, i as int, #[trigger] enc_status(x)) implies x is Completed by {
                    if x is Pending {
                        assert(prefix_at(v@, i as int, "\"pending\""@));
                    }
                    if x is Failed {
                        assert(v@[i + 1] == "\"failed\""@[1]);
                        assert(v@[i + 1] == "\"completed\""@[1]);
                    }
                }
            }
            return Some((TaskStatus::Completed, j));
        },
        None => {},
    }
    match parse_lit(v, i, "\"failed\"") {
        Some(j) => {
            proof {
                assert forall|x: TaskStatus|
                    prefix_at(v@, i as int, #[trigger] enc_status(x)) implies x is Failed by {
                    if x is Pending {
                        assert(prefix_at(v@, i as int, "\"pending\""@));
                    }
                    if x is Completed {
                        assert(prefix_at(v@, i as int, "\"completed\""@));
                    }
                }
            }
            return Some((TaskStatus::Failed, j));
        },
        None => {},
    }
    proof {
        assert forall|x: TaskStatus| !prefix_at(v@, i as int, #[trigger] enc_status(x)) by {
            if prefix_at(v@, i as int, enc_status(x)) {
                match x {
                    TaskStatus::Pending => assert(prefix_at(v@, i as int, "\"pending\""@)),
                    TaskStatus::Completed => assert(prefix_at(v@, i as int, "\"completed\""@)),
                    TaskStatus::Failed => assert(prefix_at(v@, i as int, "\"failed\""@)),
                }
            }
        }
    }
    None
}

/// Deserialize a queued task from its wire form.
///
/// Accepts exactly the encoder's output: on success the input is the
/// encoding of the returned task, and for every task the encoding parses
/// back to that task.
#[verifier::rlimit(100)]
pub fn parse_task_in_queue(s: &str) -> (r: Option<VideoStylizerTaskInQueue>)
    ensures
        r matches Some(t) ==> s@ == enc_queued(t@),
        forall|x: QueuedView| s@ == #[trigger] enc_queued(x) ==> (r matches Some(t) && t@ == x),
{
    let v = str_chars(s);
    proof {
        assert forall|x: QueuedView| s@ == #[trigger] enc_queued(x) implies {
            &&& prefix_at(v@, 0, "{\"task_id\":"@)
            &&& prefix_at(v@, off_task_id(x), enc_str(x.task_id))
            &&& prefix_at(v@, off_user_lit(x), ",\"user_id\":"@)
            &&& prefix_at(v@, off_user(x), dec_nat(x.user_id as nat))
            &&& off_channel_lit(x) < v@.len() && !is_digit(v@[off_channel_lit(x)])
            &&& prefix_at(v@, off_channel_lit(x), ",\"channel_id\":"@)
            &&& prefix_at(v@, off_channel(x), dec_nat(x.channel_id as nat))
            &&& off_url_lit(x) < v@.len() && !is_digit(v@[off_url_lit(x)])
            &&& prefix_at(v@, off_url_lit(x), ",\"src_video_url\":"@)
            &&& prefix_at(v@, off_url(x), enc_str(x.src_video_url))
            &&& prefix_at(v@, off_vp_lit(x), ",\"video_prompt\":"@)
            &&& prefix_at(v@, off_vp(x), enc_opt_str(x.video_prompt))
            &&& prefix_at(v@, off_sp_lit(x), ",\"style_prompt\":"@)
            &&& prefix_at(v@, off_sp(x), enc_str(x.style_prompt))
            &&& prefix_at(v@, off_np_lit(x), ",\"negative_prompt\":"@)
            &&& prefix_at(v@, off_np(x), enc_opt_str(x.negative_prompt))
            &&& prefix_at(v@, off_mk_lit(x), ",\"max_keyframes\":"@)
            &&& prefix_at(v@, off_mk(x), enc_opt_u64(x.max_keyframes))
            &&& off_seed_lit(x) < v@.len() && !is_digit(v@[off_seed_lit(x)])
            &&& prefix_at(v@, off_seed_lit(x), ",\"seed\":"@)
            &&& prefix_at(v@, off_seed(x), dec_nat(x.seed as nat))
            &&& off_status_lit(x) < v@.len() && !is_digit(v@[off_status_lit(x)])
            &&& prefix_at(v@, off_status_lit(x), ",\"status\":"@)
            &&& prefix_at(v@, off_status(x), enc_status(x.status))
            &&& prefix_at(v@, off_result_lit(x), ",\"result\":"@)
            &&& prefix_at(v@, off_result(x), enc_opt_str(x.result))
            &&& prefix_at(v@, off_close(x), "}"@)
            &&& off_close(x) + "}"@.len() == v@.len()
        } by {
            lemma_peel_queued(v@, x);
        }
    }
    let i0 = match parse_lit(&v, 0, "{\"task_id\":") {
        Some(j) => j,
        None => {
            return None;
        },
    };
    let (task_id, i1) = match parse_string(&v, i0) {
        Some(p) => p,
        None => {
            return None;
        },
    };
    let i2 = match parse_lit(&v, i1, ",\"user_id\":") {
        Some(j) => j,
        None => {
            return None;
        },
    };
    let (user_id, i3) = match parse_u64(&v, i2) {
        Some(p) => p,
        None => {
            return None;
        },
    };
    let i4 = match parse_lit(&v, i3, ",\"channel_id\":") {
        Some(j) => j,
        None => {
            return None;
        },
    };
    let (channel_id, i5) = match parse_u64(&v, i4) {
        Some(p) => p,
        None => {
            return None;
        },
    };
    let i6 = match parse_lit(&v, i5, ",\"src_video_url\":") {
        Some(j) => j,
        None => {
            return None;
        },
    };
    let (src_video_url, i7) = match parse_string(&v, i6) {
        Some(p) => p,
        None => {
            return None;
        },
    };
    let i8 = match parse_lit(&v, i7, ",\"video_prompt\":") {
        Some(j) => j,
        None => {
            return None;
        },
    };
    let (video_prompt, i9) = match parse_opt_string(&v, i8) {
        Some(p) => p,
        None => {
            return None;
        },
    };
    let i10 = match parse_lit(&v, i9, ",\"style_prompt\":") {
        Some(j) => j,
        None => {
            return None;
        },
    };
    let (style_prompt, i11) = match parse_string(&v, i10) {
        Some(p) => p,
        None => {
            return None;
        },
    };
    let i12 = match parse_lit(&v, i11, ",\"negative_prompt\":") {
        Some(j) => j,
        None => {
            return None;
        },
    };
    let (negative_prompt, i13) = match parse_opt_string(&v, i12) {
        Some(p) => p,
        None => {
            return None;
        },
    };
    let i14 = match parse_lit(&v, i13, ",\"max_keyframes\":") {
        Some(j) => j,
        None => {
            return None;
        },
    };
    let (max_keyframes, i15) = match parse_opt_u64(&v, i14) {
        Some(p) => p,
        None => {
            return None;
        },
    };
    let i16 = match parse_lit(&v, i15, ",\"seed\":") {
        Some(j) => j,
        None => {
            return None;
        },
    };
    let (seed, i17) = match parse_u64(&v, i16) {
        Some(p) => p,
        None => {
            return None;
        },
    };
    let i18 = match parse_lit(&v, i17, ",\"status\":") {
        Some(j) => j,
        None => {
            return None;
        },
    };
    let (status, i19) = match parse_status(&v, i18) {
        Some(p) => p,
        None => {
            return None;
        },
    };
    let i20 = match parse_lit(&v, i19, ",\"result\":") {
        Some(j) => j,
        None => {
            return None;
        },
    };
    let (result, i21) = match parse_opt_string(&v, i20) {
        Some(p) => p,
        None => {
            return None;
        },
    };
    let i22 = match parse_lit(&v, i21, "}") {
        Some(j) => j,
        None => {
            return None;
        },
    };
    if i22 != v.len() {
        return None;
    }
    let t = VideoStylizerTaskInQueue {
        task_id,
        user_id,
        channel_id,
        src_video_url,
        video_prompt,
        style_prompt,
        negative_prompt,
        max_keyframes,
        seed,
        status,
        result,
    };
    proof {
        // Reassemble the consumed components: the input is exactly the
        // encoding of the parsed task.
        let w = v@;
        let y = t@;
        lemma_prefix_join(w, off_result(y), enc_opt_str(y.result), "}"@);
        lemma_prefix_join(w, off_result_lit(y), ",\"result\":"@, enc_opt_str(y.result) + "}"@);
        assert(prefix_at(w, off_result_lit(y), rest_result(y)));
        lemma_prefix_join(w, off_status(y), enc_status(y.status), rest_result(y));
        lemma_prefix_join(
            w,
            off_status_lit(y),
            ",\"status\":"@,
            enc_status(y.status) + rest_result(y),
        );
        assert(prefix_at(w, off_status_lit(y), rest_status(y)));
        lemma_prefix_join(w, off_seed(y), dec_nat(y.seed as nat), rest_status(y));
        lemma_prefix_join(
            w,
            off_seed_lit(y),
            ",\"seed\":"@,
            dec_nat(y.seed as nat) + rest_status(y),
        );
        assert(prefix_at(w, off_seed_lit(y), rest_seed(y)));
        lemma_prefix_join(w, off_mk(y), enc_opt_u64(y.max_keyframes), rest_seed(y));
        lemma_prefix_join(
            w,
            off_mk_lit(y),
            ",\"max_keyframes\":"@,
            enc_opt_u64(y.max_keyframes) + rest_seed(y),
        );
        assert(prefix_at(w, off_mk_lit(y), rest_mk(y)));
        lemma_prefix_join(w, off_np(y), enc_opt_str(y.negative_prompt), rest_mk(y));
        lemma_prefix_join(
            w,
            off_np_lit(y),
            ",\"negative_prompt\":"@,
            enc_opt_str(y.negative_prompt) + rest_mk(y),
        );
        assert(prefix_at(w, off_np_lit(y), rest_np(y)));
        lemma_prefix_join(w, off_sp(y), enc_str(y.style_prompt), rest_np(y));
        lemma_prefix_join(
            w,
            off_sp_lit(y),
            ",\"style_prompt\":"@,
            enc_str(y.style_prompt) + rest_np(y),
        );
        assert(prefix_at(w, off_sp_lit(y), rest_sp(y)));
        lemma_prefix_join(w, off_vp(y), enc_opt_str(y.video_prompt), rest_sp(y));
        lemma_prefix_join(
            w,
            off_vp_lit(y),
            ",\"video_prompt\":"@,
            enc_opt_str(y.video_prompt) + rest_sp(y),
        );
        assert(prefix_at(w, off_vp_lit(y), rest_vp(y)));
        lemma_prefix_join(w, off_url(y), enc_str(y.src_video_url), rest_vp(y));
        lemma_prefix_join(
            w,
            off_url_lit(y),
            ",\"src_video_url\":"@,
            enc_str(y.src_video_url) + rest_vp(y),
        );
        assert(prefix_at(w, off_url_lit(y), rest_url(y)));
        lemma_prefix_join(w, off_channel(y), dec_nat(y.channel_id as nat), rest_url(y));
        lemma_prefix_join(
            w,
            off_channel_lit(y),
            ",\"channel_id\":"@,
            dec_nat(y.channel_id as nat) + rest_url(y),
        );
        assert(prefix_at(w, off_channel_lit(y), rest_channel(y)));
        lemma_prefix_join(w, off_user(y), dec_nat(y.user_id as nat), rest_channel(y));
        lemma_prefix_join(
            w,
            off_user_lit(y),
            ",\"user_id\":"@,
            dec_nat(y.user_id as nat) + rest_channel(y),
        );
        assert(prefix_at(w, off_user_lit(y), rest_user(y)));
        lemma_prefix_join(w, off_task_id(y), enc_str(y.task_id), rest_user(y));
        lemma_prefix_join(w, 0, "{\"task_id\":"@, enc_str(y.task_id) + rest_user(y));
        assert(prefix_at(w, 0, enc_queued(y)));
        lemma_prefix_whole(w, enc_queued(y));
    }
    Some(t)
}

/// Serialize-then-deserialize is the identity on queued tasks: decoding the
/// encoder's output always succeeds and returns a task equal, field by
/// field, to the input.
pub fn codec_round_trip(t: &VideoStylizerTaskInQueue) -> (r: VideoStylizerTaskInQueue)
    ensures
        r@ == t@,
{
    let wire = encode_task_in_queue(t);
    let back = parse_task_in_queue(wire.as_str());
    match back {
        Some(u) => u,
        None => {
            proof {
                assert(wire@ == enc_queued(t@));
                assert(false);
            }
            unreached()
        },
    }
}

} // verus!
