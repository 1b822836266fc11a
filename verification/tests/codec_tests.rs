use omni_bot_rs::codec::{codec_round_trip, encode_task_in_queue, parse_task_in_queue};
use omni_bot_rs::schemas::{TaskStatus, VideoStylizerTaskInQueue};

fn full_task() -> VideoStylizerTaskInQueue {
    VideoStylizerTaskInQueue {
        task_id: "64f0c2a9e4b0d1a2b3c4d5e6".to_owned(),
        user_id: 123456789012345678,
        channel_id: 987654321098765432,
        src_video_url: "https://cdn.example/video.mp4?sig=a\\b\"c".to_owned(),
        video_prompt: Some("a cat\nin the rain".to_owned()),
        style_prompt: "<oil painting>".to_owned(),
        negative_prompt: Some("blurry".to_owned()),
        max_keyframes: Some(12),
        seed: 4242,
        status: TaskStatus::Pending,
        result: None,
    }
}

fn minimal_task() -> VideoStylizerTaskInQueue {
    VideoStylizerTaskInQueue {
        task_id: "t".to_owned(),
        user_id: 0,
        channel_id: 1,
        src_video_url: "u".to_owned(),
        video_prompt: None,
        style_prompt: "<cyberpunk>".to_owned(),
        negative_prompt: None,
        max_keyframes: None,
        seed: 7,
        status: TaskStatus::Completed,
        result: Some("/out/1.mp4".to_owned()),
    }
}

fn assert_tasks_equal(a: &VideoStylizerTaskInQueue, b: &VideoStylizerTaskInQueue) {
    assert_eq!(a.task_id, b.task_id);
    assert_eq!(a.user_id, b.user_id);
    assert_eq!(a.channel_id, b.channel_id);
    assert_eq!(a.src_video_url, b.src_video_url);
    assert_eq!(a.video_prompt, b.video_prompt);
    assert_eq!(a.style_prompt, b.style_prompt);
    assert_eq!(a.negative_prompt, b.negative_prompt);
    assert_eq!(a.max_keyframes, b.max_keyframes);
    assert_eq!(a.seed, b.seed);
    assert!(a.status == b.status);
    assert_eq!(a.result, b.result);
}

#[test]
fn round_trip_all_fields_present() {
    let t = full_task();
    let wire = encode_task_in_queue(&t);
    let back = parse_task_in_queue(&wire).expect("canonical encoding must parse");
    assert_tasks_equal(&t, &back);
}

#[test]
fn round_trip_absent_optionals() {
    let t = minimal_task();
    let wire = encode_task_in_queue(&t);
    let back = parse_task_in_queue(&wire).expect("canonical encoding must parse");
    assert_tasks_equal(&t, &back);
}

#[test]
fn round_trip_helper_is_identity() {
    let t = full_task();
    let back = codec_round_trip(&t);
    assert_tasks_equal(&t, &back);
}

#[test]
fn encoding_is_exact_json_object() {
    let t = minimal_task();
    let wire = encode_task_in_queue(&t);
    assert_eq!(
        wire,
        "{\"task_id\":\"t\",\"user_id\":0,\"channel_id\":1,\"src_video_url\":\"u\",\
         \"video_prompt\":null,\"style_prompt\":\"<cyberpunk>\",\"negative_prompt\":null,\
         \"max_keyframes\":null,\"seed\":7,\"status\":\"completed\",\"result\":\"/out/1.mp4\"}"
    );
}

#[test]
fn quotes_and_backslashes_are_escaped() {
    let t = full_task();
    let wire = encode_task_in_queue(&t);
    assert!(wire.contains("sig=a\\\\b\\\"c"));
}

#[test]
fn each_status_token_round_trips() {
    for status in [TaskStatus::Pending, TaskStatus::Completed, TaskStatus::Failed] {
        let mut t = minimal_task();
        t.status = status;
        if status == TaskStatus::Pending {
            t.result = None;
        }
        let back = parse_task_in_queue(&encode_task_in_queue(&t)).unwrap();
        assert!(back.status == status);
    }
}

#[test]
fn garbage_does_not_parse() {
    assert!(parse_task_in_queue("").is_none());
    assert!(parse_task_in_queue("not json at all").is_none());
    assert!(parse_task_in_queue("{\"task_id\":\"x\"}").is_none());
}

#[test]
fn unknown_status_token_is_rejected() {
    let t = minimal_task();
    let wire = encode_task_in_queue(&t);
    let bad = wire.replace("\"completed\"", "\"done\"");
    assert!(parse_task_in_queue(&bad).is_none());
}

#[test]
fn trailing_bytes_are_rejected() {
    let t = minimal_task();
    let mut wire = encode_task_in_queue(&t);
    wire.push_str(" ");
    assert!(parse_task_in_queue(&wire).is_none());
}

#[test]
fn number_with_leading_zero_is_rejected() {
    let t = minimal_task();
    let wire = encode_task_in_queue(&t);
    let bad = wire.replace("\"seed\":7", "\"seed\":07");
    assert!(parse_task_in_queue(&bad).is_none());
}
