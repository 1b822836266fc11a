use omni_bot_rs::codec::{encode_task_in_queue, parse_task_in_queue};
use omni_bot_rs::schemas::{TaskStatus, VideoStylizerTaskInQueue};
use omni_bot_rs::worker::{
    build_backend_request, encode_request, i64_to_string, parse_response_body, worker_complete,
    worker_receive, BackendOutcome, CompletionStep, WorkerStep,
};

fn pending_task() -> VideoStylizerTaskInQueue {
    VideoStylizerTaskInQueue {
        task_id: "task-1".to_owned(),
        user_id: 11,
        channel_id: 22,
        src_video_url: "https://cdn.example/in.mp4".to_owned(),
        video_prompt: None,
        style_prompt: "<cyberpunk>".to_owned(),
        negative_prompt: None,
        max_keyframes: None,
        seed: 77,
        status: TaskStatus::Pending,
        result: None,
    }
}

#[test]
fn pending_message_becomes_backend_request() {
    let t = pending_task();
    let wire = encode_task_in_queue(&t);
    match worker_receive(&wire) {
        WorkerStep::Dispatch { task, request_payload } => {
            assert_eq!(task.task_id, "task-1");
            // absent prompts become empty strings, the absent bound becomes -1
            assert_eq!(
                request_payload,
                "{\"videoname\":\"https://cdn.example/in.mp4\",\"video_prompt\":\"\",\
                 \"style_prompt\":\"<cyberpunk>\",\"n_prompt\":\"\",\"max_keyframe\":-1,\
                 \"seed\":77}"
            );
        }
        WorkerStep::Discard => panic!("a canonical payload must dispatch"),
    }
}

#[test]
fn malformed_message_is_discarded() {
    assert!(matches!(worker_receive("{{nonsense"), WorkerStep::Discard));
}

#[test]
fn request_normalizes_present_fields_too() {
    let mut t = pending_task();
    t.video_prompt = Some("vp".to_owned());
    t.negative_prompt = Some("np".to_owned());
    t.max_keyframes = Some(9);
    let r = build_backend_request(&t);
    assert_eq!(r.videoname, "https://cdn.example/in.mp4");
    assert_eq!(r.video_prompt, "vp");
    assert_eq!(r.n_prompt, "np");
    assert_eq!(r.max_keyframe, 9);
    assert_eq!(r.seed, 77);
    let body = encode_request(&r);
    assert!(body.contains("\"max_keyframe\":9"));
}

#[test]
fn signed_rendering() {
    assert_eq!(i64_to_string(-1), "-1");
    assert_eq!(i64_to_string(0), "0");
    assert_eq!(i64_to_string(9007199254740993), "9007199254740993");
    assert_eq!(i64_to_string(i64::MIN), "-9223372036854775808");
}

#[test]
fn success_reply_parses_with_and_without_space() {
    let b = parse_response_body("{\"output_path\": \"/out/1.mp4\"}").unwrap();
    assert_eq!(b.output_path, "/out/1.mp4");
    let b2 = parse_response_body("{\"output_path\":\"/out/1.mp4\"}").unwrap();
    assert_eq!(b2.output_path, "/out/1.mp4");
    assert!(parse_response_body("{\"error\": \"boom\"}").is_none());
    assert!(parse_response_body("").is_none());
}

#[test]
fn http_success_yields_completed_message() {
    let t = pending_task();
    let outcome = BackendOutcome::Reply { body: "{\"output_path\": \"/out/1.mp4\"}".to_owned() };
    match worker_complete(t, outcome) {
        CompletionStep::PublishAndAck { queue, payload, task } => {
            assert_eq!(queue, "completedVideoStylizerTasks");
            assert!(task.status == TaskStatus::Completed);
            assert_eq!(task.result.as_deref(), Some("/out/1.mp4"));
            assert_eq!(task.task_id, "task-1");
            assert_eq!(task.seed, 77);
            let back = parse_task_in_queue(&payload).unwrap();
            assert!(back.status == TaskStatus::Completed);
            assert_eq!(back.result.as_deref(), Some("/out/1.mp4"));
        }
        CompletionStep::Nack { .. } => panic!("a reply must publish, not requeue"),
    }
}

#[test]
fn unparsable_reply_yields_exactly_one_failed_message() {
    let t = pending_task();
    let outcome = BackendOutcome::Reply { body: "internal server error".to_owned() };
    match worker_complete(t, outcome) {
        CompletionStep::PublishAndAck { queue, payload, task } => {
            assert_eq!(queue, "completedVideoStylizerTasks");
            assert!(task.status == TaskStatus::Failed);
            let detail = task.result.expect("a failed task carries its error detail");
            assert!(!detail.is_empty());
            // the published payload is that one message
            let back = parse_task_in_queue(&payload).unwrap();
            assert!(back.status == TaskStatus::Failed);
            assert_eq!(back.task_id, "task-1");
        }
        CompletionStep::Nack { .. } => {
            panic!("a deterministic rejection is reported, not retried")
        }
    }
}

#[test]
fn transport_failure_requeues_and_publishes_nothing() {
    let t = pending_task();
    match worker_complete(t, BackendOutcome::TransportFailure) {
        CompletionStep::Nack { requeue } => assert!(requeue),
        CompletionStep::PublishAndAck { .. } => {
            panic!("no completed message may be produced for a transport failure")
        }
    }
}
