use omni_bot_rs::codec::parse_task_in_queue;
use omni_bot_rs::producer::{
    build_creation, plan_after_persist, resolve_seed, style_token, ProducerFollowUp, StyleChoice,
};
use omni_bot_rs::schemas::TaskStatus;

const MIB: u64 = 1024 * 1024;

#[test]
fn oversized_media_is_rejected_with_no_task() {
    // 9 MiB against an 8 MiB ceiling: rejected immediately.
    let r = build_creation(
        1,
        2,
        "https://cdn.example/v.mp4".to_owned(),
        9 * MIB,
        8 * MIB,
        &StyleChoice::Cyberpunk,
        None,
        None,
        None,
        Some(3),
    );
    match r {
        Err(msg) => {
            assert_eq!(msg, "> File size too large. Max file size is **8MB**.");
        }
        Ok(_) => panic!("a 9 MiB upload must not pass an 8 MiB ceiling"),
    }
}

#[test]
fn media_at_the_ceiling_passes() {
    let r = build_creation(
        1,
        2,
        "https://cdn.example/v.mp4".to_owned(),
        64 * MIB,
        64 * MIB,
        &StyleChoice::OilPainting,
        Some("prompt".to_owned()),
        Some("neg".to_owned()),
        Some(2),
        Some(99),
    );
    let t = r.expect("media at the ceiling is accepted");
    assert_eq!(t.user_id, 1);
    assert_eq!(t.channel_id, 2);
    assert_eq!(t.src_video_url, "https://cdn.example/v.mp4");
    assert_eq!(t.video_prompt.as_deref(), Some("prompt"));
    assert_eq!(t.style_prompt, "<oil painting>");
    assert_eq!(t.negative_prompt.as_deref(), Some("neg"));
    assert_eq!(t.max_keyframes, Some(2));
    assert_eq!(t.seed, 99);
}

#[test]
fn omitted_seed_is_assigned_and_carried_unchanged() {
    let t = build_creation(
        1,
        2,
        "u".to_owned(),
        MIB,
        8 * MIB,
        &StyleChoice::PaperArt,
        None,
        None,
        None,
        None,
    )
    .unwrap();
    assert!(t.seed < 65536);
    let seed = t.seed;
    // Creation -> queued -> wire -> back -> terminal message: the seed never changes.
    let queued = t.with_task_id("id-1".to_owned());
    assert_eq!(queued.seed, seed);
    let follow = plan_after_persist(
        build_creation(
            1,
            2,
            "u".to_owned(),
            MIB,
            8 * MIB,
            &StyleChoice::PaperArt,
            None,
            None,
            None,
            Some(seed),
        )
        .unwrap(),
        Ok("id-1".to_owned()),
    );
    match follow {
        ProducerFollowUp::Publish { payload, .. } => {
            let on_wire = parse_task_in_queue(&payload).unwrap();
            assert_eq!(on_wire.seed, seed);
            let done = on_wire.with_result(TaskStatus::Completed, "/out/x.mp4".to_owned());
            assert_eq!(done.seed, seed);
        }
        ProducerFollowUp::ReportFailure { .. } => panic!("persistence succeeded"),
    }
}

#[test]
fn explicit_seed_is_kept() {
    assert_eq!(resolve_seed(Some(31337)), 31337);
}

#[test]
fn publish_follows_successful_persistence() {
    let t = build_creation(
        10,
        20,
        "https://cdn.example/a.mp4".to_owned(),
        MIB,
        8 * MIB,
        &StyleChoice::ChinesePainting,
        None,
        None,
        Some(4),
        Some(5),
    )
    .unwrap();
    match plan_after_persist(t, Ok("abc123".to_owned())) {
        ProducerFollowUp::Publish { queue, payload, reply } => {
            assert_eq!(queue, "pendingVideoStylizerTasks");
            assert_eq!(
                reply,
                "> We are working on your video. We will notify you when it is ready. \
                 Task ID: **abc123.**"
            );
            let q = parse_task_in_queue(&payload).unwrap();
            assert_eq!(q.task_id, "abc123");
            assert_eq!(q.user_id, 10);
            assert_eq!(q.channel_id, 20);
            assert_eq!(q.src_video_url, "https://cdn.example/a.mp4");
            assert_eq!(q.style_prompt, "<chinese painting>");
            assert_eq!(q.max_keyframes, Some(4));
            assert_eq!(q.seed, 5);
            assert!(q.status == TaskStatus::Pending);
            assert_eq!(q.result, None);
        }
        ProducerFollowUp::ReportFailure { .. } => panic!("persistence succeeded"),
    }
}

#[test]
fn persistence_failure_publishes_nothing() {
    let t = build_creation(
        1,
        2,
        "u".to_owned(),
        MIB,
        8 * MIB,
        &StyleChoice::ClayLook,
        None,
        None,
        None,
        Some(1),
    )
    .unwrap();
    match plan_after_persist(t, Err("connection refused".to_owned())) {
        ProducerFollowUp::ReportFailure { reply } => {
            assert_eq!(
                reply,
                "> Failed to create video stylization task. Error: connection refused"
            );
        }
        ProducerFollowUp::Publish { .. } => {
            panic!("no message may be published for a record that failed to persist")
        }
    }
}

#[test]
fn style_choices_map_to_their_tokens() {
    assert_eq!(style_token(&StyleChoice::ChinesePainting), "<chinese painting>");
    assert_eq!(style_token(&StyleChoice::OilPainting), "<oil painting>");
    assert_eq!(style_token(&StyleChoice::Cyberpunk), "<cyberpunk>");
    assert_eq!(style_token(&StyleChoice::Cartoon3D), "<3d cartoon>");
    assert_eq!(style_token(&StyleChoice::JapaneseAnimation), "<japanese animation>");
    assert_eq!(style_token(&StyleChoice::PaperArt), "<paper art>");
    assert_eq!(style_token(&StyleChoice::ClayLook), "<clay look>");
}
