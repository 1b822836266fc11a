use omni_bot_rs::reconciler::{
    after_artifact_check, apply_status_update, artifact_filename, compose_success_notification,
    plan_notification, ArtifactFollowUp, NotificationPlan,
};
use omni_bot_rs::schemas::{TaskStatus, VideoStylizerTaskInDB, VideoStylizerTaskInQueue};

fn pending_record() -> VideoStylizerTaskInDB {
    VideoStylizerTaskInDB {
        user_id: 11,
        channel_id: 22,
        src_video_url: "https://cdn.example/in.mp4".to_owned(),
        video_prompt: Some("vp".to_owned()),
        style_prompt: "<cyberpunk>".to_owned(),
        negative_prompt: None,
        max_keyframes: Some(5),
        seed: 77,
        status: TaskStatus::Pending,
        result: None,
        created_at: 1000,
        updated_at: 1000,
    }
}

fn completed_task() -> VideoStylizerTaskInQueue {
    VideoStylizerTaskInQueue {
        task_id: "task-1".to_owned(),
        user_id: 11,
        channel_id: 22,
        src_video_url: "https://cdn.example/in.mp4".to_owned(),
        video_prompt: Some("vp".to_owned()),
        style_prompt: "<cyberpunk>".to_owned(),
        negative_prompt: None,
        max_keyframes: Some(5),
        seed: 77,
        status: TaskStatus::Completed,
        result: Some("/out/1.mp4".to_owned()),
    }
}

#[test]
fn pending_record_takes_the_terminal_write() {
    let mut rec = pending_record();
    let applied = apply_status_update(&mut rec, TaskStatus::Completed, "/out/1.mp4".to_owned(), 2000);
    assert!(applied);
    assert!(rec.status == TaskStatus::Completed);
    assert_eq!(rec.result.as_deref(), Some("/out/1.mp4"));
    assert_eq!(rec.updated_at, 2000);
    assert_eq!(rec.created_at, 1000);
    assert_eq!(rec.seed, 77);
}

#[test]
fn terminal_status_is_never_overwritten() {
    let mut rec = pending_record();
    assert!(apply_status_update(&mut rec, TaskStatus::Completed, "/out/1.mp4".to_owned(), 2000));
    // a later message with a different terminal status changes nothing
    let applied = apply_status_update(&mut rec, TaskStatus::Failed, "boom".to_owned(), 3000);
    assert!(!applied);
    assert!(rec.status == TaskStatus::Completed);
    assert_eq!(rec.result.as_deref(), Some("/out/1.mp4"));
    assert_eq!(rec.updated_at, 2000);
}

#[test]
fn duplicate_redelivery_is_harmless() {
    let mut rec = pending_record();
    assert!(apply_status_update(&mut rec, TaskStatus::Failed, "boom".to_owned(), 2000));
    let snapshot = rec.result.clone();
    assert!(!apply_status_update(&mut rec, TaskStatus::Failed, "boom".to_owned(), 4000));
    assert_eq!(rec.result, snapshot);
    assert_eq!(rec.updated_at, 2000);
}

#[test]
fn completed_task_asks_for_the_artifact_check() {
    match plan_notification(&completed_task()) {
        NotificationPlan::VerifyArtifact { path } => assert_eq!(path, "/out/1.mp4"),
        _ => panic!("a completed task with a result verifies its artifact"),
    }
}

#[test]
fn failed_task_notifies_with_the_error() {
    let mut t = completed_task();
    t.status = TaskStatus::Failed;
    t.result = Some("boom".to_owned());
    match plan_notification(&t) {
        NotificationPlan::NotifyFailure { channel_id, message } => {
            assert_eq!(channel_id, 22);
            assert_eq!(message, "> Failed to stylize your video. <@11> Error: \"boom\"");
        }
        _ => panic!("a failed task notifies the requester"),
    }
}

#[test]
fn pending_status_on_completed_queue_is_skipped() {
    let mut t = completed_task();
    t.status = TaskStatus::Pending;
    t.result = None;
    assert!(matches!(plan_notification(&t), NotificationPlan::Skip));
}

#[test]
fn retrievable_artifact_is_sent_with_composed_text() {
    let t = completed_task();
    match after_artifact_check(&t, "/out/1.mp4", true) {
        ArtifactFollowUp::Send { channel_id, filename, message } => {
            assert_eq!(channel_id, 22);
            assert_eq!(filename, "1.mp4");
            assert_eq!(
                message,
                "New generation from <@11>:\nTask: **Video Stylization**\nTask ID: task-1\
                 \nVideo Prompt: vp\nStyle Prompt: <cyberpunk>\nMax Keyframes: 5\nSeed: 77"
            );
        }
        ArtifactFollowUp::Skip => panic!("a retrievable artifact is sent"),
    }
}

#[test]
fn missing_artifact_is_skipped_without_crashing() {
    let t = completed_task();
    assert!(matches!(after_artifact_check(&t, "/out/1.mp4", false), ArtifactFollowUp::Skip));
}

#[test]
fn filename_is_the_path_tail() {
    assert_eq!(artifact_filename("/out/1.mp4"), "1.mp4");
    assert_eq!(artifact_filename("plain.mp4"), "plain.mp4");
    assert_eq!(artifact_filename("/a/b/c"), "c");
    assert_eq!(artifact_filename("dir/"), "");
}

#[test]
fn success_text_lists_only_present_fields() {
    let mut t = completed_task();
    t.video_prompt = None;
    t.max_keyframes = None;
    t.negative_prompt = Some("np".to_owned());
    let msg = compose_success_notification(&t);
    assert_eq!(
        msg,
        "New generation from <@11>:\nTask: **Video Stylization**\nTask ID: task-1\
         \nStyle Prompt: <cyberpunk>\nNegative Prompt: np\nSeed: 77"
    );
}
