use omni_bot_rs::schemas::{TaskStatus, VideoStylizerTaskCreation};

fn creation() -> VideoStylizerTaskCreation {
    VideoStylizerTaskCreation {
        user_id: 5,
        channel_id: 6,
        src_video_url: "https://cdn.example/v.mp4".to_owned(),
        video_prompt: Some("vp".to_owned()),
        style_prompt: "<paper art>".to_owned(),
        negative_prompt: None,
        max_keyframes: Some(8),
        seed: 1234,
    }
}

#[test]
fn creation_persists_as_pending_with_both_timestamps() {
    let rec = creation().into_db(5000);
    assert!(rec.status == TaskStatus::Pending);
    assert_eq!(rec.result, None);
    assert_eq!(rec.created_at, 5000);
    assert_eq!(rec.updated_at, 5000);
    assert_eq!(rec.user_id, 5);
    assert_eq!(rec.seed, 1234);
    assert_eq!(rec.video_prompt.as_deref(), Some("vp"));
    assert_eq!(rec.max_keyframes, Some(8));
}

#[test]
fn creation_queues_as_pending_under_the_assigned_identifier() {
    let q = creation().with_task_id("id-9".to_owned());
    assert_eq!(q.task_id, "id-9");
    assert!(q.status == TaskStatus::Pending);
    assert_eq!(q.result, None);
    assert_eq!(q.seed, 1234);
    assert_eq!(q.style_prompt, "<paper art>");
}

#[test]
fn recording_a_result_changes_only_status_and_result() {
    let q = creation().with_task_id("id-9".to_owned());
    let done = q.with_result(TaskStatus::Failed, "boom".to_owned());
    assert_eq!(done.task_id, "id-9");
    assert!(done.status == TaskStatus::Failed);
    assert_eq!(done.result.as_deref(), Some("boom"));
    assert_eq!(done.seed, 1234);
    assert_eq!(done.user_id, 5);
    assert_eq!(done.src_video_url, "https://cdn.example/v.mp4");
}

#[test]
fn queued_task_persists_with_its_terminal_state() {
    let q = creation().with_task_id("id-9".to_owned());
    let done = q.with_result(TaskStatus::Completed, "/out/z.mp4".to_owned());
    let rec = done.into_db(7000);
    assert!(rec.status == TaskStatus::Completed);
    assert_eq!(rec.result.as_deref(), Some("/out/z.mp4"));
    assert_eq!(rec.created_at, 7000);
    assert_eq!(rec.seed, 1234);
}

#[test]
fn statuses_know_which_are_terminal() {
    assert!(!TaskStatus::Pending.is_terminal());
    assert!(TaskStatus::Completed.is_terminal());
    assert!(TaskStatus::Failed.is_terminal());
}
