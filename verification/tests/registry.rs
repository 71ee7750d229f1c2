use flowtext::recognition::{
    cancel_recognition, cleanup_completed_task, get_recognition_status, start_recognition,
    update_task_status, CancelError, RecognitionStatus, StartError, StatusError, TaskRegistry,
    TaskState,
};
use flowtext::json::Json;
use flowtext::job::{Job, Stage};
use flowtext::recognition::Engine;
use flowtext::video::Subtitle;

fn cue(id: &str, start: u64, end: u64, text: &str) -> Subtitle {
    Subtitle { id: id.to_string(), start_time: start, end_time: end, text: text.to_string() }
}

fn start(registry: &mut TaskRegistry, id: &str, engine: &str) -> Result<flowtext::recognition::Launch, StartError> {
    start_recognition(registry, id.to_string(), "/tmp/a.wav", engine, "zh", None, false)
}

#[test]
fn a_new_task_is_pending_without_progress() {
    let mut registry = TaskRegistry::new();
    assert!(start(&mut registry, "t1", "whisper").is_ok());
    let status = get_recognition_status(&registry, "t1").unwrap();
    assert_eq!(status.status, TaskState::Pending);
    assert_eq!(status.progress, 0);
    assert!(status.result.is_none());
    assert!(status.error.is_none());
    assert_eq!(registry.len(), 1);
    assert!(registry.contains("t1"));
}

#[test]
fn the_second_start_under_one_identifier_is_a_duplicate() {
    let mut registry = TaskRegistry::new();
    let first = start(&mut registry, "same", "whisper");
    let second = start(&mut registry, "same", "tencent");
    assert!(first.is_ok());
    assert_eq!(second.err(), Some(StartError::DuplicateTask));
    assert_eq!(registry.len(), 1);
    let other = start(&mut registry, "other", "whisper");
    assert!(other.is_ok());
    assert_eq!(registry.len(), 2);
}

#[test]
fn start_reports_the_job_of_the_engine() {
    let mut registry = TaskRegistry::new();
    let launch = start(&mut registry, "w", "whisper").unwrap();
    assert_eq!(launch.job, Job { engine: Some(Engine::Whisper), has_credentials: true, has_storage: false, stage: Stage::Queued, retries: 0, resting: false });
    let launch = start(&mut registry, "x", "sphinx").unwrap();
    assert_eq!(launch.job.engine, None);
    assert!(!launch.job.has_credentials);
    let keys = Json::Object(vec![
        ("secretId".to_string(), Json::Text("id".to_string())),
        ("secretKey".to_string(), Json::Text("key".to_string())),
    ]);
    let launch = start_recognition(&mut registry, "t".to_string(), "/a.wav", "tencent", "zh", Some(&keys), true).unwrap();
    assert_eq!(launch.job.engine, Some(Engine::Tencent));
    assert!(launch.job.has_credentials);
    assert!(launch.job.has_storage);
    let empty = Json::Object(vec![
        ("secretId".to_string(), Json::Text(String::new())),
        ("secretKey".to_string(), Json::Text("key".to_string())),
    ]);
    let launch = start_recognition(&mut registry, "u".to_string(), "/a.wav", "tencent", "zh", Some(&empty), true).unwrap();
    assert!(!launch.job.has_credentials);
}

#[test]
fn status_of_an_unknown_task_is_not_found() {
    let registry = TaskRegistry::new();
    assert_eq!(get_recognition_status(&registry, "nobody").err(), Some(StatusError::NotFound));
}

#[test]
fn update_overwrites_the_status() {
    let mut registry = TaskRegistry::new();
    start(&mut registry, "t1", "whisper").unwrap();
    update_task_status(&mut registry, "t1", TaskState::Processing, 300, None, None);
    let status = get_recognition_status(&registry, "t1").unwrap();
    assert_eq!(status.status, TaskState::Processing);
    assert_eq!(status.progress, 300);
    update_task_status(&mut registry, "t1", TaskState::Completed, 1000, Some(vec![cue("1", 0, 1000, "hi")]), None);
    let status = get_recognition_status(&registry, "t1").unwrap();
    assert_eq!(status.status, TaskState::Completed);
    assert_eq!(status.progress, 1000);
    assert_eq!(status.result.unwrap().len(), 1);
    assert!(status.error.is_none());
}

#[test]
fn update_keeps_only_what_the_state_asks_for() {
    let mut registry = TaskRegistry::new();
    start(&mut registry, "t1", "whisper").unwrap();
    update_task_status(&mut registry, "t1", TaskState::Processing, 5000, Some(vec![cue("1", 0, 1, "x")]), Some("note".to_string()));
    let status = get_recognition_status(&registry, "t1").unwrap();
    assert_eq!(status.progress, 1000);
    assert!(status.result.is_none());
    assert!(status.error.is_none());
    assert!(status.is_well_formed());
    update_task_status(&mut registry, "t1", TaskState::Failed, 0, None, None);
    let status = get_recognition_status(&registry, "t1").unwrap();
    assert_eq!(status.error, Some(String::new()));
    update_task_status(&mut registry, "t1", TaskState::Completed, 1000, None, None);
    let status = get_recognition_status(&registry, "t1").unwrap();
    assert_eq!(status.result.map(|c| c.len()), Some(0));
}

#[test]
fn update_of_an_unknown_task_changes_nothing() {
    let mut registry = TaskRegistry::new();
    start(&mut registry, "t1", "whisper").unwrap();
    update_task_status(&mut registry, "gone", TaskState::Failed, 0, None, Some("e".to_string()));
    assert_eq!(registry.len(), 1);
    assert_eq!(get_recognition_status(&registry, "t1").unwrap().status, TaskState::Pending);
}

#[test]
fn cancel_sends_one_signal_and_can_be_asked_once() {
    let mut registry = TaskRegistry::new();
    let mut launch = start(&mut registry, "t1", "whisper").unwrap();
    assert!(launch.cancel_receiver.try_recv().is_err());
    assert_eq!(cancel_recognition(&mut registry, "t1"), Ok(()));
    assert!(launch.cancel_receiver.try_recv().is_ok());
    assert_eq!(cancel_recognition(&mut registry, "t1"), Err(CancelError::AlreadyCancelled));
    assert_eq!(get_recognition_status(&registry, "t1").unwrap().status, TaskState::Pending);
}

#[test]
fn cancel_of_an_unknown_task_is_not_found() {
    let mut registry = TaskRegistry::new();
    assert_eq!(cancel_recognition(&mut registry, "nobody"), Err(CancelError::NotFound));
}

#[test]
fn cancel_after_the_end_leaves_the_status() {
    let mut registry = TaskRegistry::new();
    let _launch = start(&mut registry, "t1", "whisper").unwrap();
    update_task_status(&mut registry, "t1", TaskState::Completed, 1000, Some(vec![cue("1", 0, 1, "x")]), None);
    assert_eq!(cancel_recognition(&mut registry, "t1"), Ok(()));
    let status = get_recognition_status(&registry, "t1").unwrap();
    assert_eq!(status.status, TaskState::Completed);
    assert_eq!(status.result.unwrap().len(), 1);
}

#[test]
fn cleanup_removes_only_tasks_that_have_ended() {
    let mut registry = TaskRegistry::new();
    start(&mut registry, "live", "whisper").unwrap();
    start(&mut registry, "done", "whisper").unwrap();
    start(&mut registry, "failed", "whisper").unwrap();
    start(&mut registry, "stopped", "whisper").unwrap();
    update_task_status(&mut registry, "live", TaskState::Processing, 500, None, None);
    update_task_status(&mut registry, "done", TaskState::Completed, 1000, Some(vec![]), None);
    update_task_status(&mut registry, "failed", TaskState::Failed, 0, None, Some("e".to_string()));
    update_task_status(&mut registry, "stopped", TaskState::Cancelled, 0, None, None);
    cleanup_completed_task(&mut registry, "live");
    cleanup_completed_task(&mut registry, "done");
    cleanup_completed_task(&mut registry, "failed");
    cleanup_completed_task(&mut registry, "stopped");
    cleanup_completed_task(&mut registry, "nobody");
    assert_eq!(registry.len(), 1);
    assert!(registry.contains("live"));
    assert!(!registry.contains("done"));
    assert_eq!(get_recognition_status(&registry, "done").err(), Some(StatusError::NotFound));
}

#[test]
fn remove_deletes_whatever_the_state() {
    let mut registry = TaskRegistry::new();
    start(&mut registry, "a", "whisper").unwrap();
    start(&mut registry, "b", "whisper").unwrap();
    start(&mut registry, "c", "whisper").unwrap();
    registry.remove("b");
    assert_eq!(registry.len(), 2);
    assert!(registry.contains("a"));
    assert!(registry.contains("c"));
    registry.remove("b");
    assert_eq!(registry.len(), 2);
    assert!(start(&mut registry, "b", "whisper").is_ok());
}

#[test]
fn status_constructors_hold_what_their_state_asks_for() {
    assert!(RecognitionStatus::pending().is_well_formed());
    assert!(RecognitionStatus::processing(250).is_well_formed());
    assert_eq!(RecognitionStatus::processing(2500).progress, 1000);
    assert!(RecognitionStatus::completed(vec![]).is_well_formed());
    assert!(RecognitionStatus::failed(0, "e".to_string()).is_well_formed());
    assert!(RecognitionStatus::cancelled(0).is_well_formed());
    let failed = RecognitionStatus::failed(505, "e".to_string());
    assert_eq!((failed.status, failed.progress, failed.error.as_deref()), (TaskState::Failed, 505, Some("e")));
    assert_eq!(RecognitionStatus::failed(5000, "e".to_string()).progress, 1000);
    let cancelled = RecognitionStatus::cancelled(300);
    assert_eq!((cancelled.status, cancelled.progress), (TaskState::Cancelled, 300));
    assert_eq!(RecognitionStatus::cancelled(1001).progress, 1000);
    let broken = RecognitionStatus { status: TaskState::Completed, progress: 10, result: None, error: None };
    assert!(!broken.is_well_formed());
    let copy = RecognitionStatus::completed(vec![cue("1", 1, 2, "x")]).copy();
    assert_eq!(copy.result.unwrap()[0].text, "x");
}
