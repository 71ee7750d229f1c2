use flowtext::job::{
    decide, Decision, Failure, FailureKind, Job, Order, Record, Reply, Signal, Stage,
    MAX_ATTEMPTS, MAX_RETRIES, STEP_BOUND, UPLOAD_THRESHOLD,
};
use flowtext::recognition::{
    advance_task, advance_with, get_recognition_status, start_recognition, Engine, TaskRegistry,
    TaskState,
};
use flowtext::replies::{read_reply, ReplyKind};
use flowtext::json::Json;
use flowtext::video::Subtitle;

fn tencent(has_storage: bool) -> Job {
    Job::new(Some(Engine::Tencent), true, has_storage)
}

fn step(job: Job, signal: Signal) -> Decision {
    decide(job, signal, false)
}

fn begin(job: Job) -> Decision {
    let d = decide(job, Signal::Nothing, false);
    assert_eq!(d.order, Order::Proceed);
    assert_eq!(d.record, Record::Progress(0));
    decide(d.job, Signal::Nothing, false)
}

fn keys() -> Json {
    Json::Object(vec![
        ("secretId".to_string(), Json::Text("id".to_string())),
        ("secretKey".to_string(), Json::Text("key".to_string())),
    ])
}

#[test]
fn whisper_runs_the_tool_where_it_is_found() {
    let job = Job::new(Some(Engine::Whisper), true, false);
    let d = begin(job);
    assert_eq!(d.order, Order::ProbeTool);
    assert_eq!(d.record, Record::Progress(100));
    let d = step(d.job, Signal::Found(true));
    assert_eq!(d.order, Order::RunTool);
    assert_eq!(d.record, Record::Progress(500));
    let d = step(d.job, Signal::Cues);
    assert_eq!(d.order, Order::Stop);
    assert_eq!(d.record, Record::Completed);
    assert!(d.job.is_finished());
}

#[test]
fn whisper_falls_back_to_the_script_and_then_to_guidance() {
    let job = Job::new(Some(Engine::Whisper), true, false);
    let d = begin(job);
    let d = step(d.job, Signal::Found(false));
    assert_eq!(d.order, Order::ProbeScript);
    let scripted = step(d.job, Signal::Found(true));
    assert_eq!(scripted.order, Order::RunScript);
    let missing = step(scripted.job, Signal::ToolMissing);
    assert_eq!(missing.record, Record::Guidance);
    assert!(missing.job.is_finished());
    let none = step(d.job, Signal::Found(false));
    assert_eq!(none.record, Record::Guidance);
    assert_eq!(none.order, Order::Stop);
}

#[test]
fn a_tool_failure_that_is_no_missing_tool_fails_the_task() {
    let job = Job { stage: Stage::RunTool, ..Job::new(Some(Engine::Whisper), true, false) };
    let d = step(job, Signal::Permanent);
    assert_eq!(d.record, Record::Failed(Failure::Reported));
    assert!(d.job.is_finished());
}

#[test]
fn engines_without_backend_or_credentials_fail_at_once() {
    let d = step(Job::new(None, false, false), Signal::Nothing);
    assert_eq!(d.record, Record::Failed(Failure::NoBackend));
    let d = step(Job::new(Some(Engine::Google), true, false), Signal::Nothing);
    assert_eq!(d.record, Record::Failed(Failure::NoBackend));
    let d = step(Job::new(Some(Engine::Aliyun), true, false), Signal::Nothing);
    assert_eq!(d.record, Record::Failed(Failure::NoBackend));
    let d = step(Job::new(Some(Engine::Tencent), false, true), Signal::Nothing);
    assert_eq!(d.record, Record::Failed(Failure::Configuration));
    assert_eq!(d.order, Order::Stop);
    let d = step(Job::new(Some(Engine::Baidu), false, false), Signal::Nothing);
    assert_eq!(d.record, Record::Failed(Failure::Configuration));
}

#[test]
fn audio_just_under_the_threshold_is_sent_along() {
    let d = begin(tencent(true));
    assert_eq!(d.order, Order::ReadAudio);
    let d = step(d.job, Signal::Number(UPLOAD_THRESHOLD - 1));
    assert_eq!(d.order, Order::CreateTask);
    assert_eq!(d.record, Record::Progress(300));
    assert_eq!(d.job.stage, Stage::Create { by_url: false });
}

#[test]
fn audio_at_the_threshold_is_uploaded_once_before_the_submission() {
    let d = begin(tencent(true));
    let d = step(d.job, Signal::Number(UPLOAD_THRESHOLD));
    assert_eq!(d.order, Order::Upload);
    assert_eq!(d.record, Record::Progress(400));
    let d = step(d.job, Signal::Text);
    assert_eq!(d.order, Order::CreateTaskByUrl);
    assert_eq!(d.record, Record::Progress(700));
    let mut job = d.job;
    let mut uploads = 0;
    let d = step(job, Signal::Number(7));
    job = d.job;
    for _ in 0..200 {
        let d = step(job, Signal::Working);
        if d.order == Order::Upload {
            uploads += 1;
        }
        job = step(d.job, Signal::Nothing).job;
    }
    assert_eq!(uploads, 0);
    assert!(job.is_finished());
}

#[test]
fn large_audio_without_storage_is_too_large() {
    let d = begin(tencent(false));
    let d = step(d.job, Signal::Number(UPLOAD_THRESHOLD + 1));
    assert_eq!(d.record, Record::Failed(Failure::TooLarge));
    assert_eq!(d.order, Order::Stop);
}

#[test]
fn polling_stops_with_a_timeout_after_the_last_query() {
    let mut d = step(Job { stage: Stage::Create { by_url: false }, ..tencent(false) }, Signal::Number(42));
    assert_eq!(d.order, Order::QueryTask { remote: 42, by_url: false });
    assert_eq!(d.record, Record::Progress(500));
    let mut queries = 1;
    let mut last_progress = 500;
    loop {
        d = step(d.job, Signal::Working);
        if d.job.is_finished() {
            break;
        }
        assert_eq!(d.order, Order::Sleep { seconds: 5 });
        if let Record::Progress(p) = d.record {
            assert!(p >= last_progress);
            last_progress = p;
        }
        d = step(d.job, Signal::Nothing);
        assert_eq!(d.order, Order::QueryTask { remote: 42, by_url: false });
        queries += 1;
    }
    assert_eq!(queries, MAX_ATTEMPTS);
    assert_eq!(d.record, Record::Failed(Failure::Timeout));
    assert_eq!(last_progress, 795);
}

#[test]
fn polling_by_url_pauses_ten_seconds() {
    let d = step(Job { stage: Stage::Create { by_url: true }, ..tencent(true) }, Signal::Number(9));
    assert_eq!(d.record, Record::Progress(700));
    let d = step(d.job, Signal::Working);
    assert_eq!(d.order, Order::Sleep { seconds: 10 });
    assert_eq!(d.record, Record::Progress(705));
}

#[test]
fn a_failed_network_call_is_tried_again_with_growing_pauses() {
    let mut job = Job { stage: Stage::Upload, ..tencent(true) };
    let mut pauses = Vec::new();
    loop {
        let d = step(job, Signal::Transient);
        if d.job.is_finished() {
            assert_eq!(d.record, Record::Failed(Failure::Exhausted));
            break;
        }
        match d.order {
            Order::Sleep { seconds } => pauses.push(seconds),
            other => panic!("unexpected order {:?}", other),
        }
        assert_eq!(d.record, Record::Unchanged);
        let again = step(d.job, Signal::Nothing);
        assert_eq!(again.order, Order::Upload);
        assert_eq!(again.record, Record::Unchanged);
        job = again.job;
    }
    assert_eq!(pauses, vec![1, 2, 4]);
    assert_eq!(pauses.len() as u32, MAX_RETRIES);
}

#[test]
fn a_permanent_failure_is_not_tried_again() {
    let d = step(Job { stage: Stage::Upload, ..tencent(true) }, Signal::Permanent);
    assert_eq!(d.record, Record::Failed(Failure::Reported));
    let d = step(Job { stage: Stage::ReadAudio, ..tencent(true) }, Signal::Transient);
    assert_eq!(d.record, Record::Failed(Failure::Reported));
}

#[test]
fn a_report_that_does_not_fit_the_stage_ends_the_task() {
    let d = step(Job { stage: Stage::Upload, ..tencent(true) }, Signal::Found(true));
    assert_eq!(d.record, Record::Failed(Failure::Unexpected));
    let invalid = Job { retries: 9, stage: Stage::Upload, ..tencent(true) };
    assert!(!invalid.is_valid());
    let d = step(invalid, Signal::Text);
    assert_eq!(d.record, Record::Failed(Failure::Unexpected));
    assert!(d.job.is_valid());
}

#[test]
fn every_task_ends_even_if_every_call_fails() {
    for engine in [None, Some(Engine::Whisper), Some(Engine::Tencent), Some(Engine::Aliyun), Some(Engine::Baidu), Some(Engine::Google)] {
        for signal in [Signal::Transient, Signal::Permanent, Signal::Working, Signal::Nothing, Signal::Number(UPLOAD_THRESHOLD), Signal::Number(1), Signal::Text, Signal::Found(false)] {
            let mut job = Job::new(engine, true, true);
            let mut d = decide(job, Signal::Nothing, false);
            job = d.job;
            let mut steps = 1;
            while !job.is_finished() {
                d = decide(job, signal, false);
                if d.job.is_finished() {
                    job = d.job;
                    steps += 1;
                    break;
                }
                job = match d.order {
                    Order::Sleep { .. } => {
                        steps += 1;
                        decide(d.job, Signal::Nothing, false).job
                    }
                    _ => d.job,
                };
                steps += 1;
                assert!(steps <= STEP_BOUND, "too many steps");
            }
            assert!(steps <= STEP_BOUND);
        }
    }
}

#[test]
fn the_baidu_course_reads_fetches_and_recognises() {
    let job = Job::new(Some(Engine::Baidu), true, false);
    let d = begin(job);
    assert_eq!(d.order, Order::ReadAudio);
    let d = step(d.job, Signal::Number(UPLOAD_THRESHOLD * 3));
    assert_eq!(d.order, Order::FetchToken);
    assert_eq!(d.record, Record::Progress(300));
    let d = step(d.job, Signal::Text);
    assert_eq!(d.order, Order::Recognize);
    assert_eq!(d.record, Record::Progress(500));
    let d = step(d.job, Signal::Cues);
    assert_eq!(d.record, Record::Completed);
}

#[test]
fn cancel_before_the_first_command_cancels_the_task() {
    let d = decide(tencent(true), Signal::Nothing, true);
    assert_eq!(d.record, Record::Cancelled);
    assert_eq!(d.order, Order::Stop);
    assert!(d.job.is_finished());
    let d = decide(Job { stage: Stage::Query { by_url: false, remote: 1, attempts: 3 }, ..tencent(true) }, Signal::Cues, true);
    assert_eq!(d.record, Record::Cancelled);
}

#[test]
fn cancel_after_the_end_changes_nothing() {
    let done = Job { stage: Stage::Finished, ..tencent(true) };
    let d = decide(done, Signal::Cues, true);
    assert_eq!(d.record, Record::Unchanged);
    assert_eq!(d.order, Order::Stop);
    assert_eq!(d.job, done);
}

#[test]
fn three_megabytes_are_submitted_directly_and_complete_on_the_third_query() {
    let mut registry = TaskRegistry::new();
    let keys = keys();
    let launch = start_recognition(&mut registry, "talk".to_string(), "/tmp/talk.wav", "tencent", "zh", Some(&keys), true).unwrap();
    let mut orders = Vec::new();
    let mut progress = Vec::new();
    let mut record = |registry: &TaskRegistry| {
        get_recognition_status(registry, "talk").unwrap().progress
    };
    let d = advance_task(&mut registry, "talk", launch.job, Reply::Nothing, false, "/tmp/talk.wav");
    orders.push(d.order);
    progress.push(record(&registry));
    assert_eq!(get_recognition_status(&registry, "talk").unwrap().status, TaskState::Processing);
    let d = advance_task(&mut registry, "talk", d.job, Reply::Nothing, false, "/tmp/talk.wav");
    orders.push(d.order);
    progress.push(record(&registry));
    let d = advance_task(&mut registry, "talk", d.job, Reply::Number(3 * 1024 * 1024), false, "/tmp/talk.wav");
    orders.push(d.order);
    progress.push(record(&registry));
    let created = read_reply(ReplyKind::Creation { length: 3 * 1024 * 1024 }, r#"{"Response":{"Data":{"TaskId":1234},"RequestId":"r"}}"#);
    let mut d = advance_task(&mut registry, "talk", d.job, created, false, "/tmp/talk.wav");
    orders.push(d.order);
    progress.push(record(&registry));
    let waiting = r#"{"Response":{"Data":{"TaskId":1234,"StatusStr":"waiting"}}}"#;
    let doing = r#"{"Response":{"Data":{"TaskId":1234,"StatusStr":"doing"}}}"#;
    let success = r#"{"Response":{"Data":{"TaskId":1234,"StatusStr":"success","Result":"{\"Result\":[{\"Text\":\" 你好。 \",\"StartTime\":0,\"EndTime\":1500},{\"Text\":\"再见\",\"StartTime\":1500,\"EndTime\":3200}]}"}}}"#;
    for body in [waiting, doing] {
        d = advance_task(&mut registry, "talk", d.job, read_reply(ReplyKind::Poll, body), false, "/tmp/talk.wav");
        orders.push(d.order);
        progress.push(record(&registry));
        assert_eq!(get_recognition_status(&registry, "talk").unwrap().status, TaskState::Processing);
        d = advance_task(&mut registry, "talk", d.job, Reply::Nothing, false, "/tmp/talk.wav");
        orders.push(d.order);
        progress.push(record(&registry));
    }
    d = advance_task(&mut registry, "talk", d.job, read_reply(ReplyKind::Poll, success), false, "/tmp/talk.wav");
    orders.push(d.order);
    progress.push(record(&registry));
    assert_eq!(
        orders,
        vec![
            Order::Proceed,
            Order::ReadAudio,
            Order::CreateTask,
            Order::QueryTask { remote: 1234, by_url: false },
            Order::Sleep { seconds: 5 },
            Order::QueryTask { remote: 1234, by_url: false },
            Order::Sleep { seconds: 5 },
            Order::QueryTask { remote: 1234, by_url: false },
            Order::Stop,
        ]
    );
    assert_eq!(progress, vec![0, 100, 300, 500, 505, 505, 510, 510, 1000]);
    let status = get_recognition_status(&registry, "talk").unwrap();
    assert_eq!(status.status, TaskState::Completed);
    assert!(status.error.is_none());
    let cues: Vec<Subtitle> = status.result.unwrap();
    assert_eq!(cues.len(), 2);
    assert_eq!((cues[0].id.as_str(), cues[0].start_time, cues[0].end_time, cues[0].text.as_str()), ("1", 0, 1500, "你好。"));
    assert_eq!((cues[1].id.as_str(), cues[1].start_time, cues[1].end_time, cues[1].text.as_str()), ("2", 1500, 3200, "再见"));
    assert!(d.job.is_finished());
}

#[test]
fn a_remote_failure_fails_the_task_with_the_reason() {
    let mut registry = TaskRegistry::new();
    let keys = keys();
    let launch = start_recognition(&mut registry, "t".to_string(), "/a.wav", "tencent", "zh", Some(&keys), false).unwrap();
    let job = Job { stage: Stage::Query { by_url: false, remote: 5, attempts: 2 }, ..launch.job };
    let failed = read_reply(ReplyKind::Poll, r#"{"Response":{"Data":{"StatusStr":"failed","ErrorMsg":"audio decode error"}}}"#);
    let d = advance_task(&mut registry, "t", job, failed, false, "/a.wav");
    assert_eq!(d.record, Record::Failed(Failure::Reported));
    let status = get_recognition_status(&registry, "t").unwrap();
    assert_eq!(status.status, TaskState::Failed);
    assert_eq!(status.progress, 0);
    assert_eq!(status.error.unwrap(), "录音文件识别失败: audio decode error");
    assert!(status.result.is_none());
}

#[test]
fn a_task_that_fails_or_is_cancelled_keeps_its_progress() {
    let mut registry = TaskRegistry::new();
    let keys = keys();
    let launch = start_recognition(&mut registry, "f".to_string(), "/a.wav", "tencent", "zh", Some(&keys), false).unwrap();
    let mut d = advance_task(&mut registry, "f", launch.job, Reply::Nothing, false, "/a.wav");
    d = advance_task(&mut registry, "f", d.job, Reply::Nothing, false, "/a.wav");
    d = advance_task(&mut registry, "f", d.job, Reply::Number(1024), false, "/a.wav");
    assert_eq!(registry.progress("f"), 300);
    d = advance_task(&mut registry, "f", d.job, Reply::Number(9), false, "/a.wav");
    assert_eq!(registry.progress("f"), 500);
    let failed = Reply::Failed { kind: FailureKind::Remote, message: "no".to_string() };
    d = advance_task(&mut registry, "f", d.job, failed, false, "/a.wav");
    assert!(d.job.is_finished());
    let status = get_recognition_status(&registry, "f").unwrap();
    assert_eq!((status.status, status.progress), (TaskState::Failed, 500));

    let launch = start_recognition(&mut registry, "g".to_string(), "/a.wav", "tencent", "zh", Some(&keys), false).unwrap();
    let mut d = advance_task(&mut registry, "g", launch.job, Reply::Nothing, false, "/a.wav");
    d = advance_task(&mut registry, "g", d.job, Reply::Nothing, false, "/a.wav");
    d = advance_task(&mut registry, "g", d.job, Reply::Number(1024), false, "/a.wav");
    assert_eq!(registry.progress("g"), 300);
    d = advance_task(&mut registry, "g", d.job, Reply::Number(9), true, "/a.wav");
    assert_eq!(d.record, Record::Cancelled);
    let status = get_recognition_status(&registry, "g").unwrap();
    assert_eq!((status.status, status.progress), (TaskState::Cancelled, 300));
    assert_eq!(registry.progress("nobody"), 0);
}

#[test]
fn guidance_names_the_file_and_says_what_it_is() {
    let mut registry = TaskRegistry::new();
    let launch = start_recognition(&mut registry, "w".to_string(), "/tmp/talk.wav", "whisper", "zh", None, false).unwrap();
    let job = Job { stage: Stage::ProbeScript, ..launch.job };
    let d = advance_with(&mut registry, "w", job, Reply::Found(false), false, "talk");
    assert_eq!(d.record, Record::Guidance);
    let status = get_recognition_status(&registry, "w").unwrap();
    assert_eq!(status.status, TaskState::Completed);
    let cues = status.result.unwrap();
    assert_eq!(cues.len(), 5);
    assert_eq!(cues[0].text, "正在处理文件: talk - Whisper未安装");
    assert_eq!(cues[4].text, "当前显示的是安装指导信息，不是真实识别结果");
    assert_eq!((cues[4].start_time, cues[4].end_time), (24000, 30000));
}

#[test]
fn cancel_is_recorded_as_cancelled() {
    let mut registry = TaskRegistry::new();
    let launch = start_recognition(&mut registry, "c".to_string(), "/a.wav", "whisper", "zh", None, false).unwrap();
    let d = advance_task(&mut registry, "c", launch.job, Reply::Nothing, true, "/a.wav");
    assert!(d.job.is_finished());
    let status = get_recognition_status(&registry, "c").unwrap();
    assert_eq!(status.status, TaskState::Cancelled);
    assert!(status.result.is_none());
    assert!(status.error.is_none());
    let d = advance_task(&mut registry, "c", d.job, Reply::Cues(vec![]), false, "/a.wav");
    assert_eq!(d.record, Record::Unchanged);
    assert_eq!(get_recognition_status(&registry, "c").unwrap().status, TaskState::Cancelled);
}

#[test]
fn failures_have_their_diagnostics() {
    let mut registry = TaskRegistry::new();
    let launch = start_recognition(&mut registry, "a".to_string(), "/a.wav", "tencent", "zh", None, false).unwrap();
    advance_task(&mut registry, "a", launch.job, Reply::Nothing, false, "/a.wav");
    assert_eq!(get_recognition_status(&registry, "a").unwrap().error.unwrap(), "腾讯云API密钥未配置");
    let launch = start_recognition(&mut registry, "b".to_string(), "/a.wav", "nothing", "zh", None, false).unwrap();
    advance_task(&mut registry, "b", launch.job, Reply::Nothing, false, "/a.wav");
    assert_eq!(get_recognition_status(&registry, "b").unwrap().error.unwrap(), "不支持的识别引擎");
    let keys = keys();
    let launch = start_recognition(&mut registry, "c".to_string(), "/a.wav", "tencent", "zh", Some(&keys), false).unwrap();
    let job = Job { stage: Stage::ReadAudio, ..launch.job };
    advance_task(&mut registry, "c", job, Reply::Number(6 * 1024 * 1024), false, "/a.wav");
    let message = get_recognition_status(&registry, "c").unwrap().error.unwrap();
    assert!(message.starts_with("音频文件较大 (6.0 MB)"));
    assert!(message.ends_with("当前文件: 6.0 MB，请配置COS或使用Whisper本地识别。"));
    let launch = start_recognition(&mut registry, "d".to_string(), "/a.wav", "tencent", "zh", Some(&keys), true).unwrap();
    let job = Job { stage: Stage::Upload, retries: MAX_RETRIES, ..launch.job };
    let reply = Reply::Failed { kind: FailureKind::Transient, message: "connection refused".to_string() };
    advance_task(&mut registry, "d", job, reply, false, "/a.wav");
    let message = get_recognition_status(&registry, "d").unwrap().error.unwrap();
    assert!(message.starts_with("网络连接失败，已多次重试: connection refused"));
    assert!(message.contains("Whisper本地识别"));
}
