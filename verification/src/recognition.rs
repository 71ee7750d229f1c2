//! Speech recognition tasks from start to end: a task is registered, runs
//! step by step in the background, records its status after each step, and
//! can be asked to stop.

use vstd::prelude::*;
use vstd::string::*;
use crate::fallback::{display_name, lemma_guidance_well_formed, may_name, installation_guide, installation_guide_cues, one_decimal, one_decimal_text, MEGABYTE};
use crate::job::{decide, is_final_record, next, progress_after, reply_well_formed, signal_of, Decision, Failure, Job, Record, Reply, ReplyView};
use crate::json::Json;
use crate::video::{all_well_formed, cues_view, Subtitle, SubtitleView};

pub use crate::engine::{
    catalog, engine_from_name, engine_languages, engine_of, get_supported_languages,
    has_usable_credentials, languages_view, usable_credentials, validate_api_keys, Engine,
    Language, UnsupportedEngine, ValidationError,
};
pub use crate::registry::{
    after_cleanup, after_insert, after_remove, after_take, after_update, consistent, fresh_task,
    after_record, is_terminal, normal_status, normalize_status, option_cues_view,
    option_status_view, option_text_view, position,
    registered, CancelError, RecognitionStatus, RecognitionTask, StartError, StatusError,
    StatusView, TaskRegistry, TaskState, TaskView, FULL_PROGRESS,
};
use crate::registry::{cancel_channel, lemma_position, lemma_same_positions, progress_on_record, send_cancel};

verus! {

/// What the caller of [`start_recognition`] gets to run the task: the
/// task on its way, and the receiving half of its cancellation channel.
pub struct Launch {
    pub job: Job,
    pub cancel_receiver: tokio::sync::mpsc::Receiver<()>,
}

/// Registers a task and makes it ready to run. The task is pending until
/// its first step; nothing is waited for here. An identifier that is taken
/// is refused, and this is the only refusal: what is wrong with the engine
/// or its credentials shows in the status of the task once it runs.
pub fn start_recognition(
    registry: &mut TaskRegistry,
    task_id: String,
    audio_path: &str,
    engine: &str,
    language: &str,
    api_keys: Option<&Json>,
    has_storage: bool,
) -> (r: Result<Launch, StartError>)
    ensures
        final(registry)@ == after_insert(
            old(registry)@,
            fresh_task(task_id@, audio_path@, engine@, language@),
        ),
        consistent(final(registry)@),
        match r {
            Ok(launch) => !registered(old(registry)@, task_id@) && launch.job == Job::queued(
                engine_of(engine@),
                usable_credentials(
                    engine_of(engine@),
                    match api_keys {
                        Some(k) => Some(k@),
                        None => None,
                    },
                ),
                has_storage,
            ),
            Err(e) => registered(old(registry)@, task_id@) && e == StartError::DuplicateTask,
        },
{
    let (sender, receiver) = cancel_channel();
    let inserted = registry.insert(
        task_id,
        String::from_str(audio_path),
        String::from_str(engine),
        String::from_str(language),
        sender,
    );
    match inserted {
        Err(e) => Err(e),
        Ok(_) => {
            let chosen = engine_from_name(engine);
            let ready = has_usable_credentials(chosen, api_keys);
            Ok(Launch { job: Job::new(chosen, ready, has_storage), cancel_receiver: receiver })
        },
    }
}

/// The status of a task.
pub fn get_recognition_status(registry: &TaskRegistry, task_id: &str) -> (r: Result<
    RecognitionStatus,
    StatusError,
>)
    ensures
        match r {
            Ok(status) => registered(registry@, task_id@) && status@ == registry@[position(
                registry@,
                task_id@,
            )].status && status@.well_formed(),
            Err(e) => !registered(registry@, task_id@) && e == StatusError::NotFound,
        },
{
    registry.get(task_id)
}

/// What a request to stop does to the tasks: where the task is there and
/// its handle was not taken, the handle is taken and the request succeeds;
/// else nothing changes, and the request is refused with the reason.
pub open spec fn cancel_outcome(
    before: Seq<TaskView>,
    after: Seq<TaskView>,
    id: Seq<char>,
    r: Result<(), CancelError>,
) -> bool {
    if !registered(before, id) {
        r == Err::<(), CancelError>(CancelError::NotFound) && after == before
    } else if !before[position(before, id)].cancellable {
        r == Err::<(), CancelError>(CancelError::AlreadyCancelled) && after == before
    } else {
        r == Ok::<(), CancelError>(()) && after == after_take(before, id)
    }
}

/// Asks a task to stop: its cancellation handle is taken and one signal is
/// sent through it, without waiting. The task learns of it before its next
/// command; a task that has ended is not changed by it. The handle can be
/// taken once: a second request for the same task is refused.
pub fn cancel_recognition(registry: &mut TaskRegistry, task_id: &str) -> (r: Result<
    (),
    CancelError,
>)
    ensures
        cancel_outcome(old(registry)@, final(registry)@, task_id@, r),
        consistent(final(registry)@),
{
    match registry.take_cancel_handle(task_id) {
        Ok(sender) => {
            send_cancel(sender);
            Ok(())
        },
        Err(e) => Err(e),
    }
}

/// Overwrites the status of a task; where there is no such task, nothing
/// changes.
pub fn update_task_status(
    registry: &mut TaskRegistry,
    task_id: &str,
    state: TaskState,
    progress: u32,
    result: Option<Vec<Subtitle>>,
    error: Option<String>,
)
    ensures
        final(registry)@ == after_update(
            old(registry)@,
            task_id@,
            normal_status(state, progress, option_cues_view(result), option_text_view(error)),
        ),
        consistent(final(registry)@),
{
    registry.update(task_id, state, progress, result, error);
}

/// Removes a task whose state is terminal; a task that is still pending
/// or at work stays.
pub fn cleanup_completed_task(registry: &mut TaskRegistry, task_id: &str)
    ensures
        final(registry)@ == after_cleanup(old(registry)@, task_id@),
        consistent(final(registry)@),
{
    registry.cleanup(task_id);
}

/// The number of seconds for which a task that has ended is kept, so that
/// a caller that asks late still finds its result.
pub const RETENTION_SECONDS: u64 = 1800;

/// The diagnostic of credentials that are missing.
pub open spec fn configuration_diagnostic(engine: Option<Engine>) -> Seq<char> {
    match engine {
        Some(Engine::Tencent) => "腾讯云API密钥未配置"@,
        Some(Engine::Baidu) => "请在设置中配置百度API密钥"@,
        _ => "API密钥未配置"@,
    }
}

/// The start of the diagnostic of audio that is too large to be sent
/// along where no object storage is configured.
pub const TOO_LARGE_START: &'static str = "音频文件较大 (";

/// The middle of that diagnostic: the limits and what can be done.
pub const TOO_LARGE_BODY: &'static str =
    " MB)，超过了直接上传的限制。\n\n📋 **腾讯云录音文件识别限制说明**：\n• 本地文件上传：≤ 5MB\n• URL方式上传：≤ 1GB（需要先上传到COS）\n• 请求体大小：≤ 10MB\n\n💡 **推荐解决方案**：\n\n1. 🏠 **使用Whisper本地识别**（推荐）\n   • ✅ 支持任意大小音频文件\n   • ✅ 无网络限制，识别速度快\n   • ✅ 完全本地处理，隐私安全\n   • ✅ 支持多种语言和模型\n\n2. ☁️ **配置腾讯云COS存储**\n   • 在设置中配置COS存储桶信息\n   • 上传音频到腾讯云对象存储\n   • 通过URL方式调用识别API\n   • 支持最大1GB文件\n\n3. 🎬 **视频分段处理**\n   • 将长视频分成5分钟以内的片段\n   • 分别识别后合并结果\n   • 适合超长视频内容\n\n当前文件: ";

/// The end of that diagnostic.
pub const TOO_LARGE_END: &'static str = " MB，请配置COS或使用Whisper本地识别。";

/// The start of the diagnostic of a call that failed again after the last
/// try.
pub const EXHAUSTED_START: &'static str = "网络连接失败，已多次重试: ";

/// The end of that diagnostic: likely causes and another engine to try.
pub const EXHAUSTED_END: &'static str =
    "\n\n可能的原因：网络连接不稳定，或服务暂时不可用。\n建议：检查网络连接后重试，或使用Whisper本地识别（不需要网络）。";

/// The diagnostic of a reply that brought none.
pub const NO_DETAIL: &'static str = "未知错误";

/// The diagnostic that a reply brought, or a fixed word.
pub open spec fn reply_message(reply: ReplyView) -> Seq<char> {
    match reply {
        ReplyView::Failed { kind, message } => message,
        _ => NO_DETAIL@,
    }
}

/// The number that a reply brought, or 0.
pub open spec fn reply_number(reply: ReplyView) -> u64 {
    match reply {
        ReplyView::Number(n) => n,
        _ => 0,
    }
}

/// The diagnostic that is recorded for a failure.
pub open spec fn failure_diagnostic(failure: Failure, engine: Option<Engine>, reply: ReplyView) -> Seq<
    char,
> {
    match failure {
        Failure::Reported => reply_message(reply),
        Failure::Configuration => configuration_diagnostic(engine),
        Failure::NoBackend => "不支持的识别引擎"@,
        Failure::TooLarge => TOO_LARGE_START@ + one_decimal_text(
            reply_number(reply) as nat,
            MEGABYTE as nat,
        ) + TOO_LARGE_BODY@ + one_decimal_text(reply_number(reply) as nat, MEGABYTE as nat)
            + TOO_LARGE_END@,
        Failure::Timeout => "识别超时，请稍后重试"@,
        Failure::Exhausted => EXHAUSTED_START@ + reply_message(reply) + EXHAUSTED_END@,
        Failure::Unexpected => "任务处理出现意外状态"@,
    }
}

/// Writes the diagnostic that is recorded for a failure.
pub fn describe_failure(failure: Failure, engine: Option<Engine>, reply: &Reply) -> (r: String)
    ensures
        r@ == failure_diagnostic(failure, engine, reply@),
{
    let message = match reply {
        Reply::Failed { kind, message } => message.clone(),
        _ => String::from_str(NO_DETAIL),
    };
    let number = match reply {
        Reply::Number(n) => *n,
        _ => 0,
    };
    match failure {
        Failure::Reported => message,
        Failure::Configuration => match engine {
            Some(Engine::Tencent) => String::from_str("腾讯云API密钥未配置"),
            Some(Engine::Baidu) => String::from_str("请在设置中配置百度API密钥"),
            _ => String::from_str("API密钥未配置"),
        },
        Failure::NoBackend => String::from_str("不支持的识别引擎"),
        Failure::TooLarge => {
            let size = one_decimal(number, MEGABYTE);
            let mut out = String::from_str(TOO_LARGE_START);
            out.append(size.as_str());
            out.append(TOO_LARGE_BODY);
            out.append(size.as_str());
            out.append(TOO_LARGE_END);
            out
        },
        Failure::Timeout => String::from_str("识别超时，请稍后重试"),
        Failure::Exhausted => {
            let mut out = String::from_str(EXHAUSTED_START);
            out.append(message.as_str());
            out.append(EXHAUSTED_END);
            out
        },
        Failure::Unexpected => String::from_str("任务处理出现意外状态"),
    }
}

/// The cues that a reply brought, or none.
pub open spec fn reply_cues(reply: ReplyView) -> Seq<SubtitleView> {
    match reply {
        ReplyView::Cues(cues) => cues,
        _ => Seq::empty(),
    }
}

/// The status that is recorded after a step, if one is: the progress of a
/// task at work; the cues of a completed task, or guidance for a file of
/// the given name in their place; the diagnostic of a failed task; or that
/// the task was cancelled. A task that fails or is cancelled keeps the
/// progress that was on record for it, `on_record`.
pub open spec fn recorded_status(
    record: Record,
    engine: Option<Engine>,
    reply: ReplyView,
    file_name: Seq<char>,
    on_record: u32,
) -> Option<StatusView> {
    match record {
        Record::Unchanged => None,
        Record::Progress(p) => Some(
            StatusView::processing(
                if p <= FULL_PROGRESS {
                    p
                } else {
                    FULL_PROGRESS
                },
            ),
        ),
        Record::Completed => Some(StatusView::completed(reply_cues(reply))),
        Record::Guidance => Some(StatusView::completed(installation_guide_cues(file_name))),
        Record::Failed(f) => Some(
            StatusView::failed(on_record, failure_diagnostic(f, engine, reply)),
        ),
        Record::Cancelled => Some(StatusView::cancelled(on_record)),
    }
}

/// The status that is recorded at the end of a task is terminal, and
/// while a task is on its way no terminal status is recorded.
pub proof fn lemma_final_record_is_terminal(
    record: Record,
    engine: Option<Engine>,
    reply: ReplyView,
    file_name: Seq<char>,
    on_record: u32,
)
    ensures
        is_final_record(record) ==> recorded_status(record, engine, reply, file_name, on_record)
            is Some && is_terminal(
            recorded_status(record, engine, reply, file_name, on_record)->Some_0.status,
        ),
        !is_final_record(record) && recorded_status(record, engine, reply, file_name, on_record)
            is Some ==> !is_terminal(
            recorded_status(record, engine, reply, file_name, on_record)->Some_0.status,
        ),
{
}

/// The cues that a step records for a completed task are cues as they
/// should be, where those that the reply brought are: none ends before it
/// starts, and none has a blank text. Guidance is made of such cues too.
pub proof fn lemma_recorded_cues_well_formed(
    record: Record,
    engine: Option<Engine>,
    reply: ReplyView,
    file_name: Seq<char>,
    on_record: u32,
)
    requires
        reply_well_formed(reply),
    ensures
        recorded_status(record, engine, reply, file_name, on_record) matches Some(status)
            ==> (status.result matches Some(cues) ==> all_well_formed(cues)),
{
    lemma_guidance_well_formed(file_name);
}

/// What a step records as the progress of a task is what the run of the
/// task counts as its progress after the step: the status that is
/// recorded holds it, and where no status is recorded the progress stays
/// as it was.
pub proof fn lemma_recorded_progress(
    tasks: Seq<TaskView>,
    id: Seq<char>,
    record: Record,
    engine: Option<Engine>,
    reply: ReplyView,
    file_name: Seq<char>,
)
    requires
        consistent(tasks),
        registered(tasks, id),
        record matches Record::Progress(p) ==> p <= FULL_PROGRESS,
    ensures
        progress_on_record(
            after_record(
                tasks,
                id,
                recorded_status(record, engine, reply, file_name, progress_on_record(tasks, id)),
            ),
            id,
        ) == progress_after(progress_on_record(tasks, id), record),
{
    let i = position(tasks, id);
    lemma_position(tasks, id);
    assert(tasks[i].status.well_formed());
    let status = recorded_status(record, engine, reply, file_name, progress_on_record(tasks, id));
    match status {
        Some(s) => {
            let after = after_update(tasks, id, s);
            assert(after[i].task_id == id);
            lemma_same_positions(tasks, after, id);
        },
        None => {},
    }
}

/// Builds the status that is recorded after a step.
/// `on_record` is the progress that is on record for the task.
pub fn status_for_record(
    record: Record,
    engine: Option<Engine>,
    reply: Reply,
    file_name: &str,
    on_record: u32,
) -> (r: Option<RecognitionStatus>)
    ensures
        option_status_view(r) == recorded_status(record, engine, reply@, file_name@, on_record),
        r matches Some(s) ==> s@.well_formed(),
{
    match record {
        Record::Unchanged => None,
        Record::Progress(p) => Some(RecognitionStatus::processing(p)),
        Record::Completed => {
            let cues = match reply {
                Reply::Cues(cues) => cues,
                _ => {
                    let none: Vec<Subtitle> = Vec::new();
                    assert(cues_view(none@) =~= Seq::empty());
                    none
                },
            };
            Some(RecognitionStatus::completed(cues))
        },
        Record::Guidance => Some(RecognitionStatus::completed(installation_guide(file_name))),
        Record::Failed(f) => Some(
            RecognitionStatus::failed(on_record, describe_failure(f, engine, &reply)),
        ),
        Record::Cancelled => Some(RecognitionStatus::cancelled(on_record)),
    }
}

/// One step of a task: decides what follows the reply, records the status
/// that the step brings, and hands back the task after the step with the
/// next command. `cancel` says whether the task was asked to stop;
/// `file_name` is the name under which guidance speaks of the audio file.
/// A task that fails or is cancelled keeps the progress that was on
/// record for it.
pub fn advance_with(
    registry: &mut TaskRegistry,
    task_id: &str,
    job: Job,
    reply: Reply,
    cancel: bool,
    file_name: &str,
) -> (r: Decision)
    ensures
        r == next(job, signal_of(reply@), cancel),
        final(registry)@ == after_record(
            old(registry)@,
            task_id@,
            recorded_status(
                r.record,
                job.engine,
                reply@,
                file_name@,
                progress_on_record(old(registry)@, task_id@),
            ),
        ),
        consistent(final(registry)@),
{
    let decision = decide(job, reply.signal(), cancel);
    let on_record = registry.progress(task_id);
    registry.record(
        task_id,
        status_for_record(decision.record, job.engine, reply, file_name, on_record),
    );
    decision
}

/// One step of a task, as [`advance_with`] makes it, with the audio file
/// named by the stem of its path: by a piece of the path, or by the fixed
/// word.
pub fn advance_task(
    registry: &mut TaskRegistry,
    task_id: &str,
    job: Job,
    reply: Reply,
    cancel: bool,
    audio_path: &str,
) -> (r: Decision)
    ensures
        r == next(job, signal_of(reply@), cancel),
        exists|file_name: Seq<char>|
            #[trigger] may_name(file_name, audio_path@) && final(registry)@ == after_record(
                old(registry)@,
                task_id@,
                recorded_status(
                    r.record,
                    job.engine,
                    reply@,
                    file_name,
                    progress_on_record(old(registry)@, task_id@),
                ),
            ),
        consistent(final(registry)@),
{
    let name = display_name(audio_path);
    advance_with(registry, task_id, job, reply, cancel, name.as_str())
}

} // verus!
