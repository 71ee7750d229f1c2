//! The course of one recognition task: which step follows which outcome,
//! when a failed call is tried again, and when the task ends.
//!
//! The caller performs each command (a process, a file read, a network
//! call, a pause) and reports what came of it; the rules here decide what
//! follows. Cancellation is looked at before every command.

use vstd::prelude::*;
use crate::engine::Engine;
use crate::video::{all_well_formed, cues_view, Subtitle, SubtitleView};

verus! {

/// The largest number of status queries for one remote task.
pub const MAX_ATTEMPTS: u32 = 60;

/// The largest number of times that one failed call is tried again.
pub const MAX_RETRIES: u32 = 3;

/// Audio of this many bytes or more is not sent along with a request: it
/// is placed in object storage first.
pub const UPLOAD_THRESHOLD: u64 = 5242880;

/// Where a task stands.
#[derive(Debug, Clone, Copy, PartialEq, Eq, Structural)]
pub enum Stage {
    /// Registered; nothing was done yet.
    Queued,
    /// At work; the backend of the engine was not called yet.
    Started,
    /// Asked whether the local recognition program is there.
    ProbeTool,
    /// The local recognition program runs.
    RunTool,
    /// Asked whether the scripted fallback is there.
    ProbeScript,
    /// The scripted fallback runs.
    RunScript,
    /// The audio file is being read.
    ReadAudio,
    /// The audio is being placed in object storage.
    Upload,
    /// A remote task is being created, from audio sent along or by URL.
    Create { by_url: bool },
    /// Query number `attempts` for the state of the remote task is made.
    Query { by_url: bool, remote: u64, attempts: u32 },
    /// The pause after query number `attempts`.
    Pause { by_url: bool, remote: u64, attempts: u32 },
    /// An access token is being fetched.
    Token,
    /// The one recognition call of a synchronous service is made.
    Recognize,
    /// A terminal status was recorded.
    Finished,
}

/// A task on its way: the engine, what is configured for it, where it
/// stands, and how often the call of this stage was tried again.
#[derive(Debug, Clone, Copy, PartialEq, Eq, Structural)]
pub struct Job {
    /// The engine that was asked for, if there is one of that name.
    pub engine: Option<Engine>,
    /// Whether the credentials that the engine needs are there.
    pub has_credentials: bool,
    /// Whether object storage is configured.
    pub has_storage: bool,
    pub stage: Stage,
    pub retries: u32,
    /// Whether the pause before another try is on.
    pub resting: bool,
}

/// What came of the last command, as far as the rules look at it.
#[derive(Debug, Clone, Copy, PartialEq, Eq, Structural)]
pub enum Signal {
    /// Nothing: the first step, or the end of a pause.
    Nothing,
    /// The answer to a probe.
    Found(bool),
    /// A cue list.
    Cues,
    /// A number: the length of the audio, or the identifier of a remote
    /// task.
    Number(u64),
    /// A text: a URL or a token.
    Text,
    /// The remote task is not done.
    Working,
    /// A failure of the network that may pass: no connection, or a timeout.
    Transient,
    /// The local recognition program is not installed.
    ToolMissing,
    /// Any other failure.
    Permanent,
}

/// The kinds of failure that a command can report.
#[derive(Debug, Clone, Copy, PartialEq, Eq, Structural)]
pub enum FailureKind {
    /// A failure of the network that may pass: no connection, or a timeout.
    Transient,
    /// The local recognition program is not installed.
    ToolMissing,
    /// Credentials or settings are missing or wrong.
    Configuration,
    /// The service reports that the request or the remote task failed.
    Remote,
    /// The service finds the audio or the request too large.
    PayloadTooLarge,
    /// An answer or a transcript is not understood.
    Parse,
    /// Any other failure.
    Other,
}

/// What came of the last command, with what it brought.
#[derive(Debug, Clone)]
pub enum Reply {
    /// Nothing: the first step, or the end of a pause.
    Nothing,
    /// The answer to a probe.
    Found(bool),
    /// A cue list.
    Cues(Vec<Subtitle>),
    /// The length of the audio, or the identifier of a remote task.
    Number(u64),
    /// A URL or a token.
    Text(String),
    /// The remote task is not done.
    Working,
    /// A failure, with its diagnostic.
    Failed { kind: FailureKind, message: String },
}

/// The contents of a [`Reply`].
pub enum ReplyView {
    Nothing,
    Found(bool),
    Cues(Seq<SubtitleView>),
    Number(u64),
    Text(Seq<char>),
    Working,
    Failed { kind: FailureKind, message: Seq<char> },
}

impl View for Reply {
    type V = ReplyView;

    open spec fn view(&self) -> ReplyView {
        match self {
            Reply::Nothing => ReplyView::Nothing,
            Reply::Found(found) => ReplyView::Found(*found),
            Reply::Cues(cues) => ReplyView::Cues(cues_view(cues@)),
            Reply::Number(n) => ReplyView::Number(*n),
            Reply::Text(t) => ReplyView::Text(t@),
            Reply::Working => ReplyView::Working,
            Reply::Failed { kind, message } => ReplyView::Failed { kind: *kind, message: message@ },
        }
    }
}

/// Whether the cue list of a reply, where it brings one, is well formed:
/// each cue has an end that is not before its start, and a text that is not
/// blank.
pub open spec fn reply_well_formed(reply: ReplyView) -> bool {
    reply matches ReplyView::Cues(cues) ==> all_well_formed(cues)
}

/// What the rules look at in a reply.
pub open spec fn signal_of(reply: ReplyView) -> Signal {
    match reply {
        ReplyView::Nothing => Signal::Nothing,
        ReplyView::Found(found) => Signal::Found(found),
        ReplyView::Cues(_) => Signal::Cues,
        ReplyView::Number(n) => Signal::Number(n),
        ReplyView::Text(_) => Signal::Text,
        ReplyView::Working => Signal::Working,
        ReplyView::Failed { kind, message } => match kind {
            FailureKind::Transient => Signal::Transient,
            FailureKind::ToolMissing => Signal::ToolMissing,
            _ => Signal::Permanent,
        },
    }
}

impl Reply {
    /// What the rules look at in this reply.
    pub fn signal(&self) -> (r: Signal)
        ensures
            r == signal_of(self@),
    {
        match self {
            Reply::Nothing => Signal::Nothing,
            Reply::Found(found) => Signal::Found(*found),
            Reply::Cues(_) => Signal::Cues,
            Reply::Number(n) => Signal::Number(*n),
            Reply::Text(_) => Signal::Text,
            Reply::Working => Signal::Working,
            Reply::Failed { kind, message } => match kind {
                FailureKind::Transient => Signal::Transient,
                FailureKind::ToolMissing => Signal::ToolMissing,
                _ => Signal::Permanent,
            },
        }
    }

    /// A failure of the given kind, with its diagnostic.
    pub fn failure(kind: FailureKind, message: String) -> (r: Reply)
        ensures
            r@ == (ReplyView::Failed { kind, message: message@ }),
    {
        Reply::Failed { kind, message }
    }
}

/// What the caller is to do next.
#[derive(Debug, Clone, Copy, PartialEq, Eq, Structural)]
pub enum Order {
    /// Nothing to do outside: go on with the next step at once.
    Proceed,
    ProbeTool,
    RunTool,
    ProbeScript,
    RunScript,
    ReadAudio,
    Upload,
    CreateTask,
    CreateTaskByUrl,
    QueryTask { remote: u64, by_url: bool },
    FetchToken,
    Recognize,
    Sleep { seconds: u64 },
    /// Nothing more: the task has ended.
    Stop,
}

/// Why a task fails.
#[derive(Debug, Clone, Copy, PartialEq, Eq, Structural)]
pub enum Failure {
    /// What the last command reported.
    Reported,
    /// The credentials of the engine are missing.
    Configuration,
    /// No backend stands behind the engine.
    NoBackend,
    /// The audio is too large to be sent along, and no object storage is
    /// configured.
    TooLarge,
    /// The remote task was not done after the last query.
    Timeout,
    /// The network failed again after the last try.
    Exhausted,
    /// The report does not fit the stage.
    Unexpected,
}

/// What is recorded of the task after a step.
#[derive(Debug, Clone, Copy, PartialEq, Eq, Structural)]
pub enum Record {
    /// Nothing new.
    Unchanged,
    /// At work, with this progress in thousandths.
    Progress(u32),
    /// Completed with the cues that were reported.
    Completed,
    /// Completed with guidance on how to install the local program, in
    /// place of cues.
    Guidance,
    Failed(Failure),
    Cancelled,
}

/// A step: the task after it, the next command, and what is recorded.
#[derive(Debug, Clone, Copy, PartialEq, Eq, Structural)]
pub struct Decision {
    pub job: Job,
    pub order: Order,
    pub record: Record,
}

/// The pause between two queries, in seconds.
pub open spec fn poll_interval(by_url: bool) -> u64 {
    if by_url {
        10
    } else {
        5
    }
}

/// The pause before try number `retries + 1`, in seconds: 1, 2, 4, ...
pub open spec fn backoff_seconds(retries: u32) -> u64 {
    if retries == 0 {
        1
    } else if retries == 1 {
        2
    } else if retries == 2 {
        4
    } else {
        8
    }
}

/// The progress at the first query, in thousandths.
pub open spec fn poll_progress(by_url: bool) -> u32 {
    if by_url {
        700
    } else {
        500
    }
}

/// The progress that is recorded on entering a stage, in thousandths.
pub open spec fn stage_progress(stage: Stage) -> u32 {
    match stage {
        Stage::Queued => 0,
        Stage::Started => 0,
        Stage::ProbeTool => 100,
        Stage::ProbeScript => 100,
        Stage::RunTool => 500,
        Stage::RunScript => 500,
        Stage::ReadAudio => 100,
        Stage::Upload => 400,
        Stage::Create { by_url } => if by_url {
            700
        } else {
            300
        },
        Stage::Query { by_url, remote, attempts } => if 1 <= attempts <= MAX_ATTEMPTS {
            (poll_progress(by_url) + 5 * (attempts - 1)) as u32
        } else {
            1000
        },
        Stage::Pause { by_url, remote, attempts } => if 1 <= attempts <= MAX_ATTEMPTS {
            (poll_progress(by_url) + 5 * attempts) as u32
        } else {
            1000
        },
        Stage::Token => 300,
        Stage::Recognize => 500,
        Stage::Finished => 1000,
    }
}

/// Whether a failed call of this stage is tried again.
pub open spec fn retried(stage: Stage) -> bool {
    stage is Upload || stage is Create || stage is Token || stage is Recognize
}

/// The command that a stage waits on.
pub open spec fn stage_order(stage: Stage) -> Order {
    match stage {
        Stage::Queued => Order::Stop,
        Stage::Started => Order::Proceed,
        Stage::ProbeTool => Order::ProbeTool,
        Stage::RunTool => Order::RunTool,
        Stage::ProbeScript => Order::ProbeScript,
        Stage::RunScript => Order::RunScript,
        Stage::ReadAudio => Order::ReadAudio,
        Stage::Upload => Order::Upload,
        Stage::Create { by_url } => if by_url {
            Order::CreateTaskByUrl
        } else {
            Order::CreateTask
        },
        Stage::Query { by_url, remote, attempts } => Order::QueryTask { remote, by_url },
        Stage::Pause { by_url, remote, attempts } => Order::Sleep { seconds: poll_interval(by_url) },
        Stage::Token => Order::FetchToken,
        Stage::Recognize => Order::Recognize,
        Stage::Finished => Order::Stop,
    }
}

impl Job {
    /// A task that was registered and has done nothing yet.
    pub open spec fn queued(engine: Option<Engine>, has_credentials: bool, has_storage: bool) -> Job {
        Job { engine, has_credentials, has_storage, stage: Stage::Queued, retries: 0, resting: false }
    }

    /// What holds of every task on its way: queries are numbered from 1 to
    /// the largest number, and tries are counted at the stages that have
    /// them.
    pub open spec fn valid(self) -> bool {
        &&& self.retries <= MAX_RETRIES
        &&& (self.resting ==> retried(self.stage) && self.retries >= 1)
        &&& (!retried(self.stage) ==> self.retries == 0)
        &&& match self.stage {
            Stage::Query { by_url, remote, attempts } => 1 <= attempts <= MAX_ATTEMPTS,
            Stage::Pause { by_url, remote, attempts } => 1 <= attempts < MAX_ATTEMPTS,
            _ => true,
        }
    }

    /// Whether the task has ended.
    pub open spec fn finished(self) -> bool {
        self.stage is Finished
    }

    /// The task at another stage, with no tries counted.
    pub open spec fn at(self, stage: Stage) -> Job {
        Job { stage, retries: 0, resting: false, ..self }
    }
}

/// The step into `stage`: its command is given, and its progress is
/// recorded.
pub open spec fn enter(job: Job, stage: Stage) -> Decision {
    Decision {
        job: job.at(stage),
        order: stage_order(stage),
        record: Record::Progress(stage_progress(stage)),
    }
}

/// The step that ends the task with what is recorded.
pub open spec fn finish(job: Job, record: Record) -> Decision {
    Decision { job: job.at(Stage::Finished), order: Order::Stop, record }
}

/// The step after a failure of the network at a stage whose call is tried
/// again: a pause and another try, or the end after the last try.
pub open spec fn after_transient(job: Job) -> Decision {
    if job.retries < MAX_RETRIES {
        Decision {
            job: Job { retries: (job.retries + 1) as u32, resting: true, ..job },
            order: Order::Sleep { seconds: backoff_seconds(job.retries) },
            record: Record::Unchanged,
        }
    } else {
        finish(job, Record::Failed(Failure::Exhausted))
    }
}

/// The step after a failure: the end with what was reported, but for a
/// network failure at a stage whose call is tried again.
pub open spec fn after_failure(job: Job, signal: Signal) -> Decision {
    if signal == Signal::Transient && retried(job.stage) {
        after_transient(job)
    } else if signal == Signal::Transient || signal == Signal::Permanent {
        finish(job, Record::Failed(Failure::Reported))
    } else {
        finish(job, Record::Failed(Failure::Unexpected))
    }
}

/// The first step of a task: the task is at work, with no progress yet;
/// or it ends, where there is no such engine, the engine has no backend,
/// or its credentials are missing. No other engine is put in its place.
pub open spec fn first_step(job: Job) -> Decision {
    match job.engine {
        Some(Engine::Whisper) => enter(job, Stage::Started),
        Some(Engine::Tencent) | Some(Engine::Baidu) => if job.has_credentials {
            enter(job, Stage::Started)
        } else {
            finish(job, Record::Failed(Failure::Configuration))
        },
        _ => finish(job, Record::Failed(Failure::NoBackend)),
    }
}

/// The step that calls the backend of the engine for the first time: the
/// local program is probed for, or the audio is read.
pub open spec fn dispatch(job: Job) -> Decision {
    match job.engine {
        Some(Engine::Whisper) => enter(job, Stage::ProbeTool),
        Some(Engine::Tencent) | Some(Engine::Baidu) => enter(job, Stage::ReadAudio),
        _ => finish(job, Record::Failed(Failure::NoBackend)),
    }
}

/// The step after the audio was read, by its length in bytes: below the
/// threshold it is sent along; from the threshold on it goes to object
/// storage first, or the task ends where none is configured. A
/// synchronous service always has it sent along, after a token was
/// fetched.
pub open spec fn after_audio(job: Job, length: u64) -> Decision {
    if job.engine == Some(Engine::Baidu) {
        enter(job, Stage::Token)
    } else if length < UPLOAD_THRESHOLD {
        enter(job, Stage::Create { by_url: false })
    } else if job.has_storage {
        enter(job, Stage::Upload)
    } else {
        finish(job, Record::Failed(Failure::TooLarge))
    }
}

/// The step after query number `attempts` found the remote task not done,
/// or could not be made: a pause before the next query, or the end after
/// the last one.
pub open spec fn after_working(job: Job, by_url: bool, remote: u64, attempts: u32) -> Decision {
    if attempts < MAX_ATTEMPTS {
        enter(job, Stage::Pause { by_url, remote, attempts })
    } else {
        finish(job, Record::Failed(Failure::Timeout))
    }
}

/// The step that follows `signal` at the stage of `job`, cancellation
/// aside.
pub open spec fn proceed(job: Job, signal: Signal) -> Decision {
    if job.resting {
        if signal == Signal::Nothing {
            Decision {
                job: Job { resting: false, ..job },
                order: stage_order(job.stage),
                record: Record::Unchanged,
            }
        } else {
            finish(job, Record::Failed(Failure::Unexpected))
        }
    } else {
        match job.stage {
            Stage::Queued => match signal {
                Signal::Nothing => first_step(job),
                _ => finish(job, Record::Failed(Failure::Unexpected)),
            },
            Stage::Started => match signal {
                Signal::Nothing => dispatch(job),
                _ => finish(job, Record::Failed(Failure::Unexpected)),
            },
            Stage::ProbeTool => match signal {
                Signal::Found(found) => if found {
                    enter(job, Stage::RunTool)
                } else {
                    enter(job, Stage::ProbeScript)
                },
                _ => after_failure(job, signal),
            },
            Stage::ProbeScript => match signal {
                Signal::Found(found) => if found {
                    enter(job, Stage::RunScript)
                } else {
                    finish(job, Record::Guidance)
                },
                _ => after_failure(job, signal),
            },
            Stage::RunTool | Stage::RunScript => match signal {
                Signal::Cues => finish(job, Record::Completed),
                Signal::ToolMissing => finish(job, Record::Guidance),
                _ => after_failure(job, signal),
            },
            Stage::ReadAudio => match signal {
                Signal::Number(length) => after_audio(job, length),
                _ => after_failure(job, signal),
            },
            Stage::Upload => match signal {
                Signal::Text => enter(job, Stage::Create { by_url: true }),
                _ => after_failure(job, signal),
            },
            Stage::Create { by_url } => match signal {
                Signal::Number(remote) => enter(job, Stage::Query { by_url, remote, attempts: 1 }),
                _ => after_failure(job, signal),
            },
            Stage::Query { by_url, remote, attempts } => match signal {
                Signal::Cues => finish(job, Record::Completed),
                Signal::Working | Signal::Transient => after_working(job, by_url, remote, attempts),
                _ => after_failure(job, signal),
            },
            Stage::Pause { by_url, remote, attempts } => match signal {
                Signal::Nothing => if attempts < MAX_ATTEMPTS {
                    enter(job, Stage::Query { by_url, remote, attempts: (attempts + 1) as u32 })
                } else {
                    finish(job, Record::Failed(Failure::Timeout))
                },
                _ => finish(job, Record::Failed(Failure::Unexpected)),
            },
            Stage::Token => match signal {
                Signal::Text => enter(job, Stage::Recognize),
                _ => after_failure(job, signal),
            },
            Stage::Recognize => match signal {
                Signal::Cues => finish(job, Record::Completed),
                _ => after_failure(job, signal),
            },
            Stage::Finished => Decision { job, order: Order::Stop, record: Record::Unchanged },
        }
    }
}

/// The step that follows `signal`: a task that has ended stays as it is;
/// a task that has not ended and is asked to stop is cancelled; any other
/// task proceeds. A task that the rules cannot have led to is ended.
pub open spec fn next(job: Job, signal: Signal, cancel: bool) -> Decision {
    if job.finished() {
        Decision { job, order: Order::Stop, record: Record::Unchanged }
    } else if cancel {
        finish(job, Record::Cancelled)
    } else if !job.valid() {
        finish(job, Record::Failed(Failure::Unexpected))
    } else {
        proceed(job, signal)
    }
}

/// The task after a run of steps, each with its signal and with whether
/// the task was asked to stop.
pub open spec fn run(job: Job, inputs: Seq<(Signal, bool)>) -> Job
    decreases inputs.len(),
{
    if inputs.len() == 0 {
        job
    } else {
        run(next(job, inputs[0].0, inputs[0].1).job, inputs.drop_first())
    }
}

/// A bound on the number of steps that a stage is away from the end, the
/// tries of its own call not counted.
pub open spec fn stage_fuel(stage: Stage) -> nat {
    match stage {
        Stage::Finished => 0,
        Stage::RunTool | Stage::RunScript | Stage::Recognize => 1,
        Stage::ProbeScript => 2,
        Stage::ProbeTool => 3,
        Stage::Token => 9,
        Stage::Query { by_url, remote, attempts } => if attempts <= MAX_ATTEMPTS {
            (2 * (MAX_ATTEMPTS - attempts) + 2) as nat
        } else {
            2
        },
        Stage::Pause { by_url, remote, attempts } => if attempts <= MAX_ATTEMPTS {
            (2 * (MAX_ATTEMPTS - attempts) + 1) as nat
        } else {
            1
        },
        Stage::Create { by_url } => 121,
        Stage::Upload => 128,
        Stage::ReadAudio => 135,
        Stage::Started => 136,
        Stage::Queued => 137,
    }
}

/// A bound on the number of steps that a task is away from its end.
pub open spec fn fuel(job: Job) -> nat {
    if retried(job.stage) && job.retries <= MAX_RETRIES {
        stage_fuel(job.stage) + (2 * (MAX_RETRIES - job.retries)) as nat + if job.resting {
            1nat
        } else {
            0nat
        }
    } else {
        stage_fuel(job.stage)
    }
}

/// The number of steps within which every task ends.
pub const STEP_BOUND: u32 = 137;

/// Each step of a task that has not ended brings it nearer to its end,
/// whatever is reported to it.
pub proof fn lemma_step_nears_end(job: Job, signal: Signal, cancel: bool)
    requires
        job.valid(),
        !job.finished(),
    ensures
        next(job, signal, cancel).job.valid(),
        fuel(next(job, signal, cancel).job) < fuel(job),
{
}

/// A task that has ended stays as it is.
pub proof fn lemma_finished_stays(job: Job, inputs: Seq<(Signal, bool)>)
    requires
        job.finished(),
    ensures
        run(job, inputs) == job,
    decreases inputs.len(),
{
    if inputs.len() > 0 {
        lemma_finished_stays(job, inputs.drop_first());
    }
}

/// Every task ends: after as many steps as its bound says, whatever was
/// reported at each of them, it has ended. A task that fails every call
/// is no exception.
pub proof fn lemma_every_task_ends(job: Job, inputs: Seq<(Signal, bool)>)
    requires
        job.valid(),
        inputs.len() >= fuel(job),
    ensures
        run(job, inputs).finished(),
    decreases inputs.len(),
{
    if job.finished() {
        lemma_finished_stays(job, inputs);
    } else {
        lemma_step_nears_end(job, inputs[0].0, inputs[0].1);
        lemma_every_task_ends(next(job, inputs[0].0, inputs[0].1).job, inputs.drop_first());
    }
}

/// A new task ends within [`STEP_BOUND`] steps.
pub proof fn lemma_new_task_ends(
    engine: Option<Engine>,
    has_credentials: bool,
    has_storage: bool,
    inputs: Seq<(Signal, bool)>,
)
    requires
        inputs.len() >= STEP_BOUND,
    ensures
        run(Job::queued(engine, has_credentials, has_storage), inputs).finished(),
{
    lemma_every_task_ends(Job::queued(engine, has_credentials, has_storage), inputs);
}

/// Whether a record is that of a terminal status.
pub open spec fn is_final_record(record: Record) -> bool {
    record is Completed || record is Guidance || record is Failed || record is Cancelled
}

/// A terminal status is recorded at the step at which a task ends, and at
/// no other step.
pub proof fn lemma_end_is_recorded(job: Job, signal: Signal, cancel: bool)
    ensures
        is_final_record(next(job, signal, cancel).record) <==> (!job.finished() && next(
            job,
            signal,
            cancel,
        ).job.finished()),
{
}

/// The progress that is on record after a step, given the progress that
/// was on record before it: a task that fails or is cancelled keeps the
/// progress that it had reached.
pub open spec fn progress_after(before: u32, record: Record) -> u32 {
    match record {
        Record::Unchanged => before,
        Record::Progress(p) => p,
        Record::Completed | Record::Guidance => 1000,
        Record::Failed(_) | Record::Cancelled => before,
    }
}

/// The progress that is on record after each step of a run.
pub open spec fn progress_trace(job: Job, before: u32, inputs: Seq<(Signal, bool)>) -> Seq<u32>
    decreases inputs.len(),
{
    if inputs.len() == 0 {
        Seq::empty()
    } else {
        let step = next(job, inputs[0].0, inputs[0].1);
        let now = progress_after(before, step.record);
        seq![now] + progress_trace(step.job, now, inputs.drop_first())
    }
}

/// In every run the recorded progress never falls below what was on
/// record before, and never falls from one step to the next. `before` is
/// what is on record for the task at its stage.
pub proof fn lemma_progress_from(job: Job, before: u32, inputs: Seq<(Signal, bool)>)
    requires
        job.valid(),
        before <= 1000,
        job.finished() || before == stage_progress(job.stage),
    ensures
        progress_trace(job, before, inputs).len() == inputs.len(),
        forall|i: int|
            0 <= i < inputs.len() ==> before <= #[trigger] progress_trace(job, before, inputs)[i]
                <= 1000,
        forall|i: int, j: int|
            0 <= i <= j < inputs.len() ==> progress_trace(job, before, inputs)[i]
                <= progress_trace(job, before, inputs)[j],
    decreases inputs.len(),
{
    if inputs.len() > 0 {
        let step = next(job, inputs[0].0, inputs[0].1);
        let now = progress_after(before, step.record);
        let rest = inputs.drop_first();
        if !job.finished() {
            lemma_step_nears_end(job, inputs[0].0, inputs[0].1);
        }
        lemma_progress_from(step.job, now, rest);
        let tail = progress_trace(step.job, now, rest);
        let whole = progress_trace(job, before, inputs);
        assert(whole == seq![now] + tail);
        assert forall|i: int| 0 <= i < inputs.len() implies before <= #[trigger] whole[i]
            <= 1000 by {
            if i > 0 {
                assert(whole[i] == tail[i - 1]);
            }
        }
        assert forall|i: int, j: int| 0 <= i <= j < inputs.len() implies whole[i] <= whole[j] by {
            if i > 0 {
                assert(whole[i] == tail[i - 1]);
                assert(whole[j] == tail[j - 1]);
            } else if j > 0 {
                assert(whole[j] == tail[j - 1]);
            }
        }
    }
}

/// The progress values that are recorded for a new task never decrease,
/// whatever is reported to the task and whenever it is asked to stop.
pub proof fn lemma_progress_never_decreases(
    engine: Option<Engine>,
    has_credentials: bool,
    has_storage: bool,
    inputs: Seq<(Signal, bool)>,
)
    ensures
        forall|i: int, j: int|
            0 <= i <= j < inputs.len() ==> progress_trace(
                Job::queued(engine, has_credentials, has_storage),
                0,
                inputs,
            )[i] <= progress_trace(
                Job::queued(engine, has_credentials, has_storage),
                0,
                inputs,
            )[j],
{
    lemma_progress_from(Job::queued(engine, has_credentials, has_storage), 0, inputs);
}

/// A task that has not ended and is asked to stop is cancelled at its
/// next step, whatever is reported to it; this holds before its first
/// command as at any later stage.
pub proof fn lemma_cancel_is_honoured(job: Job, signal: Signal)
    requires
        !job.finished(),
    ensures
        next(job, signal, true).record == Record::Cancelled,
        next(job, signal, true).job.finished(),
        next(job, signal, true).order == Order::Stop,
{
}

/// To ask a task that has ended to stop changes nothing.
pub proof fn lemma_cancel_after_end(job: Job, signal: Signal, cancel: bool)
    requires
        job.finished(),
    ensures
        next(job, signal, cancel).job == job,
        next(job, signal, cancel).record == Record::Unchanged,
        next(job, signal, cancel).order == Order::Stop,
{
}

/// No engine is put in the place of the one that was asked for: the
/// engine of a task stays what it is through every step.
pub proof fn lemma_engine_is_kept(job: Job, inputs: Seq<(Signal, bool)>)
    ensures
        run(job, inputs).engine == job.engine,
        run(job, inputs).has_credentials == job.has_credentials,
        run(job, inputs).has_storage == job.has_storage,
    decreases inputs.len(),
{
    if inputs.len() > 0 {
        lemma_engine_is_kept(next(job, inputs[0].0, inputs[0].1).job, inputs.drop_first());
    }
}

/// A task whose engine lacks its credentials, or has no backend, ends at
/// its first step without a command to the outside.
pub proof fn lemma_fails_fast(job: Job)
    requires
        job.stage == Stage::Queued,
        job.valid(),
        !job.resting,
        (job.engine == Some(Engine::Tencent) || job.engine == Some(Engine::Baidu))
            && !job.has_credentials || job.engine is None || job.engine == Some(Engine::Aliyun)
            || job.engine == Some(Engine::Google),
    ensures
        next(job, Signal::Nothing, false).order == Order::Stop,
        next(job, Signal::Nothing, false).job.finished(),
        next(job, Signal::Nothing, false).record is Failed,
{
}

/// The pause before another try doubles from one try to the next, and a
/// call that fails again after the last try ends the task.
pub proof fn lemma_backoff_doubles(job: Job)
    requires
        job.valid(),
        retried(job.stage),
        !job.resting,
    ensures
        job.retries < MAX_RETRIES ==> next(job, Signal::Transient, false).order == (Order::Sleep {
            seconds: backoff_seconds(job.retries),
        }) && backoff_seconds((job.retries + 1) as u32) == 2 * backoff_seconds(job.retries),
        job.retries == MAX_RETRIES ==> next(job, Signal::Transient, false).record == Record::Failed(
            Failure::Exhausted,
        ),
{
}

/// Whether a stage lies behind the point at which audio goes to object
/// storage.
pub open spec fn past_upload(stage: Stage) -> bool {
    !(stage is Queued) && !(stage is Started) && !(stage is ReadAudio) && !(stage is Upload)
}

/// The number of commands to place audio in object storage that a run
/// gives.
pub open spec fn uploads(job: Job, inputs: Seq<(Signal, bool)>) -> nat
    decreases inputs.len(),
{
    if inputs.len() == 0 {
        0
    } else {
        let step = next(job, inputs[0].0, inputs[0].1);
        (if step.order == Order::Upload {
            1nat
        } else {
            0nat
        }) + uploads(step.job, inputs.drop_first())
    }
}

/// Once a task is past the upload, no command to upload follows.
pub proof fn lemma_no_upload_later(job: Job, inputs: Seq<(Signal, bool)>)
    requires
        past_upload(job.stage),
    ensures
        uploads(job, inputs) == 0,
    decreases inputs.len(),
{
    if inputs.len() > 0 {
        lemma_no_upload_later(next(job, inputs[0].0, inputs[0].1).job, inputs.drop_first());
    }
}

/// In a run in which large audio is read and its upload succeeds at the
/// first try, the audio is uploaded exactly once, whatever follows; in a
/// run in which small audio is read, it is not uploaded at all.
pub proof fn lemma_upload_count(job: Job, length: u64, later: Seq<(Signal, bool)>)
    requires
        job.valid(),
        job.engine == Some(Engine::Tencent),
        job.stage == Stage::ReadAudio,
    ensures
        length >= UPLOAD_THRESHOLD && job.has_storage ==> uploads(
            job,
            seq![(Signal::Number(length), false), (Signal::Text, false)] + later,
        ) == 1,
        length < UPLOAD_THRESHOLD ==> uploads(job, seq![(Signal::Number(length), false)] + later)
            == 0,
{
    let first = next(job, Signal::Number(length), false);
    if length < UPLOAD_THRESHOLD {
        let inputs = seq![(Signal::Number(length), false)] + later;
        assert(inputs[0] == (Signal::Number(length), false));
        assert(inputs.drop_first() =~= later);
        lemma_no_upload_later(first.job, later);
    } else if job.has_storage {
        let inputs = seq![(Signal::Number(length), false), (Signal::Text, false)] + later;
        let second = next(first.job, Signal::Text, false);
        assert(inputs[0] == (Signal::Number(length), false));
        let rest = inputs.drop_first();
        assert(rest =~= seq![(Signal::Text, false)] + later);
        assert(rest[0] == (Signal::Text, false));
        assert(rest.drop_first() =~= later);
        lemma_no_upload_later(second.job, later);
        assert(uploads(first.job, rest) == 0);
    }
}

/// Audio below the threshold is sent along with the request that creates
/// the remote task, and nothing is uploaded then or later. Audio of the
/// threshold's size or more is uploaded first, where object storage is
/// configured, and the request by URL follows the upload; the one upload is
/// the only one unless the network fails and it is tried again.
pub proof fn lemma_size_gating(job: Job, length: u64, inputs: Seq<(Signal, bool)>)
    requires
        job.valid(),
        job.engine == Some(Engine::Tencent),
        job.stage == Stage::ReadAudio,
    ensures
        length < UPLOAD_THRESHOLD ==> next(job, Signal::Number(length), false).order
            == Order::CreateTask && uploads(
            next(job, Signal::Number(length), false).job,
            inputs,
        ) == 0,
        length >= UPLOAD_THRESHOLD && job.has_storage ==> next(
            job,
            Signal::Number(length),
            false,
        ).order == Order::Upload && next(
            next(job, Signal::Number(length), false).job,
            Signal::Text,
            false,
        ).order == Order::CreateTaskByUrl && uploads(
            next(next(job, Signal::Number(length), false).job, Signal::Text, false).job,
            inputs,
        ) == 0,
        length >= UPLOAD_THRESHOLD && !job.has_storage ==> next(
            job,
            Signal::Number(length),
            false,
        ).record == Record::Failed(Failure::TooLarge),
{
    let first = next(job, Signal::Number(length), false);
    if length < UPLOAD_THRESHOLD {
        lemma_no_upload_later(first.job, inputs);
    } else if job.has_storage {
        lemma_no_upload_later(next(first.job, Signal::Text, false).job, inputs);
    }
}

/// The pause between two queries, in seconds.
pub fn interval_of(by_url: bool) -> (r: u64)
    ensures
        r == poll_interval(by_url),
{
    if by_url {
        10
    } else {
        5
    }
}

/// The pause before another try, in seconds.
pub fn backoff_of(retries: u32) -> (r: u64)
    ensures
        r == backoff_seconds(retries),
{
    if retries == 0 {
        1
    } else if retries == 1 {
        2
    } else if retries == 2 {
        4
    } else {
        8
    }
}

/// The progress that is recorded on entering a stage.
pub fn progress_of(stage: Stage) -> (r: u32)
    ensures
        r == stage_progress(stage),
        r <= 1000,
{
    match stage {
        Stage::Queued => 0,
        Stage::Started => 0,
        Stage::ProbeTool => 100,
        Stage::ProbeScript => 100,
        Stage::RunTool => 500,
        Stage::RunScript => 500,
        Stage::ReadAudio => 100,
        Stage::Upload => 400,
        Stage::Create { by_url } => if by_url {
            700
        } else {
            300
        },
        Stage::Query { by_url, remote, attempts } => {
            let base: u32 = if by_url {
                700
            } else {
                500
            };
            if 1 <= attempts && attempts <= MAX_ATTEMPTS {
                base + 5 * (attempts - 1)
            } else {
                1000
            }
        },
        Stage::Pause { by_url, remote, attempts } => {
            let base: u32 = if by_url {
                700
            } else {
                500
            };
            if 1 <= attempts && attempts <= MAX_ATTEMPTS {
                base + 5 * attempts
            } else {
                1000
            }
        },
        Stage::Token => 300,
        Stage::Recognize => 500,
        Stage::Finished => 1000,
    }
}

/// Whether a failed call of this stage is tried again.
pub fn is_retried(stage: Stage) -> (r: bool)
    ensures
        r == retried(stage),
{
    match stage {
        Stage::Upload | Stage::Create { .. } | Stage::Token | Stage::Recognize => true,
        _ => false,
    }
}

/// The command that a stage waits on.
pub fn order_of(stage: Stage) -> (r: Order)
    ensures
        r == stage_order(stage),
{
    match stage {
        Stage::Queued => Order::Stop,
        Stage::Started => Order::Proceed,
        Stage::ProbeTool => Order::ProbeTool,
        Stage::RunTool => Order::RunTool,
        Stage::ProbeScript => Order::ProbeScript,
        Stage::RunScript => Order::RunScript,
        Stage::ReadAudio => Order::ReadAudio,
        Stage::Upload => Order::Upload,
        Stage::Create { by_url } => if by_url {
            Order::CreateTaskByUrl
        } else {
            Order::CreateTask
        },
        Stage::Query { by_url, remote, attempts } => Order::QueryTask { remote, by_url },
        Stage::Pause { by_url, remote, attempts } => Order::Sleep { seconds: interval_of(by_url) },
        Stage::Token => Order::FetchToken,
        Stage::Recognize => Order::Recognize,
        Stage::Finished => Order::Stop,
    }
}

fn enter_stage(job: Job, stage: Stage) -> (r: Decision)
    ensures
        r == enter(job, stage),
{
    Decision {
        job: Job {
            engine: job.engine,
            has_credentials: job.has_credentials,
            has_storage: job.has_storage,
            stage,
            retries: 0,
            resting: false,
        },
        order: order_of(stage),
        record: Record::Progress(progress_of(stage)),
    }
}

fn finish_with(job: Job, record: Record) -> (r: Decision)
    ensures
        r == finish(job, record),
{
    Decision {
        job: Job {
            engine: job.engine,
            has_credentials: job.has_credentials,
            has_storage: job.has_storage,
            stage: Stage::Finished,
            retries: 0,
            resting: false,
        },
        order: Order::Stop,
        record,
    }
}

fn fail_with(job: Job, signal: Signal) -> (r: Decision)
    requires
        job.retries <= MAX_RETRIES,
    ensures
        r == after_failure(job, signal),
{
    match signal {
        Signal::Transient => {
            if is_retried(job.stage) {
                if job.retries < MAX_RETRIES {
                    Decision {
                        job: Job {
                            engine: job.engine,
                            has_credentials: job.has_credentials,
                            has_storage: job.has_storage,
                            stage: job.stage,
                            retries: job.retries + 1,
                            resting: true,
                        },
                        order: Order::Sleep { seconds: backoff_of(job.retries) },
                        record: Record::Unchanged,
                    }
                } else {
                    finish_with(job, Record::Failed(Failure::Exhausted))
                }
            } else {
                finish_with(job, Record::Failed(Failure::Reported))
            }
        },
        Signal::Permanent => finish_with(job, Record::Failed(Failure::Reported)),
        _ => finish_with(job, Record::Failed(Failure::Unexpected)),
    }
}

fn proceed_from(job: Job, signal: Signal) -> (r: Decision)
    requires
        job.retries <= MAX_RETRIES,
    ensures
        r == proceed(job, signal),
{
    if job.resting {
        return match signal {
            Signal::Nothing => Decision {
                job: Job {
                    engine: job.engine,
                    has_credentials: job.has_credentials,
                    has_storage: job.has_storage,
                    stage: job.stage,
                    retries: job.retries,
                    resting: false,
                },
                order: order_of(job.stage),
                record: Record::Unchanged,
            },
            _ => finish_with(job, Record::Failed(Failure::Unexpected)),
        };
    }
    match job.stage {
        Stage::Queued => match signal {
            Signal::Nothing => match job.engine {
                Some(Engine::Whisper) => enter_stage(job, Stage::Started),
                Some(Engine::Tencent) | Some(Engine::Baidu) => if job.has_credentials {
                    enter_stage(job, Stage::Started)
                } else {
                    finish_with(job, Record::Failed(Failure::Configuration))
                },
                _ => finish_with(job, Record::Failed(Failure::NoBackend)),
            },
            _ => finish_with(job, Record::Failed(Failure::Unexpected)),
        },
        Stage::Started => match signal {
            Signal::Nothing => match job.engine {
                Some(Engine::Whisper) => enter_stage(job, Stage::ProbeTool),
                Some(Engine::Tencent) | Some(Engine::Baidu) => enter_stage(job, Stage::ReadAudio),
                _ => finish_with(job, Record::Failed(Failure::NoBackend)),
            },
            _ => finish_with(job, Record::Failed(Failure::Unexpected)),
        },
        Stage::ProbeTool => match signal {
            Signal::Found(found) => if found {
                enter_stage(job, Stage::RunTool)
            } else {
                enter_stage(job, Stage::ProbeScript)
            },
            _ => fail_with(job, signal),
        },
        Stage::ProbeScript => match signal {
            Signal::Found(found) => if found {
                enter_stage(job, Stage::RunScript)
            } else {
                finish_with(job, Record::Guidance)
            },
            _ => fail_with(job, signal),
        },
        Stage::RunTool | Stage::RunScript => match signal {
            Signal::Cues => finish_with(job, Record::Completed),
            Signal::ToolMissing => finish_with(job, Record::Guidance),
            _ => fail_with(job, signal),
        },
        Stage::ReadAudio => match signal {
            Signal::Number(length) => match job.engine {
                Some(Engine::Baidu) => enter_stage(job, Stage::Token),
                _ => if length < UPLOAD_THRESHOLD {
                    enter_stage(job, Stage::Create { by_url: false })
                } else if job.has_storage {
                    enter_stage(job, Stage::Upload)
                } else {
                    finish_with(job, Record::Failed(Failure::TooLarge))
                },
            },
            _ => fail_with(job, signal),
        },
        Stage::Upload => match signal {
            Signal::Text => enter_stage(job, Stage::Create { by_url: true }),
            _ => fail_with(job, signal),
        },
        Stage::Create { by_url } => match signal {
            Signal::Number(remote) => enter_stage(job, Stage::Query { by_url, remote, attempts: 1 }),
            _ => fail_with(job, signal),
        },
        Stage::Query { by_url, remote, attempts } => match signal {
            Signal::Cues => finish_with(job, Record::Completed),
            Signal::Working | Signal::Transient => if attempts < MAX_ATTEMPTS {
                enter_stage(job, Stage::Pause { by_url, remote, attempts })
            } else {
                finish_with(job, Record::Failed(Failure::Timeout))
            },
            _ => fail_with(job, signal),
        },
        Stage::Pause { by_url, remote, attempts } => match signal {
            Signal::Nothing => if attempts < MAX_ATTEMPTS {
                enter_stage(job, Stage::Query { by_url, remote, attempts: attempts + 1 })
            } else {
                finish_with(job, Record::Failed(Failure::Timeout))
            },
            _ => finish_with(job, Record::Failed(Failure::Unexpected)),
        },
        Stage::Token => match signal {
            Signal::Text => enter_stage(job, Stage::Recognize),
            _ => fail_with(job, signal),
        },
        Stage::Recognize => match signal {
            Signal::Cues => finish_with(job, Record::Completed),
            _ => fail_with(job, signal),
        },
        Stage::Finished => Decision { job, order: Order::Stop, record: Record::Unchanged },
    }
}

impl Job {
    /// A task that was registered and has done nothing yet.
    pub fn new(engine: Option<Engine>, has_credentials: bool, has_storage: bool) -> (r: Job)
        ensures
            r == Job::queued(engine, has_credentials, has_storage),
            r.valid(),
    {
        Job { engine, has_credentials, has_storage, stage: Stage::Queued, retries: 0, resting: false }
    }

    /// Whether the task has ended.
    pub fn is_finished(&self) -> (r: bool)
        ensures
            r == self.finished(),
    {
        match self.stage {
            Stage::Finished => true,
            _ => false,
        }
    }

    /// Whether the task is one that the rules can have led to.
    pub fn is_valid(&self) -> (r: bool)
        ensures
            r == self.valid(),
    {
        let counted = is_retried(self.stage);
        let stage_ok = match self.stage {
            Stage::Query { by_url, remote, attempts } => 1 <= attempts && attempts <= MAX_ATTEMPTS,
            Stage::Pause { by_url, remote, attempts } => 1 <= attempts && attempts < MAX_ATTEMPTS,
            _ => true,
        };
        self.retries <= MAX_RETRIES && (!self.resting || (counted && self.retries >= 1)) && (counted
            || self.retries == 0) && stage_ok
    }
}

/// Decides the step that follows `signal`. `cancel` says whether the
/// task was asked to stop.
pub fn decide(job: Job, signal: Signal, cancel: bool) -> (r: Decision)
    ensures
        r == next(job, signal, cancel),
        job.valid() ==> r.job.valid(),
{
    if job.is_finished() {
        Decision { job, order: Order::Stop, record: Record::Unchanged }
    } else if cancel {
        finish_with(job, Record::Cancelled)
    } else if !job.is_valid() {
        finish_with(job, Record::Failed(Failure::Unexpected))
    } else {
        proceed_from(job, signal)
    }
}

} // verus!
