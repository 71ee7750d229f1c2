//! The registry of recognition tasks: one record for each task, under an
//! identifier of its own, with the status that callers see and the handle
//! by which the task is asked to stop.

use vstd::prelude::*;
use vstd::string::*;
use crate::text::same_text;
use crate::video::{copy_subtitle, cues_view, Subtitle, SubtitleView};

verus! {

/// The sending half of a bounded channel of the crate tokio, of which
/// nothing is known here.
#[verifier::external_type_specification]
#[verifier::external_body]
#[verifier::reject_recursive_types(T)]
pub struct ExSender<T>(tokio::sync::mpsc::Sender<T>);

/// The receiving half of a bounded channel of the crate tokio, of which
/// nothing is known here.
#[verifier::external_type_specification]
#[verifier::external_body]
#[verifier::reject_recursive_types(T)]
pub struct ExReceiver<T>(tokio::sync::mpsc::Receiver<T>);

/// Calls `tokio::sync::mpsc::channel` for a channel that holds one
/// signal. Nothing is claimed of the two halves.
#[verifier::external_body]
pub(crate) fn cancel_channel() -> (r: (
    tokio::sync::mpsc::Sender<()>,
    tokio::sync::mpsc::Receiver<()>,
)) {
    tokio::sync::mpsc::channel::<()>(1)
}

/// Calls `try_send` on the sending half with one signal and drops what it
/// answers: the call does not wait, and a full or closed channel is no
/// error here. Nothing is claimed of its effect.
#[verifier::external_body]
pub(crate) fn send_cancel(sender: tokio::sync::mpsc::Sender<()>) {
    let _ = sender.try_send(());
}

/// The states of a task. The last three are terminal.
#[derive(Debug, Clone, Copy, PartialEq, Eq, Structural)]
pub enum TaskState {
    Pending,
    Processing,
    Completed,
    Failed,
    Cancelled,
}

/// Whether no further change follows a state.
pub open spec fn is_terminal(state: TaskState) -> bool {
    state == TaskState::Completed || state == TaskState::Failed || state == TaskState::Cancelled
}

/// Whether no further change follows a state.
pub fn state_is_terminal(state: TaskState) -> (r: bool)
    ensures
        r == is_terminal(state),
{
    match state {
        TaskState::Completed | TaskState::Failed | TaskState::Cancelled => true,
        _ => false,
    }
}

/// The largest progress value: progress is counted in thousandths.
pub const FULL_PROGRESS: u32 = 1000;

/// What a caller sees of a task.
#[derive(Debug, Clone)]
pub struct RecognitionStatus {
    pub status: TaskState,
    /// Progress in thousandths, from 0 to 1000.
    pub progress: u32,
    /// The cues, present exactly when the task is completed.
    pub result: Option<Vec<Subtitle>>,
    /// The diagnostic, present exactly when the task has failed.
    pub error: Option<String>,
}

/// The contents of a [`RecognitionStatus`].
pub struct StatusView {
    pub status: TaskState,
    pub progress: u32,
    pub result: Option<Seq<SubtitleView>>,
    pub error: Option<Seq<char>>,
}

impl StatusView {
    /// The cues are there exactly in the state `Completed`, the diagnostic
    /// exactly in the state `Failed`, and the progress is at most 1000.
    pub open spec fn well_formed(self) -> bool {
        &&& self.progress <= FULL_PROGRESS
        &&& (self.result is Some <==> self.status == TaskState::Completed)
        &&& (self.error is Some <==> self.status == TaskState::Failed)
    }

    /// A task that is registered and not started.
    pub open spec fn pending() -> StatusView {
        StatusView { status: TaskState::Pending, progress: 0, result: None, error: None }
    }

    /// A task at work.
    pub open spec fn processing(progress: u32) -> StatusView {
        StatusView { status: TaskState::Processing, progress, result: None, error: None }
    }

    /// A task that has produced its cues.
    pub open spec fn completed(cues: Seq<SubtitleView>) -> StatusView {
        StatusView {
            status: TaskState::Completed,
            progress: FULL_PROGRESS,
            result: Some(cues),
            error: None,
        }
    }

    /// A task that has failed after it had reached `progress`. A progress
    /// above 1000 counts as 1000.
    pub open spec fn failed(progress: u32, diagnostic: Seq<char>) -> StatusView {
        StatusView {
            status: TaskState::Failed,
            progress: if progress <= FULL_PROGRESS {
                progress
            } else {
                FULL_PROGRESS
            },
            result: None,
            error: Some(diagnostic),
        }
    }

    /// A task that was cancelled after it had reached `progress`. A
    /// progress above 1000 counts as 1000.
    pub open spec fn cancelled(progress: u32) -> StatusView {
        StatusView {
            status: TaskState::Cancelled,
            progress: if progress <= FULL_PROGRESS {
                progress
            } else {
                FULL_PROGRESS
            },
            result: None,
            error: None,
        }
    }
}

impl View for RecognitionStatus {
    type V = StatusView;

    open spec fn view(&self) -> StatusView {
        StatusView {
            status: self.status,
            progress: self.progress,
            result: match self.result {
                Some(cues) => Some(cues_view(cues@)),
                None => None,
            },
            error: match self.error {
                Some(e) => Some(e@),
                None => None,
            },
        }
    }
}

/// Copies a cue list.
pub fn copy_cues(cues: &Vec<Subtitle>) -> (r: Vec<Subtitle>)
    ensures
        cues_view(r@) == cues_view(cues@),
{
    let mut out: Vec<Subtitle> = Vec::new();
    let mut i: usize = 0;
    while i < cues.len()
        invariant
            i <= cues.len(),
            cues_view(out@) == cues_view(cues@).take(i as int),
        decreases cues.len() - i,
    {
        let cue = copy_subtitle(&cues[i]);
        let ghost before = out@;
        out.push(cue);
        assert(cues_view(out@) =~= cues_view(before).push(cue@));
        assert(cues_view(cues@).take(i + 1) =~= cues_view(cues@).take(i as int).push(cues@[i as int]@));
        i += 1;
    }
    assert(cues_view(cues@).take(cues.len() as int) =~= cues_view(cues@));
    out
}

impl RecognitionStatus {
    /// The status of a task that is registered and not started.
    pub fn pending() -> (r: RecognitionStatus)
        ensures
            r@ == StatusView::pending(),
    {
        RecognitionStatus { status: TaskState::Pending, progress: 0, result: None, error: None }
    }

    /// The status of a task at work. A progress above 1000 counts as 1000.
    pub fn processing(progress: u32) -> (r: RecognitionStatus)
        ensures
            r@ == StatusView::processing(
                if progress <= FULL_PROGRESS {
                    progress
                } else {
                    FULL_PROGRESS
                },
            ),
    {
        let bounded = if progress <= FULL_PROGRESS {
            progress
        } else {
            FULL_PROGRESS
        };
        RecognitionStatus {
            status: TaskState::Processing,
            progress: bounded,
            result: None,
            error: None,
        }
    }

    /// The status of a task that has produced its cues.
    pub fn completed(cues: Vec<Subtitle>) -> (r: RecognitionStatus)
        ensures
            r@ == StatusView::completed(cues_view(cues@)),
    {
        RecognitionStatus {
            status: TaskState::Completed,
            progress: FULL_PROGRESS,
            result: Some(cues),
            error: None,
        }
    }

    /// The status of a task that has failed after it had reached
    /// `progress`.
    pub fn failed(progress: u32, diagnostic: String) -> (r: RecognitionStatus)
        ensures
            r@ == StatusView::failed(progress, diagnostic@),
    {
        let bounded = if progress <= FULL_PROGRESS {
            progress
        } else {
            FULL_PROGRESS
        };
        RecognitionStatus {
            status: TaskState::Failed,
            progress: bounded,
            result: None,
            error: Some(diagnostic),
        }
    }

    /// The status of a task that was cancelled after it had reached
    /// `progress`.
    pub fn cancelled(progress: u32) -> (r: RecognitionStatus)
        ensures
            r@ == StatusView::cancelled(progress),
    {
        let bounded = if progress <= FULL_PROGRESS {
            progress
        } else {
            FULL_PROGRESS
        };
        RecognitionStatus {
            status: TaskState::Cancelled,
            progress: bounded,
            result: None,
            error: None,
        }
    }

    /// Whether the status holds what its state asks for.
    pub fn is_well_formed(&self) -> (r: bool)
        ensures
            r == self@.well_formed(),
    {
        self.progress <= FULL_PROGRESS && (self.result.is_some() == (self.status
            == TaskState::Completed)) && (self.error.is_some() == (self.status
            == TaskState::Failed))
    }

    /// Copies the status.
    pub fn copy(&self) -> (r: RecognitionStatus)
        ensures
            r@ == self@,
    {
        RecognitionStatus {
            status: self.status,
            progress: self.progress,
            result: match &self.result {
                Some(cues) => Some(copy_cues(cues)),
                None => None,
            },
            error: match &self.error {
                Some(e) => Some(e.clone()),
                None => None,
            },
        }
    }
}

/// One recognition request as the registry keeps it.
#[derive(Debug, Clone)]
pub struct RecognitionTask {
    pub task_id: String,
    pub audio_path: String,
    pub engine: String,
    pub language: String,
    pub status: RecognitionStatus,
    /// The sending half of the task's cancellation channel, until it is
    /// taken.
    pub cancel_sender: Option<tokio::sync::mpsc::Sender<()>>,
}

/// The contents of a [`RecognitionTask`]. Of the cancellation handle only
/// its presence is kept.
pub struct TaskView {
    pub task_id: Seq<char>,
    pub audio_path: Seq<char>,
    pub engine: Seq<char>,
    pub language: Seq<char>,
    pub status: StatusView,
    pub cancellable: bool,
}

impl View for RecognitionTask {
    type V = TaskView;

    open spec fn view(&self) -> TaskView {
        TaskView {
            task_id: self.task_id@,
            audio_path: self.audio_path@,
            engine: self.engine@,
            language: self.language@,
            status: self.status@,
            cancellable: self.cancel_sender is Some,
        }
    }
}

/// The place of the task called `id` among `tasks`, or -1.
pub open spec fn position(tasks: Seq<TaskView>, id: Seq<char>) -> int
    decreases tasks.len(),
{
    if tasks.len() == 0 {
        -1
    } else if tasks.last().task_id == id {
        tasks.len() - 1
    } else {
        position(tasks.drop_last(), id)
    }
}

/// Whether a task called `id` is among `tasks`.
pub open spec fn registered(tasks: Seq<TaskView>, id: Seq<char>) -> bool {
    position(tasks, id) >= 0
}

/// Whether no two of `tasks` have the same identifier and each status
/// holds what its state asks for.
pub open spec fn consistent(tasks: Seq<TaskView>) -> bool {
    &&& forall|i: int, j: int|
        0 <= i < j < tasks.len() ==> #[trigger] tasks[i].task_id != #[trigger] tasks[j].task_id
    &&& forall|i: int| 0 <= i < tasks.len() ==> (#[trigger] tasks[i]).status.well_formed()
}

/// A new task as it is registered: pending, with no progress, and with
/// its cancellation handle.
pub open spec fn fresh_task(
    id: Seq<char>,
    audio_path: Seq<char>,
    engine: Seq<char>,
    language: Seq<char>,
) -> TaskView {
    TaskView {
        task_id: id,
        audio_path,
        engine,
        language,
        status: StatusView::pending(),
        cancellable: true,
    }
}

/// The tasks after an attempt to register `task`: unchanged where its
/// identifier is taken, else with `task` added.
pub open spec fn after_insert(tasks: Seq<TaskView>, task: TaskView) -> Seq<TaskView> {
    if registered(tasks, task.task_id) {
        tasks
    } else {
        tasks.push(task)
    }
}

/// The tasks after the status of the task called `id` is overwritten;
/// unchanged where there is no such task.
pub open spec fn after_update(tasks: Seq<TaskView>, id: Seq<char>, status: StatusView) -> Seq<
    TaskView,
> {
    let i = position(tasks, id);
    if 0 <= i < tasks.len() {
        tasks.update(i, TaskView { status, ..tasks[i] })
    } else {
        tasks
    }
}

/// The tasks after the cancellation handle of the task called `id` is
/// taken; unchanged where there is no such task.
pub open spec fn after_take(tasks: Seq<TaskView>, id: Seq<char>) -> Seq<TaskView> {
    let i = position(tasks, id);
    if 0 <= i < tasks.len() {
        tasks.update(i, TaskView { cancellable: false, ..tasks[i] })
    } else {
        tasks
    }
}

/// The tasks without the task called `id`.
pub open spec fn after_remove(tasks: Seq<TaskView>, id: Seq<char>) -> Seq<TaskView> {
    let i = position(tasks, id);
    if 0 <= i < tasks.len() {
        tasks.remove(i)
    } else {
        tasks
    }
}

/// The tasks after the cleanup of the task called `id`: without it where
/// its state is terminal, else unchanged.
pub open spec fn after_cleanup(tasks: Seq<TaskView>, id: Seq<char>) -> Seq<TaskView> {
    let i = position(tasks, id);
    if 0 <= i < tasks.len() && is_terminal(tasks[i].status.status) {
        tasks.remove(i)
    } else {
        tasks
    }
}

/// Why a task could not be started.
#[derive(Debug, Clone, Copy, PartialEq, Eq, Structural)]
pub enum StartError {
    /// A task with this identifier is registered already.
    DuplicateTask,
}

/// Why the status of a task could not be read.
#[derive(Debug, Clone, Copy, PartialEq, Eq, Structural)]
pub enum StatusError {
    /// No task with this identifier is registered.
    NotFound,
}

/// Why a task could not be cancelled.
#[derive(Debug, Clone, Copy, PartialEq, Eq, Structural)]
pub enum CancelError {
    /// No task with this identifier is registered.
    NotFound,
    /// The cancellation handle of the task was taken before.
    AlreadyCancelled,
}

/// The place of `id` is that of the one task that has this identifier.
pub proof fn lemma_position(tasks: Seq<TaskView>, id: Seq<char>)
    ensures
        -1 <= position(tasks, id) < tasks.len(),
        position(tasks, id) >= 0 ==> tasks[position(tasks, id)].task_id == id,
        position(tasks, id) < 0 ==> forall|i: int|
            0 <= i < tasks.len() ==> (#[trigger] tasks[i]).task_id != id,
        forall|i: int|
            0 <= i < tasks.len() && (#[trigger] tasks[i]).task_id == id ==> position(tasks, id)
                >= i,
    decreases tasks.len(),
{
    if tasks.len() > 0 && tasks.last().task_id != id {
        let shorter = tasks.drop_last();
        lemma_position(shorter, id);
        assert forall|i: int| 0 <= i < tasks.len() - 1 implies #[trigger] tasks[i] == shorter[i] by {}
        assert forall|i: int| 0 <= i < tasks.len() && (#[trigger] tasks[i]).task_id == id implies position(
            tasks,
            id,
        ) >= i by {
            assert(tasks[i] == shorter[i]);
        }
        if position(tasks, id) < 0 {
            assert forall|i: int| 0 <= i < tasks.len() implies (#[trigger] tasks[i]).task_id != id by {
                if i < tasks.len() - 1 {
                    assert(tasks[i] == shorter[i]);
                }
            }
        }
    }
}

/// Taking a task out of a consistent list leaves a consistent list.
pub proof fn lemma_remove_consistent(tasks: Seq<TaskView>, i: int)
    requires
        consistent(tasks),
        0 <= i < tasks.len(),
    ensures
        consistent(tasks.remove(i)),
{
    let shorter = tasks.remove(i);
    assert forall|a: int, b: int| 0 <= a < b < shorter.len() implies #[trigger] shorter[a].task_id
        != #[trigger] shorter[b].task_id by {
        let a0 = if a < i {
            a
        } else {
            a + 1
        };
        let b0 = if b < i {
            b
        } else {
            b + 1
        };
        assert(tasks[a0].task_id != tasks[b0].task_id);
    }
    assert forall|a: int| 0 <= a < shorter.len() implies (#[trigger] shorter[a]).status.well_formed() by {
        let a0 = if a < i {
            a
        } else {
            a + 1
        };
        assert(tasks[a0].status.well_formed());
    }
}

/// The contents of a cue list that may be missing.
pub open spec fn option_cues_view(cues: Option<Vec<Subtitle>>) -> Option<Seq<SubtitleView>> {
    match cues {
        Some(c) => Some(cues_view(c@)),
        None => None,
    }
}

/// The contents of a text that may be missing.
pub open spec fn option_text_view(text: Option<String>) -> Option<Seq<char>> {
    match text {
        Some(t) => Some(t@),
        None => None,
    }
}

/// The status that is recorded for a state and what comes with it:
/// progress above 1000 counts as 1000; the cues are kept in the state
/// `Completed` alone, where missing cues count as none; the diagnostic is
/// kept in the state `Failed` alone, where a missing one counts as empty.
pub open spec fn normal_status(
    state: TaskState,
    progress: u32,
    result: Option<Seq<SubtitleView>>,
    error: Option<Seq<char>>,
) -> StatusView {
    StatusView {
        status: state,
        progress: if progress <= FULL_PROGRESS {
            progress
        } else {
            FULL_PROGRESS
        },
        result: if state == TaskState::Completed {
            match result {
                Some(cues) => Some(cues),
                None => Some(Seq::empty()),
            }
        } else {
            None
        },
        error: if state == TaskState::Failed {
            match error {
                Some(e) => Some(e),
                None => Some(Seq::empty()),
            }
        } else {
            None
        },
    }
}

/// Builds the status that is recorded for a state and what comes with it.
pub fn normalize_status(
    state: TaskState,
    progress: u32,
    result: Option<Vec<Subtitle>>,
    error: Option<String>,
) -> (r: RecognitionStatus)
    ensures
        r@ == normal_status(state, progress, option_cues_view(result), option_text_view(error)),
        r@.well_formed(),
{
    let bounded = if progress <= FULL_PROGRESS {
        progress
    } else {
        FULL_PROGRESS
    };
    let kept_result = match state {
        TaskState::Completed => match result {
            Some(cues) => Some(cues),
            None => {
                let none: Vec<Subtitle> = Vec::new();
                assert(cues_view(none@) =~= Seq::empty());
                Some(none)
            },
        },
        _ => None,
    };
    let kept_error = match state {
        TaskState::Failed => match error {
            Some(e) => Some(e),
            None => Some(String::new()),
        },
        _ => None,
    };
    RecognitionStatus { status: state, progress: bounded, result: kept_result, error: kept_error }
}

/// A status that may be missing, by contents.
pub open spec fn option_status_view(status: Option<RecognitionStatus>) -> Option<StatusView> {
    match status {
        Some(s) => Some(s@),
        None => None,
    }
}

/// The progress that is on record for the task called `id`; 0 where
/// there is no such task.
pub open spec fn progress_on_record(tasks: Seq<TaskView>, id: Seq<char>) -> u32 {
    if registered(tasks, id) {
        tasks[position(tasks, id)].status.progress
    } else {
        0
    }
}

/// The tasks after a status was recorded for the task called `id`, if one
/// was.
pub open spec fn after_record(tasks: Seq<TaskView>, id: Seq<char>, status: Option<StatusView>) -> Seq<
    TaskView,
> {
    match status {
        Some(s) => after_update(tasks, id, s),
        None => tasks,
    }
}

/// The tasks that are registered, each under an identifier of its own.
pub struct TaskRegistry {
    tasks: Vec<RecognitionTask>,
}

/// The contents of a list of tasks.
pub open spec fn tasks_view(tasks: Seq<RecognitionTask>) -> Seq<TaskView> {
    tasks.map_values(|t: RecognitionTask| t@)
}

impl View for TaskRegistry {
    type V = Seq<TaskView>;

    closed spec fn view(&self) -> Seq<TaskView> {
        tasks_view(self.tasks@)
    }
}

impl TaskRegistry {
    #[verifier::type_invariant]
    spec fn valid(self) -> bool {
        consistent(tasks_view(self.tasks@))
    }

    /// A registry without tasks.
    pub fn new() -> (r: TaskRegistry)
        ensures
            r@ == Seq::<TaskView>::empty(),
    {
        let tasks: Vec<RecognitionTask> = Vec::new();
        assert(tasks_view(tasks@) =~= Seq::<TaskView>::empty());
        TaskRegistry { tasks }
    }

    fn find(&self, task_id: &str) -> (r: Option<usize>)
        ensures
            consistent(self@),
            match r {
                Some(i) => position(self@, task_id@) == i && i < self.tasks.len(),
                None => position(self@, task_id@) == -1,
            },
    {
        let mut i: usize = self.tasks.len();
        proof {
            use_type_invariant(self);
            assert(self@.take(i as int) =~= self@);
        }
        while i > 0
            invariant
                i <= self.tasks.len(),
                self@ == tasks_view(self.tasks@),
                consistent(self@),
                position(self@, task_id@) == position(self@.take(i as int), task_id@),
            decreases i,
        {
            proof {
                assert(self@.take(i as int).drop_last() =~= self@.take(i as int - 1));
            }
            if same_text(self.tasks[i - 1].task_id.as_str(), task_id) {
                return Some(i - 1);
            }
            i -= 1;
        }
        None
    }

    fn take_all(&mut self) -> (r: Vec<RecognitionTask>)
        ensures
            r == old(self).tasks,
            final(self).tasks@.len() == 0,
            consistent(tasks_view(r@)),
    {
        proof {
            use_type_invariant(&*self);
        }
        let mut tasks: Vec<RecognitionTask> = Vec::new();
        assert(tasks_view(tasks@) =~= Seq::<TaskView>::empty());
        std::mem::swap(&mut self.tasks, &mut tasks);
        tasks
    }

    /// Registers a new task under `task_id`, pending and with no progress.
    /// An identifier that is taken is refused, and nothing changes.
    pub fn insert(
        &mut self,
        task_id: String,
        audio_path: String,
        engine: String,
        language: String,
        cancel_sender: tokio::sync::mpsc::Sender<()>,
    ) -> (r: Result<(), StartError>)
        ensures
            final(self)@ == after_insert(
                old(self)@,
                fresh_task(task_id@, audio_path@, engine@, language@),
            ),
            r == if registered(old(self)@, task_id@) {
                Err::<(), StartError>(StartError::DuplicateTask)
            } else {
                Ok::<(), StartError>(())
            },
            consistent(final(self)@),
    {
        match self.find(task_id.as_str()) {
            Some(_) => Err(StartError::DuplicateTask),
            None => {
                let task = RecognitionTask {
                    task_id,
                    audio_path,
                    engine,
                    language,
                    status: RecognitionStatus::pending(),
                    cancel_sender: Some(cancel_sender),
                };
                proof {
                    lemma_position(self@, task.task_id@);
                    assert(tasks_view(self.tasks@.push(task)) =~= tasks_view(self.tasks@).push(
                        task@,
                    ));
                }
                let mut tasks = self.take_all();
                tasks.push(task);
                self.tasks = tasks;
                Ok(())
            },
        }
    }

    /// Overwrites the status of the task called `task_id`; where there is
    /// no such task, nothing changes. The status is made to hold what its
    /// state asks for: see [`normal_status`].
    pub fn update(
        &mut self,
        task_id: &str,
        state: TaskState,
        progress: u32,
        result: Option<Vec<Subtitle>>,
        error: Option<String>,
    )
        ensures
            final(self)@ == after_update(
                old(self)@,
                task_id@,
                normal_status(state, progress, option_cues_view(result), option_text_view(error)),
            ),
            consistent(final(self)@),
    {
        match self.find(task_id) {
            None => {},
            Some(i) => {
                let status = normalize_status(state, progress, result, error);
                let mut tasks = self.take_all();
                let ghost before = tasks@;
                let mut task = tasks.remove(i);
                task.status = status;
                tasks.insert(i, task);
                proof {
                    assert(tasks_view(tasks@) =~= tasks_view(before).update(
                        i as int,
                        TaskView { status: status@, ..tasks_view(before)[i as int] },
                    ));
                    assert forall|a: int, b: int| 0 <= a < b < tasks@.len() implies #[trigger] tasks_view(
                        tasks@,
                    )[a].task_id != #[trigger] tasks_view(tasks@)[b].task_id by {
                        assert(tasks_view(before)[a].task_id != tasks_view(before)[b].task_id);
                    }
                    assert forall|a: int| 0 <= a < tasks@.len() implies (#[trigger] tasks_view(
                        tasks@,
                    )[a]).status.well_formed() by {
                        assert(tasks_view(before)[a].status.well_formed());
                    }
                }
                self.tasks = tasks;
            },
        }
    }

    /// Overwrites the status of the task called `task_id` with a status
    /// that holds what its state asks for; where there is no such task,
    /// nothing changes.
    pub fn set_status(&mut self, task_id: &str, status: RecognitionStatus)
        requires
            status@.well_formed(),
        ensures
            final(self)@ == after_update(old(self)@, task_id@, status@),
            consistent(final(self)@),
    {
        proof {
            assert(normal_status(
                status.status,
                status.progress,
                option_cues_view(status.result),
                option_text_view(status.error),
            ) == status@);
        }
        self.update(task_id, status.status, status.progress, status.result, status.error);
    }

    /// Records a status for the task called `task_id`, if there is a
    /// status to record.
    pub fn record(&mut self, task_id: &str, status: Option<RecognitionStatus>)
        requires
            status matches Some(s) ==> s@.well_formed(),
        ensures
            final(self)@ == after_record(old(self)@, task_id@, option_status_view(status)),
            consistent(final(self)@),
    {
        match status {
            Some(s) => {
                self.set_status(task_id, s);
            },
            None => {
                proof {
                    use_type_invariant(&*self);
                }
            },
        }
    }

    /// The progress that is on record for the task called `task_id`; 0
    /// where there is no such task.
    pub fn progress(&self, task_id: &str) -> (r: u32)
        ensures
            r == progress_on_record(self@, task_id@),
            r <= FULL_PROGRESS,
    {
        match self.find(task_id) {
            Some(i) => {
                proof {
                    assert(self@[i as int].status.well_formed());
                }
                self.tasks[i].status.progress
            },
            None => 0,
        }
    }

    /// The status of the task called `task_id`.
    pub fn get(&self, task_id: &str) -> (r: Result<RecognitionStatus, StatusError>)
        ensures
            match r {
                Ok(status) => registered(self@, task_id@) && status@ == self@[position(
                    self@,
                    task_id@,
                )].status && status@.well_formed(),
                Err(e) => !registered(self@, task_id@) && e == StatusError::NotFound,
            },
    {
        match self.find(task_id) {
            Some(i) => {
                proof {
                    assert(self@[i as int].status.well_formed());
                }
                Ok(self.tasks[i].status.copy())
            },
            None => Err(StatusError::NotFound),
        }
    }

    /// Takes the cancellation handle of the task called `task_id`. It can
    /// be taken once.
    pub fn take_cancel_handle(&mut self, task_id: &str) -> (r: Result<
        tokio::sync::mpsc::Sender<()>,
        CancelError,
    >)
        ensures
            match r {
                Ok(_) => registered(old(self)@, task_id@) && old(self)@[position(
                    old(self)@,
                    task_id@,
                )].cancellable && final(self)@ == after_take(old(self)@, task_id@),
                Err(CancelError::NotFound) => !registered(old(self)@, task_id@) && final(self)@
                    == old(self)@,
                Err(CancelError::AlreadyCancelled) => registered(old(self)@, task_id@) && !old(
                    self,
                )@[position(old(self)@, task_id@)].cancellable && final(self)@ == old(self)@,
            },
            consistent(final(self)@),
    {
        match self.find(task_id) {
            None => Err(CancelError::NotFound),
            Some(i) => {
                if self.tasks[i].cancel_sender.is_none() {
                    return Err(CancelError::AlreadyCancelled);
                }
                let mut tasks = self.take_all();
                let ghost before = tasks@;
                let mut task = tasks.remove(i);
                let handle = task.cancel_sender;
                task.cancel_sender = None;
                tasks.insert(i, task);
                proof {
                    assert(tasks_view(tasks@) =~= tasks_view(before).update(
                        i as int,
                        TaskView { cancellable: false, ..tasks_view(before)[i as int] },
                    ));
                    assert forall|a: int, b: int| 0 <= a < b < tasks@.len() implies #[trigger] tasks_view(
                        tasks@,
                    )[a].task_id != #[trigger] tasks_view(tasks@)[b].task_id by {
                        assert(tasks_view(before)[a].task_id != tasks_view(before)[b].task_id);
                    }
                    assert forall|a: int| 0 <= a < tasks@.len() implies (#[trigger] tasks_view(
                        tasks@,
                    )[a]).status.well_formed() by {
                        assert(tasks_view(before)[a].status.well_formed());
                    }
                }
                self.tasks = tasks;
                match handle {
                    Some(sender) => Ok(sender),
                    None => Err(CancelError::AlreadyCancelled),
                }
            },
        }
    }

    /// Removes the task called `task_id`, whatever its state.
    pub fn remove(&mut self, task_id: &str)
        ensures
            final(self)@ == after_remove(old(self)@, task_id@),
            consistent(final(self)@),
    {
        match self.find(task_id) {
            None => {},
            Some(i) => {
                let mut tasks = self.take_all();
                let ghost before = tasks@;
                let _ = tasks.remove(i);
                proof {
                    assert(tasks_view(tasks@) =~= tasks_view(before).remove(i as int));
                    lemma_remove_consistent(tasks_view(before), i as int);
                }
                self.tasks = tasks;
            },
        }
    }

    /// Removes the task called `task_id` where its state is terminal. A
    /// task that is still pending or at work stays.
    pub fn cleanup(&mut self, task_id: &str)
        ensures
            final(self)@ == after_cleanup(old(self)@, task_id@),
            consistent(final(self)@),
    {
        match self.find(task_id) {
            None => {},
            Some(i) => {
                if state_is_terminal(self.tasks[i].status.status) {
                    self.remove(task_id);
                }
            },
        }
    }

    /// The number of tasks that are registered.
    pub fn len(&self) -> (r: usize)
        ensures
            r == self@.len(),
    {
        self.tasks.len()
    }

    /// Whether a task called `task_id` is registered.
    pub fn contains(&self, task_id: &str) -> (r: bool)
        ensures
            r == registered(self@, task_id@),
            consistent(self@),
    {
        self.find(task_id).is_some()
    }
}

/// Of two registrations under one identifier, one after the other in
/// either order, exactly one succeeds: the first is accepted where the
/// identifier was free, and the second is then refused as a duplicate and
/// changes nothing.
pub proof fn lemma_one_registration_succeeds(
    tasks: Seq<TaskView>,
    first: TaskView,
    second: TaskView,
)
    requires
        first.task_id == second.task_id,
        !registered(tasks, first.task_id),
    ensures
        after_insert(tasks, first) == tasks.push(first),
        registered(after_insert(tasks, first), second.task_id),
        after_insert(after_insert(tasks, first), second) == after_insert(tasks, first),
{
    let mid = tasks.push(first);
    assert(mid.last() == first);
}

/// What was recorded last is what is read: after a status was recorded for
/// a task that is registered, the status of that task is the one that was
/// recorded, and every other task has the status that it had.
pub proof fn lemma_update_is_read(tasks: Seq<TaskView>, id: Seq<char>, status: StatusView)
    requires
        registered(tasks, id),
    ensures
        registered(after_update(tasks, id, status), id),
        after_update(tasks, id, status)[position(after_update(tasks, id, status), id)].status
            == status,
        forall|other: Seq<char>|
            other != id && registered(tasks, other) ==> registered(
                after_update(tasks, id, status),
                other,
            ) && after_update(tasks, id, status)[position(
                after_update(tasks, id, status),
                other,
            )].status == tasks[position(tasks, other)].status,
{
    lemma_position(tasks, id);
    let updated = after_update(tasks, id, status);
    lemma_same_positions(tasks, updated, id);
    assert forall|other: Seq<char>| other != id && registered(tasks, other) implies registered(
        updated,
        other,
    ) && updated[position(updated, other)].status == tasks[position(tasks, other)].status by {
        lemma_position(tasks, other);
        lemma_same_positions(tasks, updated, other);
    }
}

/// Once the handle of a task was taken, a second request to stop the
/// task is refused.
pub proof fn lemma_second_cancel_refused(tasks: Seq<TaskView>, id: Seq<char>)
    requires
        registered(tasks, id),
    ensures
        registered(after_take(tasks, id), id),
        !after_take(tasks, id)[position(after_take(tasks, id), id)].cancellable,
{
    lemma_position(tasks, id);
    let i = position(tasks, id);
    let taken = after_take(tasks, id);
    lemma_same_positions(tasks, taken, id);
}

/// Lists that agree in their identifiers, place by place, have each
/// identifier at the same place.
pub proof fn lemma_same_positions(a: Seq<TaskView>, b: Seq<TaskView>, id: Seq<char>)
    requires
        a.len() == b.len(),
        forall|i: int| 0 <= i < a.len() ==> (#[trigger] a[i]).task_id == b[i].task_id,
    ensures
        position(a, id) == position(b, id),
    decreases a.len(),
{
    if a.len() > 0 {
        assert(a.last().task_id == a[a.len() - 1].task_id);
        assert(a[a.len() - 1].task_id == b[a.len() - 1].task_id);
        if a.last().task_id != id {
            assert forall|i: int| 0 <= i < a.drop_last().len() implies (#[trigger] a.drop_last()[i]).task_id
                == b.drop_last()[i].task_id by {
                assert(a.drop_last()[i] == a[i]);
                assert(b.drop_last()[i] == b[i]);
            }
            lemma_same_positions(a.drop_last(), b.drop_last(), id);
        }
    }
}

} // verus!
