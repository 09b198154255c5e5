//! The decisions of a sync task's watcher: it waits for the parent directory
//! of the synced path, watches it, and stops when the task is aborted.

use vstd::prelude::*;
use crate::events::{
    DirStatus, FsEventKind, any_path_under, any_same_path, names_path, names_path_under, path_views,
};
use crate::path::{FsPath, path_starts_with, same_path};

verus! {

/// What an event below the watched directory means to a task.
#[derive(Clone, Copy, Debug, PartialEq, Eq, Structural)]
pub enum TaskEventClass {
    /// The watched parent directory was removed.
    ParentRemoved,
    /// No path of the event lies under the synced path.
    Unrelated,
    /// Some path of the event lies under the synced path.
    Related,
}

/// What an event of kind `kind` on `paths` means to the task that syncs
/// `local_path` and watches its parent `local_parent`.
pub open spec fn task_event_class_of(
    kind: FsEventKind,
    paths: Seq<Seq<char>>,
    local_parent: Seq<char>,
    local_path: Seq<char>,
) -> TaskEventClass {
    if kind == FsEventKind::RemoveFolder && names_path(paths, local_parent) {
        TaskEventClass::ParentRemoved
    } else if !names_path_under(paths, local_path) {
        TaskEventClass::Unrelated
    } else {
        TaskEventClass::Related
    }
}

/// Tells what an event of kind `kind` on `paths` means to the task that
/// syncs `local_path` and watches its parent `local_parent`.
pub fn classify_task_event(
    kind: FsEventKind,
    paths: &Vec<FsPath>,
    local_parent: &FsPath,
    local_path: &FsPath,
) -> (r: TaskEventClass)
    ensures
        r == task_event_class_of(kind, path_views(paths@), local_parent@, local_path@),
{
    if kind == FsEventKind::RemoveFolder && any_same_path(paths, local_parent) {
        return TaskEventClass::ParentRemoved;
    }
    if !any_path_under(paths, local_path) {
        return TaskEventClass::Unrelated;
    }
    TaskEventClass::Related
}

/// The events a task's watcher passes on to the task.
#[derive(Clone, Copy, Debug, PartialEq, Eq, Structural)]
pub enum TaskSignal {
    /// The watched parent directory was removed.
    ParentRemoved,
    /// Something under the synced path changed.
    Changed,
}

/// What a run of `rsync` came to.
#[derive(Clone, Copy, Debug, PartialEq, Eq, Structural)]
pub enum RsyncOutcome {
    Synced,
    /// The remote machine could not be reached.
    Unreachable,
    Failed,
}

/// What the exit status of an `rsync` run means: none when it did not run
/// to its end. Besides success, the statuses that say the remote end was
/// not reached are a socket error (10), a data timeout (30), a connection
/// timeout (35), and the remote shell's own failure (255).
pub open spec fn rsync_outcome_of(exit: Option<i32>) -> RsyncOutcome {
    match exit {
        Some(code) => if code == 0 {
            RsyncOutcome::Synced
        } else if code == 10 || code == 30 || code == 35 || code == 255 {
            RsyncOutcome::Unreachable
        } else {
            RsyncOutcome::Failed
        },
        None => RsyncOutcome::Failed,
    }
}

/// Tells what the exit status of an `rsync` run means.
pub fn classify_rsync_exit(exit: Option<i32>) -> (r: RsyncOutcome)
    ensures
        r == rsync_outcome_of(exit),
{
    match exit {
        Some(code) => if code == 0 {
            RsyncOutcome::Synced
        } else if code == 10 || code == 30 || code == 35 || code == 255 {
            RsyncOutcome::Unreachable
        } else {
            RsyncOutcome::Failed
        },
        None => RsyncOutcome::Failed,
    }
}

/// What the outside world reports to a task's watcher.
#[derive(Clone, Copy, Debug, PartialEq, Eq, Structural)]
pub enum TaskInput {
    /// The parent directory was looked for.
    Parent(DirStatus),
    WatcherCreated(bool),
    WatchStarted(bool),
    /// The task was told to stop, or the sender of that order was dropped.
    Abort,
    /// The next event; none when no more events can come.
    Signal(Option<TaskSignal>),
    /// The debounce interval passed without a further change.
    QuietElapsed,
    /// The `rsync` run ended, with its exit status if it ran to its end.
    SyncFinished(Option<i32>),
}

#[derive(Clone, Copy, Debug, PartialEq, Eq, Structural)]
pub enum TaskPhase {
    CheckingParent,
    CreatingWatcher,
    StartingWatch,
    Listening,
    /// A change was seen; waiting for the changes to settle.
    Debouncing,
    Syncing,
    Stopped,
}

/// What a task's watcher asks the outside world to do next. Every wait is
/// cut short by the abort order.
#[derive(Clone, Copy, Debug, PartialEq, Eq, Structural)]
pub enum TaskAction {
    /// Drop any watcher and look for the parent directory.
    CheckParent,
    /// Drop any watcher, wait for the polling interval, then look for the
    /// parent directory.
    SleepThenCheckParent,
    CreateWatcher,
    /// Watch the parent directory, recursively.
    WatchParent,
    /// Wait for the next event.
    AwaitSignal,
    /// Wait for the debounce interval, or for the next event before it ends.
    AwaitQuiet,
    /// Run `rsync` with the task's arguments.
    RunSync,
    /// Report what the `rsync` run came to, then wait for the next event.
    Report(RsyncOutcome),
    /// End the task.
    Stop,
}

pub open spec fn pending_task_action(phase: TaskPhase) -> TaskAction {
    match phase {
        TaskPhase::CheckingParent => TaskAction::CheckParent,
        TaskPhase::CreatingWatcher => TaskAction::CreateWatcher,
        TaskPhase::StartingWatch => TaskAction::WatchParent,
        TaskPhase::Listening => TaskAction::AwaitSignal,
        TaskPhase::Debouncing => TaskAction::AwaitQuiet,
        TaskPhase::Syncing => TaskAction::RunSync,
        TaskPhase::Stopped => TaskAction::Stop,
    }
}

/// The watcher's next phase and request, from `phase` on `input`. The
/// abort order stops the watcher in every phase. Once the watch is in
/// place the path is synced; then each change is synced once the changes
/// have settled for the debounce interval. The removal of the parent
/// directory, or the end of the events, makes the watcher look for the
/// directory again. An input that does not answer the pending request
/// changes nothing and repeats the request.
pub open spec fn task_step(phase: TaskPhase, input: TaskInput) -> (TaskPhase, TaskAction) {
    match (phase, input) {
        (TaskPhase::Stopped, _) => (TaskPhase::Stopped, TaskAction::Stop),
        (_, TaskInput::Abort) => (TaskPhase::Stopped, TaskAction::Stop),
        (TaskPhase::CheckingParent, TaskInput::Parent(d)) => if d == DirStatus::Exists {
            (TaskPhase::CreatingWatcher, TaskAction::CreateWatcher)
        } else {
            (TaskPhase::CheckingParent, TaskAction::SleepThenCheckParent)
        },
        (TaskPhase::CreatingWatcher, TaskInput::WatcherCreated(ok)) => if ok {
            (TaskPhase::StartingWatch, TaskAction::WatchParent)
        } else {
            (TaskPhase::CheckingParent, TaskAction::SleepThenCheckParent)
        },
        (TaskPhase::StartingWatch, TaskInput::WatchStarted(ok)) => if ok {
            (TaskPhase::Syncing, TaskAction::RunSync)
        } else {
            (TaskPhase::CheckingParent, TaskAction::SleepThenCheckParent)
        },
        (TaskPhase::Listening, TaskInput::Signal(sig)) => match sig {
            Some(TaskSignal::Changed) => (TaskPhase::Debouncing, TaskAction::AwaitQuiet),
            _ => (TaskPhase::CheckingParent, TaskAction::CheckParent),
        },
        (TaskPhase::Debouncing, TaskInput::Signal(sig)) => match sig {
            Some(TaskSignal::Changed) => (TaskPhase::Debouncing, TaskAction::AwaitQuiet),
            _ => (TaskPhase::CheckingParent, TaskAction::CheckParent),
        },
        (TaskPhase::Debouncing, TaskInput::QuietElapsed) => (TaskPhase::Syncing, TaskAction::RunSync),
        (TaskPhase::Syncing, TaskInput::SyncFinished(exit)) => (
            TaskPhase::Listening,
            TaskAction::Report(rsync_outcome_of(exit)),
        ),
        _ => (phase, pending_task_action(phase)),
    }
}

/// A task's watcher: where it stands.
pub struct TaskWatch {
    phase: TaskPhase,
}

impl View for TaskWatch {
    type V = TaskPhase;

    closed spec fn view(&self) -> TaskPhase {
        self.phase
    }
}

impl TaskWatch {
    /// The watcher at its start: it looks for the parent directory.
    pub fn new() -> (w: TaskWatch)
        ensures
            w@ == TaskPhase::CheckingParent,
    {
        TaskWatch { phase: TaskPhase::CheckingParent }
    }

    pub fn phase(&self) -> (p: TaskPhase)
        ensures
            p == self@,
    {
        self.phase
    }

    /// Takes in what the outside world reports and says what to do next.
    pub fn step(&mut self, input: TaskInput) -> (action: TaskAction)
        ensures
            (final(self)@, action) == task_step(old(self)@, input),
    {
        let (phase, action) = match (self.phase, input) {
            (TaskPhase::Stopped, _) => (TaskPhase::Stopped, TaskAction::Stop),
            (_, TaskInput::Abort) => (TaskPhase::Stopped, TaskAction::Stop),
            (TaskPhase::CheckingParent, TaskInput::Parent(d)) => {
                if d == DirStatus::Exists {
                    (TaskPhase::CreatingWatcher, TaskAction::CreateWatcher)
                } else {
                    (TaskPhase::CheckingParent, TaskAction::SleepThenCheckParent)
                }
            },
            (TaskPhase::CreatingWatcher, TaskInput::WatcherCreated(ok)) => {
                if ok {
                    (TaskPhase::StartingWatch, TaskAction::WatchParent)
                } else {
                    (TaskPhase::CheckingParent, TaskAction::SleepThenCheckParent)
                }
            },
            (TaskPhase::StartingWatch, TaskInput::WatchStarted(ok)) => {
                if ok {
                    (TaskPhase::Syncing, TaskAction::RunSync)
                } else {
                    (TaskPhase::CheckingParent, TaskAction::SleepThenCheckParent)
                }
            },
            (TaskPhase::Listening, TaskInput::Signal(sig)) | (
                TaskPhase::Debouncing,
                TaskInput::Signal(sig),
            ) => match sig {
                Some(TaskSignal::Changed) => (TaskPhase::Debouncing, TaskAction::AwaitQuiet),
                _ => (TaskPhase::CheckingParent, TaskAction::CheckParent),
            },
            (TaskPhase::Debouncing, TaskInput::QuietElapsed) => (
                TaskPhase::Syncing,
                TaskAction::RunSync,
            ),
            (TaskPhase::Syncing, TaskInput::SyncFinished(exit)) => (
                TaskPhase::Listening,
                TaskAction::Report(classify_rsync_exit(exit)),
            ),
            (phase, _) => (
                phase,
                match phase {
                    TaskPhase::CheckingParent => TaskAction::CheckParent,
                    TaskPhase::CreatingWatcher => TaskAction::CreateWatcher,
                    TaskPhase::StartingWatch => TaskAction::WatchParent,
                    TaskPhase::Listening => TaskAction::AwaitSignal,
                    TaskPhase::Debouncing => TaskAction::AwaitQuiet,
                    TaskPhase::Syncing => TaskAction::RunSync,
                    TaskPhase::Stopped => TaskAction::Stop,
                },
            ),
        };
        self.phase = phase;
        action
    }
}

/// A stopped watcher stays stopped, whatever it is told.
pub proof fn law_stopped_task_stays_stopped(input: TaskInput)
    ensures
        task_step(TaskPhase::Stopped, input) == (TaskPhase::Stopped, TaskAction::Stop),
{
}

/// The abort order stops the watcher at once, whatever it is doing; and a
/// watcher asks to end the task exactly when it is stopped, which nothing
/// but the abort order brings about.
pub proof fn law_abort_stops_task(phase: TaskPhase, input: TaskInput)
    ensures
        task_step(phase, TaskInput::Abort) == (TaskPhase::Stopped, TaskAction::Stop),
        (task_step(phase, input).1 == TaskAction::Stop) == (task_step(phase, input).0
            == TaskPhase::Stopped),
        phase != TaskPhase::Stopped && task_step(phase, input).0 == TaskPhase::Stopped ==> input
            == TaskInput::Abort,
{
}

/// A change is never synced at once: a sync runs only when the watch has
/// just been put in place or the changes have settled.
pub proof fn law_sync_runs_after_changes_settle(phase: TaskPhase, input: TaskInput)
    requires
        phase != TaskPhase::Syncing,
        task_step(phase, input).1 == TaskAction::RunSync,
    ensures
        (phase == TaskPhase::StartingWatch && input == TaskInput::WatchStarted(true)) || (phase
            == TaskPhase::Debouncing && input == TaskInput::QuietElapsed),
{
}

/// Each ended `rsync` run is reported, and the watcher listens again.
pub proof fn law_sync_is_reported(exit: Option<i32>)
    ensures
        task_step(TaskPhase::Syncing, TaskInput::SyncFinished(exit)) == (
            TaskPhase::Listening,
            TaskAction::Report(rsync_outcome_of(exit)),
        ),
{
}

/// What an event means to a task, in terms of its paths, whatever else its
/// kind: the removal of a directory that names the watched parent; else a
/// change under the synced path when some path of the event lies under it;
/// else nothing that concerns the task.
pub proof fn law_task_event_meaning(
    kind: FsEventKind,
    paths: Seq<Seq<char>>,
    local_parent: Seq<char>,
    local_path: Seq<char>,
)
    ensures
        ({
            let r = task_event_class_of(kind, paths, local_parent, local_path);
            let parent_gone = kind == FsEventKind::RemoveFolder && exists|i: int|
                0 <= i < paths.len() && same_path(#[trigger] paths[i], local_parent);
            let under = exists|i: int|
                0 <= i < paths.len() && path_starts_with(#[trigger] paths[i], local_path);
            &&& (r == TaskEventClass::ParentRemoved) == parent_gone
            &&& (r == TaskEventClass::Related) == (!parent_gone && under)
            &&& (r == TaskEventClass::Unrelated) == (!parent_gone && !under)
        }),
{
}

/// While the watcher waits for events, before or after a change, the loss
/// of the parent directory or the end of the events makes it drop its
/// watcher and look for the parent again; a change starts, or restarts,
/// the wait for the changes to settle.
pub proof fn law_listening_reacts_to_signals(phase: TaskPhase, sig: Option<TaskSignal>)
    requires
        phase == TaskPhase::Listening || phase == TaskPhase::Debouncing,
    ensures
        sig != Some(TaskSignal::Changed) ==> task_step(phase, TaskInput::Signal(sig)) == (
            TaskPhase::CheckingParent,
            TaskAction::CheckParent,
        ),
        sig == Some(TaskSignal::Changed) ==> task_step(phase, TaskInput::Signal(sig)) == (
            TaskPhase::Debouncing,
            TaskAction::AwaitQuiet,
        ),
{
}

} // verus!
