//! What the adapter tells the session, what the session tells the
//! presentation layer, and what it asks its host to do.

use crate::config::{ConfigModel, ConfigValue};
use crate::error::LifecycleError;
use vstd::prelude::*;

verus! {

/// Whether a session starts its debuggee or joins a running one.
#[derive(Copy, Clone, Debug, PartialEq, Eq, Structural)]
pub enum RequestKind {
    Launch,
    Attach,
}

/// The debuggee has stopped. Without a thread id there is nothing to
/// read the state of.
#[derive(Clone, Debug, PartialEq, Eq)]
pub struct StoppedEvent {
    pub reason: String,
    pub thread_id: Option<u64>,
    pub all_threads_stopped: Option<bool>,
}

/// A thread runs again, or all of them do.
#[derive(Copy, Clone, Debug, PartialEq, Eq, Structural)]
pub struct ContinuedEvent {
    pub thread_id: u64,
    pub all_threads_continued: Option<bool>,
}

/// Why the adapter speaks of a thread.
#[derive(Copy, Clone, Debug, PartialEq, Eq, Structural)]
pub enum ThreadEventReason {
    Started,
    Exited,
    Other,
}

/// A thread has started or has come to its end.
#[derive(Copy, Clone, Debug, PartialEq, Eq, Structural)]
pub struct ThreadEvent {
    pub reason: ThreadEventReason,
    pub thread_id: u64,
}

/// The debuggee's process has exited.
#[derive(Copy, Clone, Debug, PartialEq, Eq, Structural)]
pub struct ExitedEvent {
    pub exit_code: i64,
}

/// The debuggee has ended. With `restart` the adapter asks to be started
/// again, with these arguments.
#[derive(Clone, Debug, PartialEq, Eq)]
pub struct TerminatedEvent {
    pub restart: Option<ConfigValue>,
}

/// The debuggee has written something.
#[derive(Clone, Debug, PartialEq, Eq)]
pub struct OutputEvent {
    pub category: Option<String>,
    pub output: String,
}

/// An event from the adapter. The kinds that the session has no use for
/// are one variant.
#[derive(Clone, Debug, PartialEq, Eq)]
pub enum Event {
    Initialized,
    Stopped(StoppedEvent),
    Continued(ContinuedEvent),
    Thread(ThreadEvent),
    Exited(ExitedEvent),
    Terminated(TerminatedEvent),
    Output(OutputEvent),
    Other,
}

/// What the presentation layer is told.
#[derive(Clone, Debug, PartialEq, Eq)]
pub enum DebugPanelEvent {
    Stopped { client_id: u64, event: StoppedEvent, go_to_stack_frame: bool },
    Thread { client_id: u64, thread: ThreadEvent },
    Output { client_id: u64, output: OutputEvent },
}

/// A place in a source file, with row and column counted from zero.
#[derive(Clone, Debug, PartialEq, Eq)]
pub struct HighlightTarget {
    pub path: String,
    pub row: u64,
    pub column: u64,
}

impl View for HighlightTarget {
    type V = (Seq<char>, int, int);

    open spec fn view(&self) -> (Seq<char>, int, int) {
        (self.path@, self.row as int, self.column as int)
    }
}

/// One step of work on the source viewer. The clears of a batch may run
/// side by side; a step is over before the next begins.
#[derive(Clone, Debug, PartialEq, Eq)]
pub enum HighlightStep {
    /// Remove the highlight from each of these files.
    ClearBatch(Vec<String>),
    /// Open the file and mark the place as the current line.
    Apply(HighlightTarget),
}

/// A step as mathematics sees it.
pub enum HighlightStepModel {
    ClearBatch(Seq<Seq<char>>),
    Apply(Seq<char>, int, int),
}

/// The paths of a batch as sequences of characters.
pub open spec fn paths_view(paths: Seq<String>) -> Seq<Seq<char>> {
    paths.map_values(|path: String| path@)
}

impl View for HighlightStep {
    type V = HighlightStepModel;

    open spec fn view(&self) -> HighlightStepModel {
        match self {
            HighlightStep::ClearBatch(paths) => HighlightStepModel::ClearBatch(paths_view(paths@)),
            HighlightStep::Apply(target) => HighlightStepModel::Apply(
                target.path@,
                target.row as int,
                target.column as int,
            ),
        }
    }
}

/// How the adapter of a session is started.
#[derive(Debug, PartialEq, Eq)]
pub struct AdapterCommand {
    pub command: String,
    pub args: Vec<String>,
    pub cwd: Option<String>,
}

/// An adapter command as mathematics sees it.
pub struct AdapterCommandModel {
    pub command: Seq<char>,
    pub args: Seq<Seq<char>>,
    pub cwd: Option<Seq<char>>,
}

impl View for AdapterCommand {
    type V = AdapterCommandModel;

    open spec fn view(&self) -> AdapterCommandModel {
        AdapterCommandModel {
            command: self.command@,
            args: paths_view(self.args@),
            cwd: match self.cwd {
                Some(cwd) => Some(cwd@),
                None => None,
            },
        }
    }
}

impl Clone for AdapterCommand {
    fn clone(&self) -> (copy: AdapterCommand)
        ensures
            copy@ == self@,
    {
        let mut args: Vec<String> = Vec::new();
        let mut i: usize = 0;
        while i < self.args.len()
            invariant
                i <= self.args@.len(),
                args@.len() == i,
                forall|k: int| 0 <= k < i ==> (#[trigger] args@[k])@ == self.args@[k]@,
            decreases self.args@.len() - i,
        {
            args.push(self.args[i].clone());
            i += 1;
        }
        let cwd = match &self.cwd {
            Some(cwd) => Some(cwd.clone()),
            None => None,
        };
        let copy = AdapterCommand { command: self.command.clone(), args, cwd };
        assert(copy@.args =~= self@.args);
        copy
    }
}

/// What the adapter says it can do, as far as the session makes use of
/// it.
#[derive(Copy, Clone, Debug, PartialEq, Eq, Structural)]
pub struct Capabilities {
    pub supports_step_back: Option<bool>,
}

/// What the session asks its host to do. The actions of one list are to
/// be done in order, each to its end before the next.
#[derive(Clone, Debug, PartialEq, Eq)]
pub enum Action {
    Initialize,
    SendBreakpoints,
    ConfigurationDone,
    Launch(ConfigValue),
    Attach(ConfigValue),
    Disconnect { restart: bool },
    /// Take the connection to the adapter down for good.
    ShutdownAdapter,
    /// Tell the session when this many seconds have passed.
    StartGraceTimer { seconds: u64 },
    /// End the adapter's process, whether it has exited or not. `cause`
    /// says what the adapter failed to do, if it failed.
    ForceTerminate { cause: Option<LifecycleError> },
    TerminateThreads(Vec<u64>),
    /// Start another session, with the adapter of this one.
    StartChildSession { kind: RequestKind, config: ConfigValue },
    /// Read the state of the stopped thread.
    Reconcile { thread_id: u64 },
    /// Give the thread a view in the panel.
    CreateView { thread_id: u64 },
    Notify(DebugPanelEvent),
    Highlight(HighlightStep),
}

/// An action as mathematics sees it.
pub enum ActionModel {
    Initialize,
    SendBreakpoints,
    ConfigurationDone,
    Launch(ConfigModel),
    Attach(ConfigModel),
    Disconnect { restart: bool },
    ShutdownAdapter,
    StartGraceTimer { seconds: u64 },
    ForceTerminate { cause: Option<LifecycleError> },
    TerminateThreads(Seq<u64>),
    StartChildSession { kind: RequestKind, config: ConfigModel },
    Reconcile { thread_id: u64 },
    CreateView { thread_id: u64 },
    Notify(DebugPanelEvent),
    Highlight(HighlightStepModel),
}

impl View for Action {
    type V = ActionModel;

    open spec fn view(&self) -> ActionModel {
        match self {
            Action::Initialize => ActionModel::Initialize,
            Action::SendBreakpoints => ActionModel::SendBreakpoints,
            Action::ConfigurationDone => ActionModel::ConfigurationDone,
            Action::Launch(config) => ActionModel::Launch(config@),
            Action::Attach(config) => ActionModel::Attach(config@),
            Action::Disconnect { restart } => ActionModel::Disconnect { restart: *restart },
            Action::ShutdownAdapter => ActionModel::ShutdownAdapter,
            Action::StartGraceTimer { seconds } => ActionModel::StartGraceTimer {
                seconds: *seconds,
            },
            Action::ForceTerminate { cause } => ActionModel::ForceTerminate { cause: *cause },
            Action::TerminateThreads(ids) => ActionModel::TerminateThreads(ids@),
            Action::StartChildSession { kind, config } => ActionModel::StartChildSession {
                kind: *kind,
                config: config@,
            },
            Action::Reconcile { thread_id } => ActionModel::Reconcile { thread_id: *thread_id },
            Action::CreateView { thread_id } => ActionModel::CreateView { thread_id: *thread_id },
            Action::Notify(event) => ActionModel::Notify(*event),
            Action::Highlight(step) => ActionModel::Highlight(step@),
        }
    }
}

/// A list of actions as mathematics sees it.
pub open spec fn actions_view(actions: Seq<Action>) -> Seq<ActionModel> {
    actions.map_values(|action: Action| action@)
}

/// The action that starts the debuggee for a session of this kind.
pub open spec fn start_action(kind: RequestKind, config: ConfigModel) -> ActionModel {
    match kind {
        RequestKind::Launch => ActionModel::Launch(config),
        RequestKind::Attach => ActionModel::Attach(config),
    }
}

} // verus!
