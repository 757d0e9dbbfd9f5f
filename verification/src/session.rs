//! One session with a debug adapter: its phase, its threads, and what it
//! does about each event, request and signal.
//!
//! The session decides; its host performs. Every operation takes what has
//! happened and gives the actions to perform, in order.

use crate::config::{merge, merged, ConfigModel, ConfigValue};
use crate::error::{LifecycleError, ProtocolError};
use crate::events::{
    actions_view, start_action, Action, ActionModel, AdapterCommand, AdapterCommandModel,
    Capabilities, ContinuedEvent, DebugPanelEvent, Event, HighlightStep, HighlightStepModel,
    RequestKind, StoppedEvent, TerminatedEvent, ThreadEvent, ThreadEventReason,
};
use crate::highlight::{clear, clear_all, navigate, navigation, source_paths, thread_paths};
use crate::reconcile::{ReconcileModel, Reconciliation};
use crate::store::{all_with_status, ascending_ids, ThreadStateStore};
use crate::thread::{ThreadState, ThreadStatus};
use vstd::prelude::*;

verus! {

/// The seconds an adapter is given to exit after it was asked to shut
/// down, before its process is ended.
pub const SHUTDOWN_GRACE_SECONDS: u64 = 3;

/// The seconds an adapter is given to exit before a restart.
pub const RESTART_GRACE_SECONDS: u64 = 1;

/// Where a session stands in its life.
#[derive(Copy, Clone, Debug, PartialEq, Eq, Structural)]
pub enum SessionPhase {
    Uninitialized,
    Initializing,
    Launching,
    Attaching,
    Running,
    Stopped,
    Restarting,
    Terminating,
    Terminated,
    /// The session did not get as far as running.
    Failed,
}

/// How far the taking down of the adapter has come.
#[derive(Copy, Clone, Debug, PartialEq, Eq, Structural)]
pub enum Teardown {
    Idle,
    /// The adapter was asked to shut down and the grace period runs.
    Requested { restart: bool },
    /// The adapter's process is being ended.
    Forcing { restart: bool },
}

/// What the host reports while an adapter is taken down.
#[derive(Copy, Clone, Debug, PartialEq, Eq, Structural)]
pub enum TeardownSignal {
    /// The request to shut down has been answered, or has failed.
    RequestSettled,
    GraceElapsed,
    /// The adapter's process is gone.
    ProcessEnded,
}

/// How a reconciliation ended for the session.
#[derive(Debug, PartialEq, Eq)]
pub enum Reconciled {
    /// The new state stands in the store; these actions follow.
    Applied(Vec<Action>),
    /// The session was being taken down; nothing was changed.
    Discarded,
    /// The plan gave no state; nothing was changed.
    Failed(ProtocolError),
}

/// What a session is, to those who use it.
pub struct SessionModel {
    pub client_id: u64,
    pub kind: RequestKind,
    pub config: ConfigModel,
    pub adapter: AdapterCommandModel,
    pub capabilities: Capabilities,
    pub phase: SessionPhase,
    pub teardown: Teardown,
    pub threads: Map<u64, ThreadState>,
}

/// Whether `after` is `before` with the status of `thread_id` set: the
/// thread keeps what else it had, or is entered afresh if it was unknown,
/// and no other thread changes.
pub open spec fn status_set(
    before: Map<u64, ThreadState>,
    after: Map<u64, ThreadState>,
    thread_id: u64,
    status: ThreadStatus,
) -> bool {
    &&& after.dom() == before.dom().insert(thread_id)
    &&& after.remove(thread_id) == before.remove(thread_id)
    &&& before.contains_key(thread_id) ==> after[thread_id] == before[thread_id].with_status(
        status,
    )
    &&& !before.contains_key(thread_id) ==> after[thread_id].status == status
        && !after[thread_id].stopped && after[thread_id].bare()
}

/// Whether `after` is `before` with `thread_id` entered afresh.
pub open spec fn entered_afresh(
    before: Map<u64, ThreadState>,
    after: Map<u64, ThreadState>,
    thread_id: u64,
) -> bool {
    &&& after.dom() == before.dom().insert(thread_id)
    &&& after.remove(thread_id) == before.remove(thread_id)
    &&& after[thread_id].fresh()
}

impl SessionModel {
    /// The phase in which a session of this kind starts its debuggee.
    pub open spec fn starting_phase(self) -> SessionPhase {
        match self.kind {
            RequestKind::Launch => SessionPhase::Launching,
            RequestKind::Attach => SessionPhase::Attaching,
        }
    }

    /// Whether the session is being taken down, is down, or never came up.
    pub open spec fn ended(self) -> bool {
        ||| self.phase == SessionPhase::Restarting
        ||| self.phase == SessionPhase::Terminating
        ||| self.phase == SessionPhase::Terminated
        ||| self.phase == SessionPhase::Failed
    }

    /// Whether the session is on its way to running.
    pub open spec fn starting(self) -> bool {
        ||| self.phase == SessionPhase::Initializing
        ||| self.phase == SessionPhase::Launching
        ||| self.phase == SessionPhase::Attaching
    }

    /// The phase after an event, which moves a session between running
    /// and stopped and into its end.
    pub open spec fn phase_after(self, event: Event) -> SessionPhase {
        match event {
            Event::Stopped(stopped) => if stopped.thread_id is Some && (self.phase
                == SessionPhase::Launching || self.phase == SessionPhase::Attaching || self.phase
                == SessionPhase::Running) {
                SessionPhase::Stopped
            } else {
                self.phase
            },
            Event::Continued(_) => if self.phase == SessionPhase::Stopped {
                SessionPhase::Running
            } else {
                self.phase
            },
            Event::Terminated(terminated) => if terminated.restart is Some {
                self.starting_phase()
            } else {
                SessionPhase::Terminating
            },
            _ => self.phase,
        }
    }

    /// The state of the teardown after an event.
    pub open spec fn teardown_after(self, event: Event) -> Teardown {
        match event {
            Event::Terminated(terminated) => if terminated.restart is Some {
                Teardown::Idle
            } else {
                Teardown::Forcing { restart: false }
            },
            _ => self.teardown,
        }
    }

    /// Whether `threads` is what an event makes of the threads.
    pub open spec fn threads_after(self, event: Event, threads: Map<u64, ThreadState>) -> bool {
        match event {
            Event::Continued(continued) => if continued.all_threads_continued == Some(true) {
                threads == all_with_status(self.threads, ThreadStatus::Running)
            } else {
                status_set(self.threads, threads, continued.thread_id, ThreadStatus::Running)
            },
            Event::Thread(thread) => if thread.reason == ThreadEventReason::Started {
                entered_afresh(self.threads, threads, thread.thread_id)
            } else if self.threads.contains_key(thread.thread_id) {
                threads == self.threads.insert(
                    thread.thread_id,
                    self.threads[thread.thread_id].with_status(ThreadStatus::Ended),
                )
            } else {
                threads == self.threads
            },
            Event::Exited(_) => threads == all_with_status(self.threads, ThreadStatus::Exited),
            _ => threads == self.threads,
        }
    }

    /// Whether `after` is the session as an event leaves it.
    pub open spec fn event_applied(self, event: Event, after: SessionModel) -> bool {
        &&& after.client_id == self.client_id
        &&& after.kind == self.kind
        &&& after.config == self.config
        &&& after.adapter == self.adapter
        &&& after.capabilities == self.capabilities
        &&& after.phase == self.phase_after(event)
        &&& after.teardown == self.teardown_after(event)
        &&& self.threads_after(event, after.threads)
    }

    /// The actions that an event gives rise to.
    pub open spec fn event_actions(self, event: Event) -> Seq<ActionModel> {
        match event {
            Event::Initialized => seq![ActionModel::SendBreakpoints, ActionModel::ConfigurationDone],
            Event::Stopped(stopped) => match stopped.thread_id {
                Some(thread_id) => seq![ActionModel::Reconcile { thread_id }],
                None => Seq::empty(),
            },
            Event::Thread(thread) => {
                let notice = ActionModel::Notify(
                    DebugPanelEvent::Thread { client_id: self.client_id, thread },
                );
                if thread.reason != ThreadEventReason::Started && self.threads.contains_key(
                    thread.thread_id,
                ) {
                    seq![
                        ActionModel::Highlight(
                            HighlightStepModel::ClearBatch(
                                source_paths(self.threads[thread.thread_id].stack_frames@),
                            ),
                        ),
                        notice,
                    ]
                } else {
                    seq![notice]
                }
            },
            Event::Terminated(terminated) => {
                let clearing = ActionModel::Highlight(
                    HighlightStepModel::ClearBatch(thread_paths(self.threads, ascending_ids(self.threads))),
                );
                match terminated.restart {
                    Some(arguments) => seq![
                        clearing,
                        ActionModel::Disconnect { restart: true },
                        start_action(self.kind, arguments@),
                    ],
                    None => seq![clearing, ActionModel::ShutdownAdapter],
                }
            },
            Event::Output(output) => seq![
                ActionModel::Notify(
                    DebugPanelEvent::Output { client_id: self.client_id, output },
                ),
            ],
            _ => Seq::empty(),
        }
    }
}

impl SessionModel {
    /// The session after its adapter has come up.
    pub open spec fn adapter_started(self) -> SessionModel {
        if self.phase == SessionPhase::Uninitialized {
            SessionModel { phase: SessionPhase::Initializing, ..self }
        } else {
            self
        }
    }

    /// The session after the adapter has answered `initialize`.
    pub open spec fn initialized_with(self, capabilities: Capabilities) -> SessionModel {
        if self.phase == SessionPhase::Initializing {
            SessionModel { phase: self.starting_phase(), capabilities, ..self }
        } else {
            self
        }
    }

    /// The session after the adapter has answered `launch` or `attach`.
    pub open spec fn started(self) -> SessionModel {
        if self.phase == SessionPhase::Launching || self.phase == SessionPhase::Attaching {
            SessionModel { phase: SessionPhase::Running, ..self }
        } else {
            self
        }
    }

    /// The session after a request of its startup has failed.
    pub open spec fn startup_failed(self) -> SessionModel {
        if self.starting() {
            SessionModel { phase: SessionPhase::Failed, ..self }
        } else {
            self
        }
    }

    /// Whether there is an adapter to take down: the session has heard
    /// from one and is not down.
    pub open spec fn adapter_up(self) -> bool {
        &&& self.phase != SessionPhase::Uninitialized
        &&& self.phase != SessionPhase::Terminated
    }

    /// Whether a shutdown changes anything: the session is not down and
    /// not on its way there.
    pub open spec fn can_shut_down(self) -> bool {
        &&& self.phase != SessionPhase::Terminating
        &&& self.phase != SessionPhase::Terminated
    }

    /// The session after its host has asked for it to be shut down. A
    /// session that has no adapter yet is down at once.
    pub open spec fn shutting_down(self) -> SessionModel {
        if !self.can_shut_down() {
            self
        } else if self.adapter_up() {
            SessionModel {
                phase: SessionPhase::Terminating,
                teardown: Teardown::Requested { restart: false },
                ..self
            }
        } else {
            SessionModel { phase: SessionPhase::Terminated, teardown: Teardown::Idle, ..self }
        }
    }

    /// The actions that a shutdown gives rise to.
    pub open spec fn shutdown_actions(self) -> Seq<ActionModel> {
        if self.can_shut_down() && self.adapter_up() {
            seq![
                ActionModel::Disconnect { restart: false },
                ActionModel::StartGraceTimer { seconds: SHUTDOWN_GRACE_SECONDS },
            ]
        } else {
            Seq::empty()
        }
    }

    /// Whether a restart can begin: there is an adapter, and it is not
    /// being taken down already.
    pub open spec fn can_restart(self) -> bool {
        &&& self.adapter_up()
        &&& self.phase != SessionPhase::Restarting
        &&& self.phase != SessionPhase::Terminating
    }

    /// The session after its host has asked for it to be started again.
    pub open spec fn restarting(self) -> SessionModel {
        if self.can_restart() {
            SessionModel {
                phase: SessionPhase::Restarting,
                teardown: Teardown::Requested { restart: true },
                ..self
            }
        } else {
            self
        }
    }

    /// The actions that a restart gives rise to.
    pub open spec fn restart_actions(self) -> Seq<ActionModel> {
        if self.can_restart() {
            seq![
                ActionModel::Disconnect { restart: true },
                ActionModel::StartGraceTimer { seconds: RESTART_GRACE_SECONDS },
            ]
        } else {
            Seq::empty()
        }
    }

    /// The session after a signal of the teardown. Whichever of the
    /// answer and the grace period comes first has the process ended; the
    /// session is down, or starts again, only when the process is gone.
    pub open spec fn signalled(self, signal: TeardownSignal) -> SessionModel {
        match self.teardown {
            Teardown::Idle => self,
            Teardown::Requested { restart } => match signal {
                TeardownSignal::ProcessEnded => self,
                _ => SessionModel { teardown: Teardown::Forcing { restart }, ..self },
            },
            Teardown::Forcing { restart } => match signal {
                TeardownSignal::ProcessEnded => SessionModel {
                    teardown: Teardown::Idle,
                    phase: if restart {
                        self.starting_phase()
                    } else {
                        SessionPhase::Terminated
                    },
                    ..self
                },
                _ => self,
            },
        }
    }

    /// The actions that a signal of the teardown gives rise to.
    pub open spec fn signal_actions(self, signal: TeardownSignal) -> Seq<ActionModel> {
        let clearing = ActionModel::Highlight(
            HighlightStepModel::ClearBatch(thread_paths(self.threads, ascending_ids(self.threads))),
        );
        match self.teardown {
            Teardown::Idle => Seq::empty(),
            Teardown::Requested { restart } => match signal {
                TeardownSignal::ProcessEnded => Seq::empty(),
                TeardownSignal::GraceElapsed => seq![
                    ActionModel::ForceTerminate { cause: Some(LifecycleError::ExitTimedOut) },
                ],
                TeardownSignal::RequestSettled => seq![ActionModel::ForceTerminate { cause: None }],
            },
            Teardown::Forcing { restart } => match signal {
                TeardownSignal::ProcessEnded => if restart {
                    seq![clearing, start_action(self.kind, self.config)]
                } else {
                    seq![clearing]
                },
                _ => Seq::empty(),
            },
        }
    }

    /// The actions that follow a reconciliation that gave `state` for the
    /// thread `thread_id`: a view for the thread where it has none, the
    /// notice of the stop, and, where the thread's view is the one in
    /// front, the way to its current frame with the old highlights removed
    /// first.
    pub open spec fn stop_actions(
        self,
        thread_id: u64,
        state: ThreadState,
        event: StoppedEvent,
        view_exists: bool,
        view_active: bool,
    ) -> Seq<ActionModel> {
        let creating = if view_exists {
            Seq::empty()
        } else {
            seq![ActionModel::CreateView { thread_id }]
        };
        let notice = ActionModel::Notify(
            DebugPanelEvent::Stopped {
                client_id: self.client_id,
                event,
                go_to_stack_frame: view_active,
            },
        );
        let showing = if view_active {
            navigation(state.stack_frames@, state.current_stack_frame_id, true).map_values(
                |step: HighlightStepModel| ActionModel::Highlight(step),
            )
        } else {
            Seq::empty()
        };
        creating.push(notice) + showing
    }
}

/// A session with a debug adapter.
pub struct Session {
    client_id: u64,
    kind: RequestKind,
    config: ConfigValue,
    adapter: AdapterCommand,
    capabilities: Capabilities,
    phase: SessionPhase,
    teardown: Teardown,
    threads: ThreadStateStore,
}

impl View for Session {
    type V = SessionModel;

    closed spec fn view(&self) -> SessionModel {
        SessionModel {
            client_id: self.client_id,
            kind: self.kind,
            config: self.config@,
            adapter: self.adapter@,
            capabilities: self.capabilities,
            phase: self.phase,
            teardown: self.teardown,
            threads: self.threads@,
        }
    }
}

fn start_with(kind: RequestKind, config: ConfigValue) -> (action: Action)
    ensures
        action@ == start_action(kind, config@),
{
    match kind {
        RequestKind::Launch => Action::Launch(config),
        RequestKind::Attach => Action::Attach(config),
    }
}

impl Session {
    /// A session that has not heard from its adapter yet.
    pub fn new(client_id: u64, kind: RequestKind, config: ConfigValue, adapter: AdapterCommand) -> (session:
        Session)
        ensures
            session@.client_id == client_id,
            session@.kind == kind,
            session@.config == config@,
            session@.adapter == adapter@,
            session@.capabilities == (Capabilities { supports_step_back: None }),
            session@.phase == SessionPhase::Uninitialized,
            session@.teardown == Teardown::Idle,
            session@.threads == Map::<u64, ThreadState>::empty(),
    {
        Session {
            client_id,
            kind,
            config,
            adapter,
            capabilities: Capabilities { supports_step_back: None },
            phase: SessionPhase::Uninitialized,
            teardown: Teardown::Idle,
            threads: ThreadStateStore::new(),
        }
    }

    /// The id under which the host knows the session.
    pub fn client_id(&self) -> (client_id: u64)
        ensures
            client_id == self@.client_id,
    {
        self.client_id
    }

    /// Where the session stands in its life.
    pub fn phase(&self) -> (phase: SessionPhase)
        ensures
            phase == self@.phase,
    {
        self.phase
    }

    /// What the adapter has said it can do.
    pub fn capabilities(&self) -> (capabilities: Capabilities)
        ensures
            capabilities == self@.capabilities,
    {
        self.capabilities
    }

    /// The threads of the session, to read.
    pub fn threads(&self) -> (threads: &ThreadStateStore)
        ensures
            threads@ == self@.threads,
    {
        &self.threads
    }

    /// Takes an event from the adapter.
    pub fn handle_event(&mut self, event: Event) -> (actions: Vec<Action>)
        ensures
            old(self)@.event_applied(event, final(self)@),
            actions_view(actions@) == old(self)@.event_actions(event),
    {
        let mut actions: Vec<Action> = Vec::new();
        let ghost before = self@;
        match event {
            Event::Initialized => {
                actions.push(Action::SendBreakpoints);
                actions.push(Action::ConfigurationDone);
            },
            Event::Stopped(stopped) => {
                if let Some(thread_id) = stopped.thread_id {
                    match self.phase {
                        SessionPhase::Launching | SessionPhase::Attaching | SessionPhase::Running => {
                            self.phase = SessionPhase::Stopped;
                        },
                        _ => {},
                    }
                    actions.push(Action::Reconcile { thread_id });
                }
            },
            Event::Continued(continued) => {
                match continued.all_threads_continued {
                    Some(true) => {
                        self.threads.set_all_status(ThreadStatus::Running);
                    },
                    _ => {
                        self.threads.set_status(continued.thread_id, ThreadStatus::Running);
                    },
                }
                if self.phase == SessionPhase::Stopped {
                    self.phase = SessionPhase::Running;
                }
            },
            Event::Thread(thread) => {
                match thread.reason {
                    ThreadEventReason::Started => {
                        self.threads.upsert(thread.thread_id, ThreadState::new());
                        proof {
                            assert(self@.threads.dom() =~= before.threads.dom().insert(
                                thread.thread_id,
                            ));
                            assert(self@.threads.remove(thread.thread_id)
                                =~= before.threads.remove(thread.thread_id));
                        }
                    },
                    _ => {
                        match self.threads.get(thread.thread_id) {
                            Some(state) => {
                                actions.push(Action::Highlight(clear(state)));
                            },
                            None => {},
                        }
                        self.threads.update_status(thread.thread_id, ThreadStatus::Ended);
                    },
                }
                actions.push(
                    Action::Notify(
                        DebugPanelEvent::Thread { client_id: self.client_id, thread },
                    ),
                );
            },
            Event::Exited(_) => {
                self.threads.set_all_status(ThreadStatus::Exited);
            },
            Event::Terminated(terminated) => {
                actions.push(Action::Highlight(clear_all(&self.threads)));
                match terminated.restart {
                    Some(arguments) => {
                        actions.push(Action::Disconnect { restart: true });
                        actions.push(start_with(self.kind, arguments));
                        self.phase = match self.kind {
                            RequestKind::Launch => SessionPhase::Launching,
                            RequestKind::Attach => SessionPhase::Attaching,
                        };
                        self.teardown = Teardown::Idle;
                    },
                    None => {
                        actions.push(Action::ShutdownAdapter);
                        self.phase = SessionPhase::Terminating;
                        self.teardown = Teardown::Forcing { restart: false };
                    },
                }
            },
            Event::Output(output) => {
                actions.push(
                    Action::Notify(
                        DebugPanelEvent::Output { client_id: self.client_id, output },
                    ),
                );
            },
            Event::Other => {},
        }
        proof {
            assert(actions_view(actions@) =~= before.event_actions(event));
        }
        actions
    }

    /// The adapter has come up: the session introduces itself.
    pub fn on_adapter_started(&mut self) -> (actions: Vec<Action>)
        ensures
            final(self)@ == old(self)@.adapter_started(),
            actions_view(actions@) == (if old(self)@.phase == SessionPhase::Uninitialized {
                seq![ActionModel::Initialize]
            } else {
                Seq::empty()
            }),
    {
        let mut actions: Vec<Action> = Vec::new();
        if self.phase == SessionPhase::Uninitialized {
            self.phase = SessionPhase::Initializing;
            actions.push(Action::Initialize);
        }
        proof {
            assert(actions_view(actions@) =~= (if old(self)@.phase == SessionPhase::Uninitialized {
                seq![ActionModel::Initialize]
            } else {
                Seq::empty()
            }));
        }
        actions
    }

    /// The adapter has answered `initialize`: the session starts its
    /// debuggee, or joins it, with the configuration it was made with.
    pub fn on_initialize_response(&mut self, capabilities: Capabilities) -> (actions: Vec<Action>)
        ensures
            final(self)@ == old(self)@.initialized_with(capabilities),
            actions_view(actions@) == (if old(self)@.phase == SessionPhase::Initializing {
                seq![start_action(old(self)@.kind, old(self)@.config)]
            } else {
                Seq::empty()
            }),
    {
        let mut actions: Vec<Action> = Vec::new();
        if self.phase == SessionPhase::Initializing {
            self.capabilities = capabilities;
            self.phase = match self.kind {
                RequestKind::Launch => SessionPhase::Launching,
                RequestKind::Attach => SessionPhase::Attaching,
            };
            actions.push(start_with(self.kind, self.config.clone()));
        }
        proof {
            assert(actions_view(actions@) =~= (if old(self)@.phase == SessionPhase::Initializing {
                seq![start_action(old(self)@.kind, old(self)@.config)]
            } else {
                Seq::empty()
            }));
        }
        actions
    }

    /// The adapter has answered `launch` or `attach`.
    pub fn on_started(&mut self)
        ensures
            final(self)@ == old(self)@.started(),
    {
        match self.phase {
            SessionPhase::Launching | SessionPhase::Attaching => {
                self.phase = SessionPhase::Running;
            },
            _ => {},
        }
    }

    /// A request of the startup has failed. The session does not try
    /// again.
    pub fn on_startup_failed(&mut self)
        ensures
            final(self)@ == old(self)@.startup_failed(),
    {
        match self.phase {
            SessionPhase::Initializing | SessionPhase::Launching | SessionPhase::Attaching => {
                self.phase = SessionPhase::Failed;
            },
            _ => {},
        }
    }

    /// Whether the session is being taken down, is down, or never came up.
    pub fn has_ended(&self) -> (ended: bool)
        ensures
            ended == self@.ended(),
    {
        match self.phase {
            SessionPhase::Restarting
            | SessionPhase::Terminating
            | SessionPhase::Terminated
            | SessionPhase::Failed => true,
            _ => false,
        }
    }

    /// Ends the reconciliation that a stop began. The state that the plan
    /// gives takes the place of the thread's state as a whole. A plan that
    /// failed, or that comes in after the teardown has begun, changes
    /// nothing.
    pub fn finish_reconciliation(
        &mut self,
        plan: Reconciliation,
        event: StoppedEvent,
        view_exists: bool,
        view_active: bool,
    ) -> (outcome: Reconciled)
        ensures
            match outcome {
                Reconciled::Applied(actions) => {
                    let thread_id = plan@.thread_id;
                    let state = final(self)@.threads[thread_id];
                    &&& !old(self)@.ended()
                    &&& plan@.shortfall() is None
                    &&& plan@.describes(state)
                    &&& final(self)@.threads == old(self)@.threads.insert(thread_id, state)
                    &&& final(self)@ == (SessionModel {
                        threads: final(self)@.threads,
                        ..old(self)@
                    })
                    &&& actions_view(actions@) == old(self)@.stop_actions(
                        thread_id,
                        state,
                        event,
                        view_exists,
                        view_active,
                    )
                },
                Reconciled::Discarded => old(self)@.ended() && final(self)@ == old(self)@,
                Reconciled::Failed(error) => !old(self)@.ended() && plan@.shortfall() == Some(error)
                    && final(self)@ == old(self)@,
            },
    {
        if self.has_ended() {
            return Reconciled::Discarded;
        }
        let thread_id = plan.thread_id();
        let state = match plan.finish() {
            Ok(state) => state,
            Err(error) => {
                return Reconciled::Failed(error);
            },
        };
        let mut actions: Vec<Action> = Vec::new();
        if !view_exists {
            actions.push(Action::CreateView { thread_id });
        }
        actions.push(
            Action::Notify(
                DebugPanelEvent::Stopped {
                    client_id: self.client_id,
                    event,
                    go_to_stack_frame: view_active,
                },
            ),
        );
        let ghost head = actions_view(actions@);
        if view_active {
            let steps = navigate(&state, state.current_stack_frame_id, true);
            let ghost planned = steps@.map_values(|step: HighlightStep| step@);
            for step in it: steps
                invariant
                    it.seq() == steps@,
                    planned == steps@.map_values(|step: HighlightStep| step@),
                    actions_view(actions@) == head + planned.subrange(
                        0,
                        it.index() as int,
                    ).map_values(|step: HighlightStepModel| ActionModel::Highlight(step)),
            {
                let ghost held = actions@;
                actions.push(Action::Highlight(step));
                proof {
                    let i = it.index() as int;
                    assert(actions_view(actions@) =~= actions_view(held).push(
                        ActionModel::Highlight(planned[i]),
                    ));
                    assert(planned.subrange(0, i + 1).map_values(
                        |step: HighlightStepModel| ActionModel::Highlight(step),
                    ) =~= planned.subrange(0, i).map_values(
                        |step: HighlightStepModel| ActionModel::Highlight(step),
                    ).push(ActionModel::Highlight(planned[i])));
                }
            }
            proof {
                assert(planned.subrange(0, planned.len() as int) =~= planned);
            }
        }
        proof {
            assert(actions_view(actions@) =~= old(self)@.stop_actions(
                thread_id,
                state,
                event,
                view_exists,
                view_active,
            ));
        }
        self.threads.upsert(thread_id, state);
        Reconciled::Applied(actions)
    }

    /// The host asks for the session to be shut down: the adapter is asked
    /// to disconnect, and a grace period begins.
    pub fn shutdown(&mut self) -> (actions: Vec<Action>)
        ensures
            final(self)@ == old(self)@.shutting_down(),
            actions_view(actions@) == old(self)@.shutdown_actions(),
    {
        let mut actions: Vec<Action> = Vec::new();
        match self.phase {
            SessionPhase::Terminating | SessionPhase::Terminated => {},
            SessionPhase::Uninitialized => {
                self.phase = SessionPhase::Terminated;
                self.teardown = Teardown::Idle;
            },
            _ => {
                self.phase = SessionPhase::Terminating;
                self.teardown = Teardown::Requested { restart: false };
                actions.push(Action::Disconnect { restart: false });
                actions.push(Action::StartGraceTimer { seconds: SHUTDOWN_GRACE_SECONDS });
            },
        }
        proof {
            assert(actions_view(actions@) =~= old(self)@.shutdown_actions());
        }
        actions
    }

    /// The host asks for the session to be started again. A session that
    /// is restarting already is left to it.
    pub fn restart(&mut self) -> (actions: Vec<Action>)
        ensures
            final(self)@ == old(self)@.restarting(),
            actions_view(actions@) == old(self)@.restart_actions(),
    {
        let mut actions: Vec<Action> = Vec::new();
        match self.phase {
            SessionPhase::Uninitialized
            | SessionPhase::Terminated
            | SessionPhase::Restarting
            | SessionPhase::Terminating => {},
            _ => {
                self.phase = SessionPhase::Restarting;
                self.teardown = Teardown::Requested { restart: true };
                actions.push(Action::Disconnect { restart: true });
                actions.push(Action::StartGraceTimer { seconds: RESTART_GRACE_SECONDS });
            },
        }
        proof {
            assert(actions_view(actions@) =~= old(self)@.restart_actions());
        }
        actions
    }

    /// Takes a signal of the teardown.
    pub fn on_teardown_signal(&mut self, signal: TeardownSignal) -> (actions: Vec<Action>)
        ensures
            final(self)@ == old(self)@.signalled(signal),
            actions_view(actions@) == old(self)@.signal_actions(signal),
    {
        let mut actions: Vec<Action> = Vec::new();
        match self.teardown {
            Teardown::Idle => {},
            Teardown::Requested { restart } => {
                match signal {
                    TeardownSignal::ProcessEnded => {},
                    TeardownSignal::GraceElapsed => {
                        self.teardown = Teardown::Forcing { restart };
                        actions.push(
                            Action::ForceTerminate { cause: Some(LifecycleError::ExitTimedOut) },
                        );
                    },
                    TeardownSignal::RequestSettled => {
                        self.teardown = Teardown::Forcing { restart };
                        actions.push(Action::ForceTerminate { cause: None });
                    },
                }
            },
            Teardown::Forcing { restart } => {
                match signal {
                    TeardownSignal::ProcessEnded => {
                        actions.push(Action::Highlight(clear_all(&self.threads)));
                        self.teardown = Teardown::Idle;
                        if restart {
                            actions.push(start_with(self.kind, self.config.clone()));
                            self.phase = match self.kind {
                                RequestKind::Launch => SessionPhase::Launching,
                                RequestKind::Attach => SessionPhase::Attaching,
                            };
                        } else {
                            self.phase = SessionPhase::Terminated;
                        }
                    },
                    _ => {},
                }
            },
        }
        proof {
            assert(actions_view(actions@) =~= old(self)@.signal_actions(signal));
        }
        actions
    }

    /// The view of a thread has been closed: the thread's entry goes, and
    /// the adapter is asked to end the thread.
    pub fn close_thread(&mut self, thread_id: u64) -> (actions: Vec<Action>)
        ensures
            final(self)@.threads == old(self)@.threads.remove(thread_id),
            final(self)@ == (SessionModel {
                threads: final(self)@.threads,
                ..old(self)@
            }),
            actions_view(actions@) == seq![ActionModel::TerminateThreads(seq![thread_id])],
    {
        self.threads.remove(thread_id);
        let mut ids: Vec<u64> = Vec::new();
        ids.push(thread_id);
        let mut actions: Vec<Action> = Vec::new();
        actions.push(Action::TerminateThreads(ids));
        proof {
            assert(ids@ =~= seq![thread_id]);
            assert(actions_view(actions@) =~= seq![
                ActionModel::TerminateThreads(seq![thread_id]),
            ]);
        }
        actions
    }

    /// The adapter asks for another session to be started. The new
    /// session has this one's configuration with the request's arguments
    /// laid over it, and this one's adapter.
    pub fn start_debugging(&self, client_id: u64, kind: RequestKind, arguments: ConfigValue) -> (child:
        Session)
        ensures
            child@.client_id == client_id,
            child@.kind == kind,
            child@.config == merged(self@.config, arguments@),
            child@.adapter == self@.adapter,
            child@.capabilities == (Capabilities { supports_step_back: None }),
            child@.phase == SessionPhase::Uninitialized,
            child@.teardown == Teardown::Idle,
            child@.threads == Map::<u64, ThreadState>::empty(),
    {
        Session::new(client_id, kind, merge(self.config.clone(), arguments), self.adapter.clone())
    }
}

/// A stop that names no thread changes nothing and asks for nothing.
pub proof fn lemma_stop_without_thread_changes_nothing(
    before: SessionModel,
    event: StoppedEvent,
    after: SessionModel,
)
    requires
        event.thread_id is None,
        before.event_applied(Event::Stopped(event), after),
    ensures
        after == before,
        before.event_actions(Event::Stopped(event)) == Seq::<ActionModel>::empty(),
{
}

/// After a reconciliation that was applied, the thread is stopped, its
/// current frame is the first frame of the stack trace, and no other
/// thread has changed.
pub proof fn lemma_reconciled_thread_is_stopped(
    plan: ReconcileModel,
    before: Map<u64, ThreadState>,
    after: Map<u64, ThreadState>,
)
    requires
        plan.shortfall() is None,
        after.contains_key(plan.thread_id),
        plan.describes(after[plan.thread_id]),
        after == before.insert(plan.thread_id, after[plan.thread_id]),
    ensures
        after[plan.thread_id].status == ThreadStatus::Stopped,
        plan.frames.len() > 0,
        after[plan.thread_id].current_stack_frame_id == plan.frames[0].frame.id,
        after[plan.thread_id].stack_frames@ == plan.stack(),
        after[plan.thread_id].current_stack_frame_id == plan.stack()[0].id,
        forall|other: u64|
            other != plan.thread_id ==> after.contains_key(other) == before.contains_key(other)
                && (before.contains_key(other) ==> after[other] == before[other]),
{
}

/// When all threads are said to have continued, every thread that has an
/// entry is running, none is added or dropped, and each keeps what else
/// it had. Otherwise the named thread is running and no other thread has
/// changed.
pub proof fn lemma_continued_sets_running(
    before: SessionModel,
    event: ContinuedEvent,
    after: SessionModel,
)
    requires
        before.event_applied(Event::Continued(event), after),
    ensures
        event.all_threads_continued == Some(true) ==> after.threads.dom() == before.threads.dom()
            && forall|id: u64| #[trigger]
            before.threads.contains_key(id) ==> after.threads[id]
                == before.threads[id].with_status(ThreadStatus::Running),
        event.all_threads_continued != Some(true) ==> after.threads.contains_key(event.thread_id)
            && after.threads[event.thread_id].status == ThreadStatus::Running && forall|id: u64|
            id != event.thread_id ==> (#[trigger] after.threads.contains_key(id))
                == before.threads.contains_key(id) && (before.threads.contains_key(id)
                ==> after.threads[id] == before.threads[id]),
{
    if event.all_threads_continued != Some(true) {
        assert forall|id: u64| id != event.thread_id implies (
        #[trigger] after.threads.contains_key(id)) == before.threads.contains_key(id) && (
        before.threads.contains_key(id) ==> after.threads[id] == before.threads[id]) by {
            assert(after.threads.remove(event.thread_id).contains_key(id)
                == before.threads.remove(event.thread_id).contains_key(id));
            assert(after.threads.remove(event.thread_id)[id] == before.threads.remove(
                event.thread_id,
            )[id]);
        }
    } else {
        assert(after.threads.dom() =~= before.threads.dom());
    }
}

/// A thread event that is not a start makes no entry. For a thread that
/// has one, the status becomes `Ended`, the rest of its state stays, and
/// the highlights of all frames recorded for it are cleared; for a thread
/// that has none, the threads stay as they are.
pub proof fn lemma_thread_end_makes_no_entry(
    before: SessionModel,
    event: ThreadEvent,
    after: SessionModel,
)
    requires
        event.reason != ThreadEventReason::Started,
        before.event_applied(Event::Thread(event), after),
    ensures
        after.threads.dom() == before.threads.dom(),
        !before.threads.contains_key(event.thread_id) ==> after.threads == before.threads,
        before.threads.contains_key(event.thread_id) ==> after.threads[event.thread_id]
            == before.threads[event.thread_id].with_status(ThreadStatus::Ended)
            && before.event_actions(Event::Thread(event))[0] == ActionModel::Highlight(
            HighlightStepModel::ClearBatch(
                source_paths(before.threads[event.thread_id].stack_frames@),
            ),
        ),
        forall|id: u64|
            id != event.thread_id && before.threads.contains_key(id) ==> #[trigger] after.threads[id]
                == before.threads[id],
{
    assert(after.threads.dom() =~= before.threads.dom());
}

/// When the adapter has terminated and asks to be restarted, the session
/// disconnects with the restart flag and then starts the debuggee with
/// the arguments of the event; it does not ask for the adapter to be
/// taken down.
pub proof fn lemma_terminated_with_restart_starts_again(
    before: SessionModel,
    event: TerminatedEvent,
    after: SessionModel,
)
    requires
        event.restart is Some,
        before.event_applied(Event::Terminated(event), after),
    ensures
        before.event_actions(Event::Terminated(event)).len() == 3,
        before.event_actions(Event::Terminated(event))[1] == (ActionModel::Disconnect {
            restart: true,
        }),
        before.event_actions(Event::Terminated(event))[2] == start_action(
            before.kind,
            event.restart->0@,
        ),
        forall|i: int|
            0 <= i < 3 ==> before.event_actions(Event::Terminated(event))[i]
                != ActionModel::ShutdownAdapter,
        after.phase == before.starting_phase(),
        after.threads == before.threads,
{
}

/// A session is down, or starts again, only after its process is gone:
/// no signal but `ProcessEnded` takes it out of the teardown.
pub proof fn lemma_teardown_waits_for_process(before: SessionModel, signal: TeardownSignal)
    requires
        before.teardown != Teardown::Idle,
        signal != TeardownSignal::ProcessEnded,
    ensures
        before.signalled(signal).teardown != Teardown::Idle,
        before.signalled(signal).phase == before.phase,
{
}

} // verus!
