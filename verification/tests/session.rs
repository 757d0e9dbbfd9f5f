use debug_session::config::{ConfigEntry, ConfigValue};
use debug_session::error::{LifecycleError, ProtocolError};
use debug_session::events::{
    Action, AdapterCommand, Capabilities, ContinuedEvent, DebugPanelEvent, Event, ExitedEvent,
    HighlightStep, HighlightTarget, OutputEvent, RequestKind, StoppedEvent, TerminatedEvent,
    ThreadEvent, ThreadEventReason,
};
use debug_session::reconcile::Reconciliation;
use debug_session::session::{
    Reconciled, Session, SessionPhase, TeardownSignal, RESTART_GRACE_SECONDS,
    SHUTDOWN_GRACE_SECONDS,
};
use debug_session::thread::{Scope, StackFrame, ThreadState, ThreadStatus, Variable};

fn config(program: &str) -> ConfigValue {
    ConfigValue::Object(vec![ConfigEntry {
        key: "program".to_string(),
        value: ConfigValue::Text(program.to_string()),
    }])
}

fn adapter() -> AdapterCommand {
    AdapterCommand {
        command: "adapter".to_string(),
        args: vec!["--stdio".to_string()],
        cwd: Some("/work".to_string()),
    }
}

fn session(kind: RequestKind) -> Session {
    Session::new(1, kind, config("a.out"), adapter())
}

fn running(kind: RequestKind) -> Session {
    let mut s = session(kind);
    s.on_adapter_started();
    s.on_initialize_response(Capabilities { supports_step_back: Some(true) });
    s.on_started();
    s
}

fn frame(id: u64, path: Option<&str>, line: u64) -> StackFrame {
    StackFrame {
        id,
        name: format!("fn{id}"),
        source_path: path.map(|p| p.to_string()),
        line,
        column: 1,
    }
}

fn stopped(thread_id: Option<u64>) -> StoppedEvent {
    StoppedEvent { reason: "breakpoint".to_string(), thread_id, all_threads_stopped: None }
}

fn finished_plan(thread_id: u64, frames: Vec<StackFrame>) -> Reconciliation {
    let (mut plan, _) = Reconciliation::start(thread_id);
    let count = frames.len();
    plan.on_stack_trace(frames);
    for i in 0..count {
        plan.on_scopes(i, vec![]);
    }
    plan
}

fn stop_thread(s: &mut Session, thread_id: u64, frames: Vec<StackFrame>) {
    s.handle_event(Event::Stopped(stopped(Some(thread_id))));
    let outcome =
        s.finish_reconciliation(finished_plan(thread_id, frames), stopped(Some(thread_id)), true, false);
    assert!(matches!(outcome, Reconciled::Applied(_)));
}

fn statuses(s: &Session) -> Vec<(u64, ThreadStatus)> {
    s.threads()
        .thread_ids()
        .into_iter()
        .map(|id| (id, s.threads().get(id).unwrap().status))
        .collect()
}

#[test]
fn new_session_is_uninitialized_and_has_no_threads() {
    let s = session(RequestKind::Launch);
    assert_eq!(s.client_id(), 1);
    assert_eq!(s.phase(), SessionPhase::Uninitialized);
    assert!(s.threads().is_empty());
    assert!(!s.has_ended());
    assert_eq!(s.capabilities(), Capabilities { supports_step_back: None });
}

#[test]
fn startup_of_a_launch_session() {
    let mut s = session(RequestKind::Launch);
    assert_eq!(s.on_adapter_started(), vec![Action::Initialize]);
    assert_eq!(s.phase(), SessionPhase::Initializing);
    let caps = Capabilities { supports_step_back: Some(true) };
    assert_eq!(s.on_initialize_response(caps), vec![Action::Launch(config("a.out"))]);
    assert_eq!(s.phase(), SessionPhase::Launching);
    assert_eq!(s.capabilities(), caps);
    assert_eq!(
        s.handle_event(Event::Initialized),
        vec![Action::SendBreakpoints, Action::ConfigurationDone]
    );
    assert_eq!(s.phase(), SessionPhase::Launching);
    s.on_started();
    assert_eq!(s.phase(), SessionPhase::Running);
}

#[test]
fn startup_of_an_attach_session() {
    let mut s = session(RequestKind::Attach);
    s.on_adapter_started();
    let actions = s.on_initialize_response(Capabilities { supports_step_back: None });
    assert_eq!(actions, vec![Action::Attach(config("a.out"))]);
    assert_eq!(s.phase(), SessionPhase::Attaching);
    s.on_started();
    assert_eq!(s.phase(), SessionPhase::Running);
}

#[test]
fn startup_steps_out_of_turn_do_nothing() {
    let mut s = session(RequestKind::Launch);
    assert!(s.on_initialize_response(Capabilities { supports_step_back: Some(true) }).is_empty());
    s.on_started();
    assert_eq!(s.phase(), SessionPhase::Uninitialized);
    assert_eq!(s.capabilities(), Capabilities { supports_step_back: None });
    s.on_adapter_started();
    assert!(s.on_adapter_started().is_empty());
    assert_eq!(s.phase(), SessionPhase::Initializing);
}

#[test]
fn failed_startup_is_an_explicit_state() {
    let mut s = session(RequestKind::Launch);
    s.on_adapter_started();
    s.on_startup_failed();
    assert_eq!(s.phase(), SessionPhase::Failed);
    assert!(s.has_ended());
    let mut s = running(RequestKind::Launch);
    s.on_startup_failed();
    assert_eq!(s.phase(), SessionPhase::Running);
}

#[test]
fn stop_without_thread_is_a_no_op() {
    let mut s = running(RequestKind::Launch);
    stop_thread(&mut s, 3, vec![frame(1, None, 1)]);
    s.handle_event(Event::Continued(ContinuedEvent { thread_id: 3, all_threads_continued: None }));
    let before = statuses(&s);
    let phase = s.phase();
    let actions = s.handle_event(Event::Stopped(stopped(None)));
    assert!(actions.is_empty());
    assert_eq!(statuses(&s), before);
    assert_eq!(s.phase(), phase);
    assert_eq!(s.threads().get(3).unwrap().stack_frames.len(), 1);
}

#[test]
fn stop_with_thread_asks_for_reconciliation_and_leaves_the_store() {
    let mut s = running(RequestKind::Launch);
    let actions = s.handle_event(Event::Stopped(stopped(Some(7))));
    assert_eq!(actions, vec![Action::Reconcile { thread_id: 7 }]);
    assert_eq!(s.phase(), SessionPhase::Stopped);
    assert!(s.threads().is_empty());
}

#[test]
fn applied_reconciliation_stops_the_thread_at_the_first_frame() {
    let mut s = running(RequestKind::Launch);
    s.handle_event(Event::Stopped(stopped(Some(7))));
    let f1 = frame(11, Some("/src/a.rs"), 5);
    let f2 = frame(12, Some("/src/b.rs"), 9);
    let (mut plan, _) = Reconciliation::start(7);
    plan.on_stack_trace(vec![f1.clone(), f2.clone()]);
    plan.on_scopes(0, vec![Scope { name: "Locals".to_string(), variables_reference: 50 }]);
    plan.on_scopes(1, vec![]);
    plan.on_variables(
        0,
        0,
        0,
        vec![Variable { name: "i".to_string(), value: "1".to_string(), variables_reference: 0 }],
    );
    let outcome = s.finish_reconciliation(plan, stopped(Some(7)), false, true);
    let expected = vec![
        Action::CreateView { thread_id: 7 },
        Action::Notify(DebugPanelEvent::Stopped {
            client_id: 1,
            event: stopped(Some(7)),
            go_to_stack_frame: true,
        }),
        Action::Highlight(HighlightStep::ClearBatch(vec![
            "/src/a.rs".to_string(),
            "/src/b.rs".to_string(),
        ])),
        Action::Highlight(HighlightStep::Apply(HighlightTarget {
            path: "/src/a.rs".to_string(),
            row: 4,
            column: 0,
        })),
    ];
    assert_eq!(outcome, Reconciled::Applied(expected));
    let state = s.threads().get(7).unwrap();
    assert_eq!(state.status, ThreadStatus::Stopped);
    assert_eq!(state.current_stack_frame_id, 11);
    assert_eq!(state.stack_frames, vec![f1, f2]);
    assert_eq!(state.variables[0].scopes[0].variables.len(), 1);
    assert_eq!(state.variables[0].scopes[0].variables[0].0, 1);
}

#[test]
fn reconciliation_for_a_view_in_the_back_skips_navigation() {
    let mut s = running(RequestKind::Launch);
    s.handle_event(Event::Stopped(stopped(Some(7))));
    let plan = finished_plan(7, vec![frame(11, Some("/src/a.rs"), 5)]);
    let outcome = s.finish_reconciliation(plan, stopped(Some(7)), true, false);
    assert_eq!(
        outcome,
        Reconciled::Applied(vec![Action::Notify(DebugPanelEvent::Stopped {
            client_id: 1,
            event: stopped(Some(7)),
            go_to_stack_frame: false,
        })])
    );
    assert_eq!(s.threads().get(7).unwrap().status, ThreadStatus::Stopped);
}

#[test]
fn frame_without_source_is_not_navigated_to_but_state_applies() {
    let mut s = running(RequestKind::Launch);
    s.handle_event(Event::Stopped(stopped(Some(7))));
    let plan = finished_plan(7, vec![frame(11, None, 5), frame(12, Some("/src/b.rs"), 2)]);
    let outcome = s.finish_reconciliation(plan, stopped(Some(7)), true, true);
    assert_eq!(
        outcome,
        Reconciled::Applied(vec![
            Action::Notify(DebugPanelEvent::Stopped {
                client_id: 1,
                event: stopped(Some(7)),
                go_to_stack_frame: true,
            }),
            Action::Highlight(HighlightStep::ClearBatch(vec!["/src/b.rs".to_string()])),
        ])
    );
    assert_eq!(s.threads().get(7).unwrap().current_stack_frame_id, 11);
}

#[test]
fn failed_reconciliation_leaves_the_prior_state() {
    let mut s = running(RequestKind::Launch);
    stop_thread(&mut s, 7, vec![frame(11, Some("/src/a.rs"), 5)]);
    let before = s.threads().get(7).cloned();
    s.handle_event(Event::Stopped(stopped(Some(7))));
    let (mut plan, _) = Reconciliation::start(7);
    plan.on_stack_trace(vec![frame(21, None, 1), frame(22, None, 2)]);
    plan.on_failure(ProtocolError::RequestFailed);
    let outcome = s.finish_reconciliation(plan, stopped(Some(7)), true, true);
    assert_eq!(outcome, Reconciled::Failed(ProtocolError::RequestFailed));
    assert_eq!(s.threads().get(7).cloned(), before);

    let (plan, _) = Reconciliation::start(8);
    let outcome = s.finish_reconciliation(plan, stopped(Some(8)), false, true);
    assert_eq!(outcome, Reconciled::Failed(ProtocolError::Incomplete));
    assert!(s.threads().get(8).is_none());
}

#[test]
fn reconciliation_that_comes_in_after_teardown_began_is_discarded() {
    let mut s = running(RequestKind::Launch);
    s.handle_event(Event::Stopped(stopped(Some(7))));
    s.shutdown();
    let plan = finished_plan(7, vec![frame(11, None, 1)]);
    let outcome = s.finish_reconciliation(plan, stopped(Some(7)), false, true);
    assert_eq!(outcome, Reconciled::Discarded);
    assert!(s.threads().is_empty());
}

#[test]
fn continued_for_all_threads_sets_every_thread_running() {
    let mut s = running(RequestKind::Launch);
    stop_thread(&mut s, 1, vec![frame(11, None, 1)]);
    stop_thread(&mut s, 2, vec![frame(21, None, 1)]);
    s.handle_event(Event::Thread(ThreadEvent { reason: ThreadEventReason::Exited, thread_id: 2 }));
    let actions = s.handle_event(Event::Continued(ContinuedEvent {
        thread_id: 1,
        all_threads_continued: Some(true),
    }));
    assert!(actions.is_empty());
    assert_eq!(statuses(&s), vec![(1, ThreadStatus::Running), (2, ThreadStatus::Running)]);
    assert_eq!(s.phase(), SessionPhase::Running);
    assert_eq!(s.threads().get(1).unwrap().stack_frames.len(), 1);
}

#[test]
fn continued_for_one_thread_changes_only_that_thread() {
    for all in [None, Some(false)] {
        let mut s = running(RequestKind::Launch);
        stop_thread(&mut s, 1, vec![frame(11, None, 1)]);
        stop_thread(&mut s, 2, vec![frame(21, None, 1)]);
        s.handle_event(Event::Continued(ContinuedEvent { thread_id: 2, all_threads_continued: all }));
        assert_eq!(statuses(&s), vec![(1, ThreadStatus::Stopped), (2, ThreadStatus::Running)]);
    }
}

#[test]
fn continued_for_an_unknown_thread_enters_it_running() {
    let mut s = running(RequestKind::Launch);
    s.handle_event(Event::Continued(ContinuedEvent { thread_id: 5, all_threads_continued: None }));
    let mut expected = ThreadState::new();
    expected.status = ThreadStatus::Running;
    assert_eq!(s.threads().get(5), Some(&expected));
}

#[test]
fn thread_started_enters_a_running_thread() {
    let mut s = running(RequestKind::Launch);
    let event = ThreadEvent { reason: ThreadEventReason::Started, thread_id: 4 };
    let actions = s.handle_event(Event::Thread(event));
    assert_eq!(actions, vec![Action::Notify(DebugPanelEvent::Thread { client_id: 1, thread: event })]);
    assert_eq!(s.threads().get(4), Some(&ThreadState::new()));
}

#[test]
fn thread_end_of_an_unknown_thread_makes_no_entry() {
    for reason in [ThreadEventReason::Exited, ThreadEventReason::Other] {
        let mut s = running(RequestKind::Launch);
        stop_thread(&mut s, 1, vec![frame(11, None, 1)]);
        let event = ThreadEvent { reason, thread_id: 9 };
        let actions = s.handle_event(Event::Thread(event));
        assert_eq!(actions, vec![Action::Notify(DebugPanelEvent::Thread { client_id: 1, thread: event })]);
        assert!(s.threads().get(9).is_none());
        assert_eq!(statuses(&s), vec![(1, ThreadStatus::Stopped)]);
    }
}

#[test]
fn thread_end_of_a_known_thread_ends_it_and_clears_its_frames() {
    let mut s = running(RequestKind::Launch);
    stop_thread(
        &mut s,
        1,
        vec![frame(11, Some("/src/a.rs"), 1), frame(12, None, 1), frame(13, Some("/src/c.rs"), 1)],
    );
    stop_thread(&mut s, 2, vec![frame(21, Some("/src/z.rs"), 1)]);
    let event = ThreadEvent { reason: ThreadEventReason::Exited, thread_id: 1 };
    let actions = s.handle_event(Event::Thread(event));
    assert_eq!(
        actions,
        vec![
            Action::Highlight(HighlightStep::ClearBatch(vec![
                "/src/a.rs".to_string(),
                "/src/c.rs".to_string(),
            ])),
            Action::Notify(DebugPanelEvent::Thread { client_id: 1, thread: event }),
        ]
    );
    assert_eq!(statuses(&s), vec![(1, ThreadStatus::Ended), (2, ThreadStatus::Stopped)]);
    assert_eq!(s.threads().get(1).unwrap().stack_frames.len(), 3);
}

#[test]
fn exited_sets_every_thread_exited() {
    let mut s = running(RequestKind::Launch);
    stop_thread(&mut s, 1, vec![frame(11, None, 1)]);
    s.handle_event(Event::Thread(ThreadEvent { reason: ThreadEventReason::Started, thread_id: 2 }));
    let actions = s.handle_event(Event::Exited(ExitedEvent { exit_code: 0 }));
    assert!(actions.is_empty());
    assert_eq!(statuses(&s), vec![(1, ThreadStatus::Exited), (2, ThreadStatus::Exited)]);
}

#[test]
fn output_is_passed_on_and_changes_nothing() {
    let mut s = running(RequestKind::Launch);
    let event = OutputEvent { category: Some("stdout".to_string()), output: "hello\n".to_string() };
    let actions = s.handle_event(Event::Output(event.clone()));
    assert_eq!(actions, vec![Action::Notify(DebugPanelEvent::Output { client_id: 1, output: event })]);
    assert_eq!(s.phase(), SessionPhase::Running);
    assert!(s.threads().is_empty());
}

#[test]
fn other_events_are_no_ops() {
    let mut s = running(RequestKind::Launch);
    assert!(s.handle_event(Event::Other).is_empty());
    assert_eq!(s.phase(), SessionPhase::Running);
}

#[test]
fn terminated_with_restart_disconnects_and_starts_again() {
    for (kind, phase) in [
        (RequestKind::Launch, SessionPhase::Launching),
        (RequestKind::Attach, SessionPhase::Attaching),
    ] {
        let mut s = running(kind);
        stop_thread(&mut s, 1, vec![frame(11, Some("/src/a.rs"), 1)]);
        let actions =
            s.handle_event(Event::Terminated(TerminatedEvent { restart: Some(config("b.out")) }));
        let start = match kind {
            RequestKind::Launch => Action::Launch(config("b.out")),
            RequestKind::Attach => Action::Attach(config("b.out")),
        };
        assert_eq!(
            actions,
            vec![
                Action::Highlight(HighlightStep::ClearBatch(vec!["/src/a.rs".to_string()])),
                Action::Disconnect { restart: true },
                start,
            ]
        );
        assert!(!actions.contains(&Action::ShutdownAdapter));
        assert_eq!(s.phase(), phase);
    }
}

#[test]
fn terminated_without_restart_takes_the_adapter_down() {
    let mut s = running(RequestKind::Launch);
    stop_thread(&mut s, 2, vec![frame(21, Some("/src/b.rs"), 1)]);
    stop_thread(&mut s, 1, vec![frame(11, Some("/src/a.rs"), 1)]);
    let actions = s.handle_event(Event::Terminated(TerminatedEvent { restart: None }));
    assert_eq!(
        actions,
        vec![
            Action::Highlight(HighlightStep::ClearBatch(vec![
                "/src/a.rs".to_string(),
                "/src/b.rs".to_string(),
            ])),
            Action::ShutdownAdapter,
        ]
    );
    assert_eq!(s.phase(), SessionPhase::Terminating);
    assert!(s.has_ended());
    assert!(s.on_teardown_signal(TeardownSignal::GraceElapsed).is_empty());
    let done = s.on_teardown_signal(TeardownSignal::ProcessEnded);
    assert_eq!(done.len(), 1);
    assert_eq!(s.phase(), SessionPhase::Terminated);
}

#[test]
fn shutdown_waits_for_the_process_before_it_is_terminated() {
    assert_eq!(SHUTDOWN_GRACE_SECONDS, 3);
    let mut s = running(RequestKind::Launch);
    stop_thread(&mut s, 1, vec![frame(11, Some("/src/a.rs"), 1)]);
    assert_eq!(
        s.shutdown(),
        vec![Action::Disconnect { restart: false }, Action::StartGraceTimer { seconds: 3 }]
    );
    assert_eq!(s.phase(), SessionPhase::Terminating);
    assert!(s.on_teardown_signal(TeardownSignal::ProcessEnded).is_empty());
    assert_eq!(s.phase(), SessionPhase::Terminating);
    assert_eq!(
        s.on_teardown_signal(TeardownSignal::GraceElapsed),
        vec![Action::ForceTerminate { cause: Some(LifecycleError::ExitTimedOut) }]
    );
    assert!(s.on_teardown_signal(TeardownSignal::RequestSettled).is_empty());
    assert_eq!(s.phase(), SessionPhase::Terminating);
    assert_eq!(
        s.on_teardown_signal(TeardownSignal::ProcessEnded),
        vec![Action::Highlight(HighlightStep::ClearBatch(vec!["/src/a.rs".to_string()]))]
    );
    assert_eq!(s.phase(), SessionPhase::Terminated);
    assert!(s.on_teardown_signal(TeardownSignal::ProcessEnded).is_empty());
    assert!(s.shutdown().is_empty());
}

#[test]
fn answer_to_the_shutdown_request_also_ends_the_wait() {
    let mut s = running(RequestKind::Launch);
    s.shutdown();
    assert_eq!(
        s.on_teardown_signal(TeardownSignal::RequestSettled),
        vec![Action::ForceTerminate { cause: None }]
    );
    assert!(s.on_teardown_signal(TeardownSignal::GraceElapsed).is_empty());
}

#[test]
fn restart_starts_again_once_the_process_is_gone() {
    assert_eq!(RESTART_GRACE_SECONDS, 1);
    let mut s = running(RequestKind::Attach);
    assert_eq!(
        s.restart(),
        vec![Action::Disconnect { restart: true }, Action::StartGraceTimer { seconds: 1 }]
    );
    assert_eq!(s.phase(), SessionPhase::Restarting);
    assert!(s.restart().is_empty());
    assert_eq!(
        s.on_teardown_signal(TeardownSignal::GraceElapsed),
        vec![Action::ForceTerminate { cause: Some(LifecycleError::ExitTimedOut) }]
    );
    assert_eq!(s.phase(), SessionPhase::Restarting);
    assert_eq!(
        s.on_teardown_signal(TeardownSignal::ProcessEnded),
        vec![Action::Highlight(HighlightStep::ClearBatch(vec![])), Action::Attach(config("a.out"))]
    );
    assert_eq!(s.phase(), SessionPhase::Attaching);
    s.on_started();
    assert_eq!(s.phase(), SessionPhase::Running);
}

#[test]
fn teardown_signal_without_teardown_does_nothing() {
    let mut s = running(RequestKind::Launch);
    for signal in
        [TeardownSignal::RequestSettled, TeardownSignal::GraceElapsed, TeardownSignal::ProcessEnded]
    {
        assert!(s.on_teardown_signal(signal).is_empty());
        assert_eq!(s.phase(), SessionPhase::Running);
    }
}

#[test]
fn closing_a_view_drops_the_thread_and_ends_it_downstream() {
    let mut s = running(RequestKind::Launch);
    stop_thread(&mut s, 1, vec![frame(11, None, 1)]);
    stop_thread(&mut s, 2, vec![frame(21, None, 1)]);
    assert_eq!(s.close_thread(1), vec![Action::TerminateThreads(vec![1])]);
    assert_eq!(statuses(&s), vec![(2, ThreadStatus::Stopped)]);
    assert_eq!(s.close_thread(1), vec![Action::TerminateThreads(vec![1])]);
}

#[test]
fn child_session_merges_the_request_over_the_parent() {
    let parent = Session::new(
        1,
        RequestKind::Launch,
        ConfigValue::Object(vec![
            ConfigEntry { key: "a".to_string(), value: ConfigValue::Integer(1) },
            ConfigEntry {
                key: "b".to_string(),
                value: ConfigValue::Object(vec![ConfigEntry {
                    key: "x".to_string(),
                    value: ConfigValue::Integer(1),
                }]),
            },
        ]),
        adapter(),
    );
    let request = ConfigValue::Object(vec![
        ConfigEntry {
            key: "b".to_string(),
            value: ConfigValue::Object(vec![ConfigEntry {
                key: "y".to_string(),
                value: ConfigValue::Integer(2),
            }]),
        },
        ConfigEntry { key: "c".to_string(), value: ConfigValue::Integer(3) },
    ]);
    let mut child = parent.start_debugging(2, RequestKind::Attach, request);
    assert_eq!(child.client_id(), 2);
    assert_eq!(child.phase(), SessionPhase::Uninitialized);
    assert!(child.threads().is_empty());
    child.on_adapter_started();
    let start = child.on_initialize_response(Capabilities { supports_step_back: None });
    let merged = ConfigValue::Object(vec![
        ConfigEntry { key: "a".to_string(), value: ConfigValue::Integer(1) },
        ConfigEntry {
            key: "b".to_string(),
            value: ConfigValue::Object(vec![
                ConfigEntry { key: "x".to_string(), value: ConfigValue::Integer(1) },
                ConfigEntry { key: "y".to_string(), value: ConfigValue::Integer(2) },
            ]),
        },
        ConfigEntry { key: "c".to_string(), value: ConfigValue::Integer(3) },
    ]);
    assert_eq!(start, vec![Action::Attach(merged)]);
    assert_eq!(parent.phase(), SessionPhase::Uninitialized);
}

#[test]
fn shutdown_before_the_adapter_is_up_is_down_at_once() {
    let mut s = session(RequestKind::Launch);
    assert!(s.shutdown().is_empty());
    assert_eq!(s.phase(), SessionPhase::Terminated);
    assert!(s.on_teardown_signal(TeardownSignal::ProcessEnded).is_empty());
    assert_eq!(s.phase(), SessionPhase::Terminated);
}

#[test]
fn restart_without_an_adapter_does_nothing() {
    let mut s = session(RequestKind::Launch);
    assert!(s.restart().is_empty());
    assert_eq!(s.phase(), SessionPhase::Uninitialized);
    let mut s = running(RequestKind::Launch);
    s.shutdown();
    assert!(s.restart().is_empty());
    assert_eq!(s.phase(), SessionPhase::Terminating);
    s.on_teardown_signal(TeardownSignal::GraceElapsed);
    s.on_teardown_signal(TeardownSignal::ProcessEnded);
    assert!(s.restart().is_empty());
    assert_eq!(s.phase(), SessionPhase::Terminated);
}

#[test]
fn shutdown_during_a_restart_takes_the_session_down() {
    let mut s = running(RequestKind::Launch);
    s.restart();
    assert_eq!(
        s.shutdown(),
        vec![Action::Disconnect { restart: false }, Action::StartGraceTimer { seconds: 3 }]
    );
    s.on_teardown_signal(TeardownSignal::RequestSettled);
    s.on_teardown_signal(TeardownSignal::ProcessEnded);
    assert_eq!(s.phase(), SessionPhase::Terminated);
}

#[test]
fn restart_after_a_failed_startup_is_possible() {
    let mut s = session(RequestKind::Launch);
    s.on_adapter_started();
    s.on_startup_failed();
    assert_eq!(s.restart().len(), 2);
    assert_eq!(s.phase(), SessionPhase::Restarting);
}
