use debug_session::thread::{DebuggerThreadState, StackFrame, ThreadState, ThreadStatus, Variable};

#[test]
fn status_wire_codes_are_in_declaration_order() {
    assert_eq!(ThreadStatus::Running.to_proto(), 0);
    assert_eq!(ThreadStatus::Stopped.to_proto(), 1);
    assert_eq!(ThreadStatus::Exited.to_proto(), 2);
    assert_eq!(ThreadStatus::Ended.to_proto(), 3);
}

#[test]
fn status_round_trips_through_the_wire() {
    for status in [
        ThreadStatus::Running,
        ThreadStatus::Stopped,
        ThreadStatus::Exited,
        ThreadStatus::Ended,
    ] {
        assert_eq!(ThreadStatus::from_proto(status.to_proto()), status);
    }
}

#[test]
fn unknown_wire_code_reads_as_running() {
    assert_eq!(ThreadStatus::from_proto(4), ThreadStatus::Running);
    assert_eq!(ThreadStatus::from_proto(-1), ThreadStatus::Running);
    assert_eq!(ThreadStatus::from_proto(i32::MAX), ThreadStatus::Running);
}

#[test]
fn default_status_is_running() {
    assert_eq!(ThreadStatus::default(), ThreadStatus::Running);
}

#[test]
fn default_thread_state_is_running_and_bare() {
    let state = ThreadState::default();
    assert_eq!(state.status, ThreadStatus::Running);
    assert!(!state.stopped);
    assert!(state.stack_frames.is_empty());
    assert!(state.variables.is_empty());
    assert_eq!(state.current_stack_frame_id, 0);
    assert_eq!(state, ThreadState::new());
}

#[test]
fn thread_state_from_proto_takes_status_and_stopped() {
    let state = ThreadState::from_proto(DebuggerThreadState { thread_status: 1, stopped: true });
    assert_eq!(state.status, ThreadStatus::Stopped);
    assert!(state.stopped);
    assert!(state.stack_frames.is_empty());
    let state = ThreadState::from_proto(DebuggerThreadState { thread_status: 3, stopped: false });
    assert_eq!(state.status, ThreadStatus::Ended);
    assert!(!state.stopped);
}

#[test]
fn thread_state_to_proto_gives_status_and_stopped() {
    let mut state = ThreadState::new();
    state.status = ThreadStatus::Exited;
    state.stopped = true;
    assert_eq!(state.to_proto(), DebuggerThreadState { thread_status: 2, stopped: true });
    assert_eq!(ThreadState::from_proto(state.to_proto()).status, ThreadStatus::Exited);
}

fn frame(id: u64, line: u64, column: u64) -> StackFrame {
    StackFrame { id, name: format!("f{id}"), source_path: None, line, column }
}

#[test]
fn display_position_counts_from_zero() {
    let f = frame(1, 10, 4);
    assert_eq!(f.display_row(), 9);
    assert_eq!(f.display_column(), 3);
    let origin = frame(2, 1, 1);
    assert_eq!(origin.display_row(), 0);
    assert_eq!(origin.display_column(), 0);
}

#[test]
fn display_position_of_zero_stays_zero() {
    let f = frame(1, 0, 0);
    assert_eq!(f.display_row(), 0);
    assert_eq!(f.display_column(), 0);
}

#[test]
fn current_frames_are_shown_only_while_stopped() {
    let mut state = ThreadState::new();
    state.stack_frames = vec![frame(1, 1, 1), frame(2, 5, 1)];
    state.status = ThreadStatus::Stopped;
    assert_eq!(state.current_frames().len(), 2);
    assert_eq!(state.current_frames()[0].id, 1);
    for status in [ThreadStatus::Running, ThreadStatus::Exited, ThreadStatus::Ended] {
        state.status = status;
        assert!(state.current_frames().is_empty());
    }
}

#[test]
fn variable_is_expandable_when_reference_is_not_zero() {
    let leaf = Variable { name: "i".to_string(), value: "1".to_string(), variables_reference: 0 };
    let node = Variable { name: "v".to_string(), value: "[..]".to_string(), variables_reference: 7 };
    assert!(!leaf.is_expandable());
    assert!(node.is_expandable());
}
