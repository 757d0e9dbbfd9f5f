use debug_session::error::ProtocolError;
use debug_session::reconcile::{ReconcileRequest, Reconciliation, SCOPE_DEPTH};
use debug_session::thread::{
    FrameVariables, Scope, ScopeVariables, StackFrame, ThreadStatus, Variable,
};

fn frame(id: u64) -> StackFrame {
    StackFrame {
        id,
        name: format!("fn{id}"),
        source_path: Some(format!("/src/f{id}.rs")),
        line: id,
        column: 1,
    }
}

fn scope(name: &str, reference: u64) -> Scope {
    Scope { name: name.to_string(), variables_reference: reference }
}

fn var(name: &str, reference: u64) -> Variable {
    Variable { name: name.to_string(), value: "0".to_string(), variables_reference: reference }
}

#[test]
fn start_asks_for_the_stack_trace() {
    let (plan, request) = Reconciliation::start(7);
    assert_eq!(request, ReconcileRequest::StackTrace { thread_id: 7 });
    assert_eq!(plan.thread_id(), 7);
    assert!(!plan.is_complete());
    assert_eq!(plan.failure(), None);
}

#[test]
fn stop_of_thread_seven_gives_its_stack_and_locals() {
    let (mut plan, _) = Reconciliation::start(7);
    let f1 = frame(1);
    let f2 = frame(2);
    let scopes = plan.on_stack_trace(vec![f1.clone(), f2.clone()]);
    assert_eq!(
        scopes,
        vec![
            ReconcileRequest::Scopes { frame: 0, stack_frame_id: 1 },
            ReconcileRequest::Scopes { frame: 1, stack_frame_id: 2 },
        ]
    );
    let locals = scope("Locals", 1000);
    let variables = plan.on_scopes(0, vec![locals.clone()]);
    assert_eq!(
        variables,
        vec![ReconcileRequest::Variables {
            frame: 0,
            scope: 0,
            token: 0,
            variables_reference: 1000,
        }]
    );
    assert!(plan.on_scopes(1, vec![]).is_empty());
    assert!(!plan.is_complete());
    assert!(plan.on_variables(0, 0, 0, vec![var("i", 0)]).is_empty());
    assert!(plan.is_complete());

    let state = plan.finish().unwrap();
    assert_eq!(state.status, ThreadStatus::Stopped);
    assert!(state.stopped);
    assert_eq!(state.stack_frames, vec![f1, f2]);
    assert_eq!(state.current_stack_frame_id, 1);
    assert_eq!(SCOPE_DEPTH, 1);
    assert_eq!(
        state.variables,
        vec![
            FrameVariables {
                stack_frame_id: 1,
                scopes: vec![ScopeVariables { scope: locals, variables: vec![(1, var("i", 0))] }],
            },
            FrameVariables { stack_frame_id: 2, scopes: vec![] },
        ]
    );
}

#[test]
fn nested_variables_are_fetched_per_scope() {
    let (mut plan, _) = Reconciliation::start(1);
    plan.on_stack_trace(vec![frame(10)]);
    let requests = plan.on_scopes(0, vec![scope("Locals", 100), scope("Globals", 200)]);
    assert_eq!(
        requests,
        vec![
            ReconcileRequest::Variables { frame: 0, scope: 0, token: 0, variables_reference: 100 },
            ReconcileRequest::Variables { frame: 0, scope: 1, token: 0, variables_reference: 200 },
        ]
    );
    assert!(plan.on_variables(0, 1, 0, vec![var("g", 0)]).is_empty());
    let nested = plan.on_variables(0, 0, 0, vec![var("p", 101), var("q", 102)]);
    assert_eq!(
        nested,
        vec![
            ReconcileRequest::Variables { frame: 0, scope: 0, token: 1, variables_reference: 101 },
            ReconcileRequest::Variables { frame: 0, scope: 0, token: 2, variables_reference: 102 },
        ]
    );
    assert!(plan.on_variables(0, 0, 2, vec![var("q.x", 0)]).is_empty());
    assert!(!plan.is_complete());
    assert!(plan.on_variables(0, 0, 1, vec![var("p.x", 0)]).is_empty());
    assert!(plan.is_complete());
    let state = plan.finish().unwrap();
    assert_eq!(
        state.variables[0].scopes[0].variables,
        vec![(1, var("p", 101)), (2, var("p.x", 0)), (1, var("q", 102)), (2, var("q.x", 0))]
    );
    assert_eq!(state.variables[0].scopes[1].variables, vec![(1, var("g", 0))]);
}

#[test]
fn stack_trace_without_frames_fails_the_plan() {
    let (mut plan, _) = Reconciliation::start(7);
    assert!(plan.on_stack_trace(vec![]).is_empty());
    assert_eq!(plan.failure(), Some(ProtocolError::MissingStackFrame));
    assert_eq!(plan.finish(), Err(ProtocolError::MissingStackFrame));
}

#[test]
fn plan_finished_before_all_answers_is_incomplete() {
    let (plan, _) = Reconciliation::start(7);
    assert_eq!(plan.finish(), Err(ProtocolError::Incomplete));
    let (mut plan, _) = Reconciliation::start(7);
    plan.on_stack_trace(vec![frame(1)]);
    assert_eq!(plan.finish(), Err(ProtocolError::Incomplete));
    let (mut plan, _) = Reconciliation::start(7);
    plan.on_stack_trace(vec![frame(1)]);
    plan.on_scopes(0, vec![scope("Locals", 5)]);
    assert_eq!(plan.finish(), Err(ProtocolError::Incomplete));
}

#[test]
fn any_failure_ends_the_plan() {
    let (mut plan, _) = Reconciliation::start(7);
    plan.on_stack_trace(vec![frame(1), frame(2)]);
    plan.on_scopes(0, vec![scope("Locals", 5)]);
    plan.on_failure(ProtocolError::RequestFailed);
    assert!(plan.on_scopes(1, vec![scope("Locals", 6)]).is_empty());
    assert!(plan.on_variables(0, 0, 0, vec![var("i", 0)]).is_empty());
    assert!(!plan.is_complete());
    plan.on_failure(ProtocolError::MalformedResponse);
    assert_eq!(plan.finish(), Err(ProtocolError::RequestFailed));
}

#[test]
fn answers_that_are_not_waited_for_change_nothing() {
    let (mut plan, _) = Reconciliation::start(7);
    assert!(plan.on_scopes(0, vec![scope("Locals", 5)]).is_empty());
    assert!(plan.on_variables(0, 0, 0, vec![var("i", 0)]).is_empty());
    plan.on_stack_trace(vec![frame(1)]);
    assert!(plan.on_stack_trace(vec![frame(9), frame(8)]).is_empty());
    assert!(plan.on_scopes(3, vec![scope("Locals", 5)]).is_empty());
    plan.on_scopes(0, vec![scope("Locals", 5)]);
    assert!(plan.on_scopes(0, vec![scope("Again", 6)]).is_empty());
    assert!(plan.on_variables(0, 4, 0, vec![var("i", 0)]).is_empty());
    assert!(plan.on_variables(2, 0, 0, vec![var("i", 0)]).is_empty());
    plan.on_variables(0, 0, 0, vec![var("i", 0)]);
    let state = plan.finish().unwrap();
    assert_eq!(state.stack_frames, vec![frame(1)]);
    assert_eq!(state.variables[0].scopes.len(), 1);
    assert_eq!(state.variables[0].scopes[0].scope, scope("Locals", 5));
}

#[test]
fn nested_answers_keep_the_plan_going() {
    let (mut plan, _) = Reconciliation::start(7);
    plan.on_stack_trace(vec![frame(1)]);
    plan.on_scopes(0, vec![scope("Locals", 5)]);
    let mut pending = plan.on_variables(0, 0, 0, vec![var("deep", 5)]);
    let mut steps = 0usize;
    while let Some(ReconcileRequest::Variables { token, .. }) = pending.first().copied() {
        if steps == 3 {
            break;
        }
        pending = plan.on_variables(0, 0, token, vec![var("deep", 5)]);
        steps += 1;
    }
    assert_eq!(plan.failure(), None);
    assert!(!plan.is_complete());
}
