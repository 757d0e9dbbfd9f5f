//! What follows a stop: the stack of the stopped thread is read, then the
//! scopes of every frame, then the variables of every scope, and a new
//! thread state is put together from the answers.
//!
//! The plan hands out requests and takes answers. The requests that one
//! answer gives are independent of each other and may be performed side by
//! side. Any failure ends the plan, and a plan that has failed gives no
//! state.

use crate::error::ProtocolError;
use crate::thread::{
    FrameVariables, Scope, ScopeVariables, StackFrame, ThreadState, ThreadStatus, Variable,
};
use crate::variables::{FetchModel, VariableFetch, VariableRequest, ROOT_TOKEN};
use vstd::prelude::*;

verus! {

/// The depth at which the variables that a scope lists directly stand.
pub const SCOPE_DEPTH: usize = 1;

/// A request to the adapter. `frame` and `scope` are positions in the
/// plan, to be handed back with the answer.
#[derive(Copy, Clone, Debug, PartialEq, Eq, Structural)]
pub enum ReconcileRequest {
    StackTrace { thread_id: u64 },
    Scopes { frame: usize, stack_frame_id: u64 },
    Variables { frame: usize, scope: usize, token: usize, variables_reference: u64 },
}

/// A scope of the plan and the fetch of its variables.
pub struct ScopeModel {
    pub scope: Scope,
    pub fetch: FetchModel,
}

/// A frame of the plan and, once they have come in, its scopes.
pub struct FrameModel {
    pub frame: StackFrame,
    pub scopes_awaiting: bool,
    pub scopes: Seq<ScopeModel>,
}

/// What a plan is, to those who use it.
pub struct ReconcileModel {
    pub thread_id: u64,
    pub stack_awaiting: bool,
    pub frames: Seq<FrameModel>,
    pub failure: Option<ProtocolError>,
}

/// The plan of a frame whose scopes have been asked for.
pub open spec fn frame_asked(frame: StackFrame) -> FrameModel {
    FrameModel { frame, scopes_awaiting: true, scopes: Seq::empty() }
}

/// The plan of a scope whose variables have been asked for.
pub open spec fn scope_asked(scope: Scope) -> ScopeModel {
    ScopeModel { scope, fetch: FetchModel::initial(scope.variables_reference, SCOPE_DEPTH) }
}

/// The request for the variables of a scope, as part of a plan.
pub open spec fn variables_request(frame: usize, scope: usize, request: VariableRequest) -> ReconcileRequest {
    ReconcileRequest::Variables {
        frame,
        scope,
        token: request.token,
        variables_reference: request.variables_reference,
    }
}

impl FrameModel {
    /// Whether the frame's scopes have come in, and the variables of each.
    pub open spec fn complete(self) -> bool {
        &&& !self.scopes_awaiting
        &&& forall|k: int| 0 <= k < self.scopes.len() ==> (#[trigger] self.scopes[k]).fetch.complete()
    }

    /// The frame's id with its scopes and their variables.
    pub open spec fn variables(self) -> (u64, Seq<(Scope, Seq<(usize, Variable)>)>) {
        (
            self.frame.id,
            self.scopes.map_values(|scope: ScopeModel| (scope.scope, scope.fetch.entries())),
        )
    }
}

impl ReconcileModel {
    /// The plan as it starts.
    pub open spec fn initial(thread_id: u64) -> ReconcileModel {
        ReconcileModel { thread_id, stack_awaiting: true, frames: Seq::empty(), failure: None }
    }

    /// The plan after a failure: what was gathered is dropped, and the
    /// first failure is the one that is reported.
    pub open spec fn failed(self, error: ProtocolError) -> ReconcileModel {
        if self.failure is Some {
            self
        } else {
            ReconcileModel {
                stack_awaiting: false,
                frames: Seq::empty(),
                failure: Some(error),
                ..self
            }
        }
    }

    /// Whether the stack trace is waited for.
    pub open spec fn expects_stack(self) -> bool {
        self.failure is None && self.stack_awaiting
    }

    /// The plan after the stack trace has come in. A trace without frames
    /// fails the plan.
    pub open spec fn with_stack(self, frames: Seq<StackFrame>) -> ReconcileModel {
        if !self.expects_stack() {
            self
        } else if frames.len() == 0 {
            self.failed(ProtocolError::MissingStackFrame)
        } else {
            ReconcileModel {
                stack_awaiting: false,
                frames: frames.map_values(|frame: StackFrame| frame_asked(frame)),
                ..self
            }
        }
    }

    /// The requests that the stack trace gives rise to: the scopes of
    /// every frame.
    pub open spec fn stack_follow_ups(self, frames: Seq<StackFrame>) -> Seq<ReconcileRequest> {
        if self.expects_stack() {
            Seq::new(
                frames.len(),
                |i: int| ReconcileRequest::Scopes { frame: i as usize, stack_frame_id: frames[i].id },
            )
        } else {
            Seq::empty()
        }
    }

    /// Whether the scopes of the frame at `frame` are waited for.
    pub open spec fn expects_scopes(self, frame: usize) -> bool {
        &&& self.failure is None
        &&& frame < self.frames.len()
        &&& self.frames[frame as int].scopes_awaiting
    }

    /// The plan after the scopes of the frame at `frame` have come in.
    pub open spec fn with_scopes(self, frame: usize, scopes: Seq<Scope>) -> ReconcileModel {
        if !self.expects_scopes(frame) {
            self
        } else {
            ReconcileModel {
                frames: self.frames.update(
                    frame as int,
                    FrameModel {
                        scopes_awaiting: false,
                        scopes: scopes.map_values(|scope: Scope| scope_asked(scope)),
                        ..self.frames[frame as int]
                    },
                ),
                ..self
            }
        }
    }

    /// The requests that the scopes of a frame give rise to: the
    /// variables of every scope.
    pub open spec fn scopes_follow_ups(self, frame: usize, scopes: Seq<Scope>) -> Seq<
        ReconcileRequest,
    > {
        if self.expects_scopes(frame) {
            Seq::new(
                scopes.len(),
                |k: int|
                    ReconcileRequest::Variables {
                        frame,
                        scope: k as usize,
                        token: ROOT_TOKEN,
                        variables_reference: scopes[k].variables_reference,
                    },
            )
        } else {
            Seq::empty()
        }
    }

    /// Whether the plan holds a fetch at `frame` and `scope`.
    pub open spec fn has_fetch(self, frame: usize, scope: usize) -> bool {
        &&& self.failure is None
        &&& frame < self.frames.len()
        &&& scope < self.frames[frame as int].scopes.len()
    }

    /// The fetch at `frame` and `scope`.
    pub open spec fn fetch(self, frame: usize, scope: usize) -> FetchModel {
        self.frames[frame as int].scopes[scope as int].fetch
    }

    /// The plan after variables have come in for the fetch at `frame` and
    /// `scope`. An answer that fails the fetch fails the plan.
    pub open spec fn with_variables(
        self,
        frame: usize,
        scope: usize,
        token: usize,
        variables: Seq<Variable>,
    ) -> ReconcileModel {
        if !self.has_fetch(frame, scope) {
            self
        } else {
            let fetch = self.fetch(frame, scope).answered(token, variables);
            if fetch.failure is Some {
                self.failed(fetch.failure->0)
            } else {
                let plan = self.frames[frame as int];
                ReconcileModel {
                    frames: self.frames.update(
                        frame as int,
                        FrameModel {
                            scopes: plan.scopes.update(
                                scope as int,
                                ScopeModel { fetch, ..plan.scopes[scope as int] },
                            ),
                            ..plan
                        },
                    ),
                    ..self
                }
            }
        }
    }

    /// The requests that an answer with variables gives rise to.
    pub open spec fn variables_follow_ups(
        self,
        frame: usize,
        scope: usize,
        token: usize,
        variables: Seq<Variable>,
    ) -> Seq<ReconcileRequest> {
        if self.has_fetch(frame, scope) && self.fetch(frame, scope).answered(
            token,
            variables,
        ).failure is None {
            self.fetch(frame, scope).follow_ups(token, variables).map_values(
                |request: VariableRequest| variables_request(frame, scope, request),
            )
        } else {
            Seq::empty()
        }
    }

    /// The stack of the plan: its frames, top frame first.
    pub open spec fn stack(self) -> Seq<StackFrame> {
        self.frames.map_values(|plan: FrameModel| plan.frame)
    }

    /// Whether nothing is outstanding and nothing has failed.
    pub open spec fn complete(self) -> bool {
        &&& self.failure is None
        &&& !self.stack_awaiting
        &&& forall|i: int| 0 <= i < self.frames.len() ==> (#[trigger] self.frames[i]).complete()
    }

    /// Why the plan gives no state, if it gives none.
    pub open spec fn shortfall(self) -> Option<ProtocolError> {
        if self.failure is Some {
            self.failure
        } else if !self.complete() {
            Some(ProtocolError::Incomplete)
        } else if self.frames.len() == 0 {
            Some(ProtocolError::MissingStackFrame)
        } else {
            None
        }
    }

    /// Whether `state` is the state that the finished plan describes: the
    /// thread is stopped, its stack is the stack trace as it came, the
    /// current frame is the first of them, and each frame has the
    /// variables that were fetched for its scopes.
    pub open spec fn describes(self, state: ThreadState) -> bool {
        &&& state.status == ThreadStatus::Stopped
        &&& state.stopped
        &&& state.stack_frames@ == self.stack()
        &&& state.current_stack_frame_id == self.frames[0].frame.id
        &&& state.variables_view() == self.frames.map_values(|plan: FrameModel| plan.variables())
    }
}

/// The stack of a plan is the stack trace as it came in: the answers
/// that follow add to the frames and leave them in their places.
pub proof fn lemma_stack_is_the_trace(
    plan: ReconcileModel,
    trace: Seq<StackFrame>,
    frame: usize,
    scopes: Seq<Scope>,
    scope: usize,
    token: usize,
    variables: Seq<Variable>,
)
    ensures
        plan.expects_stack() && trace.len() > 0 ==> plan.with_stack(trace).stack() == trace,
        plan.with_scopes(frame, scopes).stack() == plan.stack(),
        plan.with_variables(frame, scope, token, variables).failure == plan.failure
            ==> plan.with_variables(frame, scope, token, variables).stack() == plan.stack(),
{
    if plan.expects_stack() && trace.len() > 0 {
        assert(plan.with_stack(trace).stack() =~= trace);
    }
    assert(plan.with_scopes(frame, scopes).stack() =~= plan.stack());
    if plan.with_variables(frame, scope, token, variables).failure == plan.failure {
        assert(plan.with_variables(frame, scope, token, variables).stack() =~= plan.stack());
    }
}

struct ScopePlan {
    scope: Scope,
    fetch: VariableFetch,
}

impl View for ScopePlan {
    type V = ScopeModel;

    closed spec fn view(&self) -> ScopeModel {
        ScopeModel { scope: self.scope, fetch: self.fetch@ }
    }
}

struct FramePlan {
    frame: StackFrame,
    scopes_awaiting: bool,
    scopes: Vec<ScopePlan>,
}

impl View for FramePlan {
    type V = FrameModel;

    closed spec fn view(&self) -> FrameModel {
        FrameModel {
            frame: self.frame,
            scopes_awaiting: self.scopes_awaiting,
            scopes: self.scopes@.map_values(|scope: ScopePlan| scope@),
        }
    }
}

/// A plan in progress.
pub struct Reconciliation {
    thread_id: u64,
    stack_awaiting: bool,
    frames: Vec<FramePlan>,
    failure: Option<ProtocolError>,
}

impl View for Reconciliation {
    type V = ReconcileModel;

    closed spec fn view(&self) -> ReconcileModel {
        ReconcileModel {
            thread_id: self.thread_id,
            stack_awaiting: self.stack_awaiting,
            frames: self.frames@.map_values(|frame: FramePlan| frame@),
            failure: self.failure,
        }
    }
}

impl Reconciliation {
    /// Starts the plan for the thread `thread_id`, which has stopped.
    pub fn start(thread_id: u64) -> (started: (Reconciliation, ReconcileRequest))
        ensures
            started.0@ == ReconcileModel::initial(thread_id),
            started.1 == (ReconcileRequest::StackTrace { thread_id }),
    {
        let plan = Reconciliation {
            thread_id,
            stack_awaiting: true,
            frames: Vec::new(),
            failure: None,
        };
        assert(plan@.frames =~= Seq::empty());
        (plan, ReconcileRequest::StackTrace { thread_id })
    }

    /// The thread that the plan is for.
    pub fn thread_id(&self) -> (thread_id: u64)
        ensures
            thread_id == self@.thread_id,
    {
        self.thread_id
    }

    /// The error that failed the plan, if one did.
    pub fn failure(&self) -> (failure: Option<ProtocolError>)
        ensures
            failure == self@.failure,
    {
        self.failure
    }

    /// Records that a request of this plan failed. The plan as a whole has
    /// then failed.
    pub fn on_failure(&mut self, error: ProtocolError)
        ensures
            final(self)@ == old(self)@.failed(error),
    {
        if self.failure.is_none() {
            self.stack_awaiting = false;
            self.frames = Vec::new();
            self.failure = Some(error);
            assert(self@.frames =~= Seq::empty());
        }
    }

    /// Takes the stack trace, top frame first, and gives the requests for
    /// the scopes of its frames.
    pub fn on_stack_trace(&mut self, frames: Vec<StackFrame>) -> (requests: Vec<ReconcileRequest>)
        ensures
            final(self)@ == old(self)@.with_stack(frames@),
            requests@ == old(self)@.stack_follow_ups(frames@),
    {
        let mut requests: Vec<ReconcileRequest> = Vec::new();
        if self.failure.is_some() || !self.stack_awaiting {
            return requests;
        }
        if frames.len() == 0 {
            self.on_failure(ProtocolError::MissingStackFrame);
            return requests;
        }
        let mut plans: Vec<FramePlan> = Vec::new();
        for frame in it: frames
            invariant
                it.seq() == frames@,
                plans@.len() == it.index(),
                requests@.len() == it.index(),
                forall|i: int| 0 <= i < plans@.len() ==> (#[trigger] plans@[i])@ == frame_asked(frames@[i]),
                forall|i: int|
                    0 <= i < requests@.len() ==> #[trigger] requests@[i] == (
                    ReconcileRequest::Scopes { frame: i as usize, stack_frame_id: frames@[i].id }),
        {
            let index = plans.len();
            requests.push(ReconcileRequest::Scopes { frame: index, stack_frame_id: frame.id });
            let plan = FramePlan { frame, scopes_awaiting: true, scopes: Vec::new() };
            assert(plan@.scopes =~= Seq::empty());
            plans.push(plan);
        }
        self.stack_awaiting = false;
        self.frames = plans;
        proof {
            assert(self@.frames =~= frames@.map_values(|frame: StackFrame| frame_asked(frame)));
            assert(requests@ =~= old(self)@.stack_follow_ups(frames@));
        }
        requests
    }

    /// Takes the scopes of the frame at `frame` and gives the requests for
    /// their variables.
    pub fn on_scopes(&mut self, frame: usize, scopes: Vec<Scope>) -> (requests: Vec<
        ReconcileRequest,
    >)
        ensures
            final(self)@ == old(self)@.with_scopes(frame, scopes@),
            requests@ == old(self)@.scopes_follow_ups(frame, scopes@),
    {
        let mut requests: Vec<ReconcileRequest> = Vec::new();
        if self.failure.is_some() || frame >= self.frames.len() {
            return requests;
        }
        if !self.frames[frame].scopes_awaiting {
            return requests;
        }
        let mut plans: Vec<ScopePlan> = Vec::new();
        for scope in it: scopes
            invariant
                it.seq() == scopes@,
                plans@.len() == it.index(),
                requests@.len() == it.index(),
                forall|k: int| 0 <= k < plans@.len() ==> (#[trigger] plans@[k])@ == scope_asked(scopes@[k]),
                forall|k: int|
                    0 <= k < requests@.len() ==> #[trigger] requests@[k] == (
                    ReconcileRequest::Variables {
                        frame,
                        scope: k as usize,
                        token: ROOT_TOKEN,
                        variables_reference: scopes@[k].variables_reference,
                    }),
        {
            let index = plans.len();
            let (fetch, request) = VariableFetch::start(scope.variables_reference, SCOPE_DEPTH);
            requests.push(
                ReconcileRequest::Variables {
                    frame,
                    scope: index,
                    token: request.token,
                    variables_reference: request.variables_reference,
                },
            );
            plans.push(ScopePlan { scope, fetch });
        }
        let ghost before = self.frames@;
        self.frames[frame].scopes_awaiting = false;
        self.frames[frame].scopes = plans;
        proof {
            assert(self.frames@[frame as int]@.scopes =~= scopes@.map_values(
                |scope: Scope| scope_asked(scope),
            ));
            assert(self@.frames =~= old(self)@.with_scopes(frame, scopes@).frames);
            assert(requests@ =~= old(self)@.scopes_follow_ups(frame, scopes@));
        }
        requests
    }

    /// Takes the variables that answer the request `token` of the fetch at
    /// `frame` and `scope`, and gives the requests for the children of
    /// those among them that can be expanded.
    pub fn on_variables(
        &mut self,
        frame: usize,
        scope: usize,
        token: usize,
        variables: Vec<Variable>,
    ) -> (requests: Vec<ReconcileRequest>)
        ensures
            final(self)@ == old(self)@.with_variables(frame, scope, token, variables@),
            requests@ == old(self)@.variables_follow_ups(frame, scope, token, variables@),
    {
        let mut requests: Vec<ReconcileRequest> = Vec::new();
        if self.failure.is_some() || frame >= self.frames.len() {
            return requests;
        }
        if scope >= self.frames[frame].scopes.len() {
            return requests;
        }
        assert(self@.has_fetch(frame, scope));
        let ghost before = self@;
        let follow_ups = self.frames[frame].scopes[scope].fetch.on_response(token, variables);
        let failure = self.frames[frame].scopes[scope].fetch.failure();
        if let Some(error) = failure {
            self.on_failure(error);
            return requests;
        }
        let mut k: usize = 0;
        while k < follow_ups.len()
            invariant
                k <= follow_ups@.len(),
                requests@.len() == k,
                forall|j: int|
                    0 <= j < k ==> #[trigger] requests@[j] == variables_request(
                        frame,
                        scope,
                        follow_ups@[j],
                    ),
            decreases follow_ups@.len() - k,
        {
            requests.push(
                ReconcileRequest::Variables {
                    frame,
                    scope,
                    token: follow_ups[k].token,
                    variables_reference: follow_ups[k].variables_reference,
                },
            );
            k += 1;
        }
        proof {
            let after = before.with_variables(frame, scope, token, variables@);
            assert(self.frames@[frame as int]@.scopes =~= after.frames[frame as int].scopes);
            assert(self@.frames =~= after.frames);
            assert(requests@ =~= before.variables_follow_ups(frame, scope, token, variables@));
        }
        requests
    }

    /// Whether every request has been answered and none has failed.
    pub fn is_complete(&self) -> (complete: bool)
        ensures
            complete == self@.complete(),
    {
        if self.failure.is_some() || self.stack_awaiting {
            return false;
        }
        let mut i: usize = 0;
        while i < self.frames.len()
            invariant
                i <= self.frames@.len(),
                self.failure is None,
                !self.stack_awaiting,
                forall|j: int| 0 <= j < i ==> (#[trigger] self@.frames[j]).complete(),
            decreases self.frames@.len() - i,
        {
            if self.frames[i].scopes_awaiting {
                assert(!self@.frames[i as int].complete());
                return false;
            }
            let mut k: usize = 0;
            while k < self.frames[i].scopes.len()
                invariant
                    i < self.frames@.len(),
                    k <= self.frames@[i as int].scopes@.len(),
                    forall|j: int|
                        0 <= j < k ==> (#[trigger] self@.frames[i as int].scopes[j]).fetch.complete(),
                decreases self.frames@[i as int].scopes@.len() - k,
            {
                if !self.frames[i].scopes[k].fetch.is_complete() {
                    assert(!self@.frames[i as int].scopes[k as int].fetch.complete());
                    assert(!self@.frames[i as int].complete());
                    return false;
                }
                k += 1;
            }
            assert(self@.frames[i as int].complete());
            i += 1;
        }
        true
    }

    /// Ends the plan. A plan that is complete gives the new state of the
    /// thread; one that failed gives the error that failed it; one that
    /// still waits for an answer gives `Incomplete`.
    pub fn finish(self) -> (outcome: Result<ThreadState, ProtocolError>)
        ensures
            match outcome {
                Ok(state) => self@.shortfall() is None && self@.describes(state),
                Err(error) => self@.shortfall() == Some(error),
            },
    {
        if let Some(error) = self.failure {
            return Err(error);
        }
        if !self.is_complete() {
            return Err(ProtocolError::Incomplete);
        }
        if self.frames.len() == 0 {
            return Err(ProtocolError::MissingStackFrame);
        }
        let ghost model = self@;
        let current_stack_frame_id = self.frames[0].frame.id;
        let mut stack_frames: Vec<StackFrame> = Vec::new();
        let mut variables: Vec<FrameVariables> = Vec::new();
        for plan in frames: self.frames
            invariant
                frames.seq().map_values(|frame: FramePlan| frame@) == model.frames,
                model.complete(),
                stack_frames@.len() == frames.index(),
                variables@.len() == frames.index(),
                forall|i: int|
                    0 <= i < frames.index() ==> #[trigger] stack_frames@[i] == model.frames[i].frame,
                forall|i: int|
                    0 <= i < frames.index() ==> (#[trigger] variables@[i])@
                        == model.frames[i].variables(),
        {
            let ghost at = frames.index() as int;
            assert(plan@ == model.frames[at]);
            assert(model.frames[at].complete());
            let stack_frame_id = plan.frame.id;
            let mut scopes: Vec<ScopeVariables> = Vec::new();
            for scope in plans: plan.scopes
                invariant
                    at < model.frames.len(),
                    model.frames[at].complete(),
                    plans.seq().map_values(|scope: ScopePlan| scope@) == model.frames[at].scopes,
                    scopes@.len() == plans.index(),
                    forall|k: int|
                        0 <= k < plans.index() ==> (#[trigger] scopes@[k])@ == (
                            model.frames[at].scopes[k].scope,
                            model.frames[at].scopes[k].fetch.entries(),
                        ),
            {
                let ghost k = plans.index() as int;
                assert(scope@ == model.frames[at].scopes[k]);
                assert(model.frames[at].scopes[k].fetch.complete());
                let entries = match scope.fetch.finish() {
                    Ok(entries) => entries,
                    Err(error) => {
                        return Err(error);
                    },
                };
                scopes.push(ScopeVariables { scope: scope.scope, variables: entries });
            }
            stack_frames.push(plan.frame);
            let frame_variables = FrameVariables { stack_frame_id, scopes };
            proof {
                assert(frame_variables@.1 =~= model.frames[at].variables().1);
            }
            variables.push(frame_variables);
        }
        let state = ThreadState {
            status: ThreadStatus::Stopped,
            stopped: true,
            stack_frames,
            current_stack_frame_id,
            variables,
        };
        proof {
            assert(state.stack_frames@ =~= model.stack());
            assert(state.variables_view() =~= model.frames.map_values(
                |plan: FrameModel| plan.variables(),
            ));
        }
        Ok(state)
    }
}

} // verus!
