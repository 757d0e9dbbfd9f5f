//! Per-thread status and the snapshot recorded when a thread stops.

use vstd::prelude::*;

verus! {

/// What a debuggee thread is doing, as far as the adapter has told us.
#[derive(Copy, Clone, Debug, PartialEq, Eq, Structural, Hash)]
pub enum ThreadStatus {
    Running,
    Stopped,
    Exited,
    Ended,
}

impl ThreadStatus {
    /// The number this status has on the wire.
    pub open spec fn wire_code(self) -> int {
        match self {
            ThreadStatus::Running => 0,
            ThreadStatus::Stopped => 1,
            ThreadStatus::Exited => 2,
            ThreadStatus::Ended => 3,
        }
    }

    /// The status a wire number stands for; a number that names no status
    /// reads as `Running`, the default.
    pub open spec fn of_wire_code(code: int) -> ThreadStatus {
        if code == 1 {
            ThreadStatus::Stopped
        } else if code == 2 {
            ThreadStatus::Exited
        } else if code == 3 {
            ThreadStatus::Ended
        } else {
            ThreadStatus::Running
        }
    }

    /// The status as it goes over the wire.
    pub fn to_proto(&self) -> (code: i32)
        ensures
            code == self.wire_code(),
    {
        match self {
            ThreadStatus::Running => 0,
            ThreadStatus::Stopped => 1,
            ThreadStatus::Exited => 2,
            ThreadStatus::Ended => 3,
        }
    }

    /// The status that came over the wire.
    pub fn from_proto(code: i32) -> (status: ThreadStatus)
        ensures
            status == ThreadStatus::of_wire_code(code as int),
    {
        if code == 1 {
            ThreadStatus::Stopped
        } else if code == 2 {
            ThreadStatus::Exited
        } else if code == 3 {
            ThreadStatus::Ended
        } else {
            ThreadStatus::Running
        }
    }

    /// Decoding what `to_proto` produced gives the status back.
    pub proof fn lemma_wire_round_trip(status: ThreadStatus)
        ensures
            ThreadStatus::of_wire_code(status.wire_code()) == status,
    {
    }
}

impl Default for ThreadStatus {
    fn default() -> (status: ThreadStatus)
        ensures
            status == ThreadStatus::Running,
    {
        ThreadStatus::Running
    }
}

/// One activation record of a stopped thread. Line and column count from
/// one, as the adapter reports them.
#[derive(Clone, Debug, PartialEq, Eq)]
pub struct StackFrame {
    pub id: u64,
    pub name: String,
    /// Absent when the frame has no source that can be opened.
    pub source_path: Option<String>,
    pub line: u64,
    pub column: u64,
}

impl StackFrame {
    /// The zero-based row an editor shows the frame at.
    pub open spec fn row(self) -> int {
        if self.line == 0 {
            0
        } else {
            self.line - 1
        }
    }

    /// The zero-based column an editor shows the frame at.
    pub open spec fn col(self) -> int {
        if self.column == 0 {
            0
        } else {
            self.column - 1
        }
    }

    /// The zero-based row an editor shows the frame at.
    pub fn display_row(&self) -> (row: u64)
        ensures
            row == self.row(),
    {
        self.line.saturating_sub(1)
    }

    /// The zero-based column an editor shows the frame at.
    pub fn display_column(&self) -> (column: u64)
        ensures
            column == self.col(),
    {
        self.column.saturating_sub(1)
    }
}

/// A grouping of variables that the adapter defines for a frame.
#[derive(Clone, Debug, PartialEq, Eq)]
pub struct Scope {
    pub name: String,
    pub variables_reference: u64,
}

/// A variable as the adapter reports it. A reference other than zero means
/// that the adapter can list children for it.
#[derive(Clone, Debug, PartialEq, Eq)]
pub struct Variable {
    pub name: String,
    pub value: String,
    pub variables_reference: u64,
}

impl Variable {
    /// Whether the adapter can list children for the variable.
    pub open spec fn expandable(self) -> bool {
        self.variables_reference != 0
    }

    /// Whether the adapter can list children for the variable.
    pub fn is_expandable(&self) -> (b: bool)
        ensures
            b == self.expandable(),
    {
        self.variables_reference != 0
    }
}

/// The variables of one scope, flattened depth first: each entry is a
/// variable with the depth it was found at.
#[derive(Clone, Debug, PartialEq, Eq)]
pub struct ScopeVariables {
    pub scope: Scope,
    pub variables: Vec<(usize, Variable)>,
}

impl View for ScopeVariables {
    type V = (Scope, Seq<(usize, Variable)>);

    open spec fn view(&self) -> (Scope, Seq<(usize, Variable)>) {
        (self.scope, self.variables@)
    }
}

/// The scopes of one stack frame with their variables.
#[derive(Clone, Debug, PartialEq, Eq)]
pub struct FrameVariables {
    pub stack_frame_id: u64,
    pub scopes: Vec<ScopeVariables>,
}

impl View for FrameVariables {
    type V = (u64, Seq<(Scope, Seq<(usize, Variable)>)>);

    open spec fn view(&self) -> (u64, Seq<(Scope, Seq<(usize, Variable)>)>) {
        (self.stack_frame_id, self.scopes@.map_values(|scope: ScopeVariables| scope@))
    }
}

/// The state of one thread: its status and, once it has stopped, the stack
/// and variables that were read at that stop. The snapshot is current only
/// while `status` is `Stopped`.
#[derive(Clone, Debug, PartialEq, Eq)]
pub struct ThreadState {
    pub status: ThreadStatus,
    /// Set at the first stop and never cleared.
    pub stopped: bool,
    /// Top of the stack first.
    pub stack_frames: Vec<StackFrame>,
    pub current_stack_frame_id: u64,
    pub variables: Vec<FrameVariables>,
}

/// A thread state as it travels between collaborating hosts.
#[derive(Copy, Clone, Debug, PartialEq, Eq, Structural)]
pub struct DebuggerThreadState {
    pub thread_status: i32,
    pub stopped: bool,
}

impl ThreadState {
    /// The same state with another status.
    pub open spec fn with_status(self, status: ThreadStatus) -> ThreadState {
        ThreadState { status, ..self }
    }

    /// A state without a snapshot.
    pub open spec fn bare(self) -> bool {
        &&& self.stack_frames@.len() == 0
        &&& self.variables@.len() == 0
        &&& self.current_stack_frame_id == 0
    }

    /// The state of a thread that has just been heard of: running, never
    /// stopped, no snapshot.
    pub open spec fn fresh(self) -> bool {
        &&& self.status == ThreadStatus::Running
        &&& !self.stopped
        &&& self.bare()
    }

    /// The variables of the snapshot: for each frame its id and, for each
    /// of its scopes, the scope with its variables.
    pub open spec fn variables_view(self) -> Seq<(u64, Seq<(Scope, Seq<(usize, Variable)>)>)> {
        self.variables@.map_values(|frame: FrameVariables| frame@)
    }

    /// Whether the snapshot may be shown as the thread's present state.
    pub open spec fn snapshot_current(self) -> bool {
        self.status == ThreadStatus::Stopped
    }

    /// The state of a thread that has just been heard of.
    pub fn new() -> (state: ThreadState)
        ensures
            state.fresh(),
    {
        ThreadState {
            status: ThreadStatus::Running,
            stopped: false,
            stack_frames: Vec::new(),
            current_stack_frame_id: 0,
            variables: Vec::new(),
        }
    }

    /// The state that a collaborating host reports. The snapshot does not
    /// travel: the state comes without one.
    pub fn from_proto(thread_state: DebuggerThreadState) -> (state: ThreadState)
        ensures
            state.status == ThreadStatus::of_wire_code(thread_state.thread_status as int),
            state.stopped == thread_state.stopped,
            state.bare(),
    {
        ThreadState {
            status: ThreadStatus::from_proto(thread_state.thread_status),
            stopped: thread_state.stopped,
            stack_frames: Vec::new(),
            current_stack_frame_id: 0,
            variables: Vec::new(),
        }
    }

    /// The state as it is reported to a collaborating host.
    pub fn to_proto(&self) -> (proto: DebuggerThreadState)
        ensures
            proto.thread_status == self.status.wire_code(),
            proto.stopped == self.stopped,
    {
        DebuggerThreadState { thread_status: self.status.to_proto(), stopped: self.stopped }
    }

    /// The frames to show for this thread: the recorded stack while the
    /// thread is stopped, nothing otherwise.
    pub fn current_frames(&self) -> (frames: &[StackFrame])
        ensures
            self.snapshot_current() ==> frames@ == self.stack_frames@,
            !self.snapshot_current() ==> frames@.len() == 0,
    {
        if self.status == ThreadStatus::Stopped {
            self.stack_frames.as_slice()
        } else {
            &self.stack_frames.as_slice()[0..0]
        }
    }
}

impl Default for ThreadState {
    fn default() -> (state: ThreadState)
        ensures
            state.fresh(),
    {
        ThreadState::new()
    }
}

} // verus!
