//! The plan by which the variables below one reference are fetched.
//!
//! A fetch starts with one request for the children of a reference. Each
//! answer is placed, and every child that can itself be expanded gives one
//! more request; the requests that an answer gives are handed out together,
//! so that whoever performs them can run them side by side. When nothing is
//! outstanding the variables stand in depth-first order, each with its
//! depth. One failure fails the whole fetch.
//!
//! Nothing bounds the depth: an adapter that reports a cycle keeps the
//! fetch going for as long as it answers.

use crate::error::ProtocolError;
use crate::thread::Variable;
use vstd::prelude::*;

verus! {

/// The token of the request a fetch starts with.
pub const ROOT_TOKEN: usize = 0;

/// A request for the children of `variables_reference`. The answer is
/// handed back under `token`.
#[derive(Copy, Clone, Debug, PartialEq, Eq, Structural)]
pub struct VariableRequest {
    pub token: usize,
    pub variables_reference: u64,
}

/// A variable that has been placed, and whether its children are still
/// being asked for.
pub struct Slot {
    pub token: usize,
    pub depth: usize,
    pub variable: Variable,
    pub awaiting: bool,
}

impl Slot {
    /// The request for the children of the slot's variable.
    pub open spec fn request(self) -> VariableRequest {
        VariableRequest {
            token: self.token,
            variables_reference: self.variable.variables_reference,
        }
    }

    /// The slot's variable with its depth.
    pub open spec fn entry(self) -> (usize, Variable) {
        (self.depth, self.variable)
    }
}

/// The slot that the `k`-th variable of an answer gets when `count` slots
/// exist already and the answer belongs at `depth`.
pub open spec fn child_slot(variable: Variable, depth: usize, count: int, k: int) -> Slot {
    Slot {
        token: (count + 1 + k) as usize,
        depth,
        variable,
        awaiting: variable.expandable(),
    }
}

/// The slots of an answer, in the order of the answer.
pub open spec fn child_slots(variables: Seq<Variable>, depth: usize, count: int) -> Seq<Slot> {
    Seq::new(variables.len(), |k: int| child_slot(variables[k], depth, count, k))
}

/// The requests that the awaiting slots among `slots` stand for, in order.
pub open spec fn requests_of(slots: Seq<Slot>) -> Seq<VariableRequest>
    decreases slots.len(),
{
    if slots.len() == 0 {
        Seq::empty()
    } else {
        let before = requests_of(slots.drop_last());
        if slots.last().awaiting {
            before.push(slots.last().request())
        } else {
            before
        }
    }
}

/// `slots` with the slot at `at` answered by `variables`: the children
/// stand directly behind their parent, one level deeper, and what followed
/// the parent follows them.
pub open spec fn expanded(slots: Seq<Slot>, at: int, variables: Seq<Variable>) -> Seq<Slot> {
    slots.subrange(0, at).push(Slot { awaiting: false, ..slots[at] }) + child_slots(
        variables,
        (slots[at].depth + 1) as usize,
        slots.len() as int,
    ) + slots.subrange(at + 1, slots.len() as int)
}

/// Whether `at` is the first slot that carries `token`.
pub open spec fn first_with_token(slots: Seq<Slot>, token: usize, at: int) -> bool {
    &&& 0 <= at < slots.len()
    &&& slots[at].token == token
    &&& forall|k: int| 0 <= k < at ==> slots[k].token != token
}

/// What a fetch is, to those who use it.
pub struct FetchModel {
    pub reference: u64,
    pub depth: usize,
    pub root_awaiting: bool,
    pub slots: Seq<Slot>,
    pub failure: Option<ProtocolError>,
}

impl FetchModel {
    /// The fetch as it starts.
    pub open spec fn initial(reference: u64, depth: usize) -> FetchModel {
        FetchModel {
            reference,
            depth,
            root_awaiting: true,
            slots: Seq::empty(),
            failure: None,
        }
    }

    /// The position of the slot that an answer under `token` is for.
    pub open spec fn position(self, token: usize) -> int {
        choose|at: int| first_with_token(self.slots, token, at)
    }

    /// Whether an answer under `token` is waited for.
    pub open spec fn expects(self, token: usize) -> bool {
        &&& self.failure is None
        &&& if token == ROOT_TOKEN {
            self.root_awaiting
        } else {
            exists|at: int| first_with_token(self.slots, token, at) && self.slots[at].awaiting
        }
    }

    /// The depth at which the answer under `token` is placed.
    pub open spec fn answer_depth(self, token: usize) -> int {
        if token == ROOT_TOKEN {
            self.depth as int
        } else {
            self.slots[self.position(token)].depth + 1
        }
    }

    /// Whether an answer of `count` variables under `token` stays within
    /// the machine's limits.
    pub open spec fn fits(self, token: usize, count: nat) -> bool {
        &&& self.slots.len() + count < usize::MAX
        &&& count > 0 ==> self.answer_depth(token) <= usize::MAX
    }

    /// The slots after the answer `variables` has come in under `token`.
    pub open spec fn answered_slots(self, token: usize, variables: Seq<Variable>) -> Seq<Slot> {
        if token == ROOT_TOKEN {
            child_slots(variables, self.depth, 0)
        } else {
            expanded(self.slots, self.position(token), variables)
        }
    }

    /// The fetch after the answer `variables` has come in under `token`.
    /// An answer that is not waited for changes nothing; one that does not
    /// fit fails the fetch.
    pub open spec fn answered(self, token: usize, variables: Seq<Variable>) -> FetchModel {
        if !self.expects(token) {
            self
        } else if !self.fits(token, variables.len()) {
            self.failed(ProtocolError::LimitExceeded)
        } else {
            FetchModel {
                root_awaiting: false,
                slots: self.answered_slots(token, variables),
                ..self
            }
        }
    }

    /// The requests that the answer `variables` under `token` gives rise
    /// to: one for each of its variables that can be expanded, in the
    /// order of the answer.
    pub open spec fn follow_ups(self, token: usize, variables: Seq<Variable>) -> Seq<
        VariableRequest,
    > {
        if self.expects(token) && self.fits(token, variables.len()) {
            requests_of(
                child_slots(
                    variables,
                    self.answer_depth(token) as usize,
                    self.slots.len() as int,
                ),
            )
        } else {
            Seq::empty()
        }
    }

    /// The fetch after a failure: nothing of what was placed is kept. The
    /// first failure is the one that is reported.
    pub open spec fn failed(self, error: ProtocolError) -> FetchModel {
        if self.failure is Some {
            self
        } else {
            FetchModel {
                root_awaiting: false,
                slots: Seq::empty(),
                failure: Some(error),
                ..self
            }
        }
    }

    /// Whether nothing is outstanding and nothing has failed.
    pub open spec fn complete(self) -> bool {
        &&& self.failure is None
        &&& !self.root_awaiting
        &&& forall|i: int| 0 <= i < self.slots.len() ==> !self.slots[i].awaiting
    }

    /// The variables placed so far, each with its depth.
    pub open spec fn entries(self) -> Seq<(usize, Variable)> {
        self.slots.map_values(|slot: Slot| slot.entry())
    }

    /// What `finish` gives for this fetch.
    pub open spec fn outcome(self) -> Result<Seq<(usize, Variable)>, ProtocolError> {
        if self.failure is Some {
            Err(self.failure->0)
        } else if !self.complete() {
            Err(ProtocolError::Incomplete)
        } else {
            Ok(self.entries())
        }
    }
}

/// Whether the slots at `i` and behind it stand as parent and child or as
/// neighbours: the second is at most one level deeper, and deeper only if
/// the first has been answered.
pub open spec fn step_ok(slots: Seq<Slot>, i: int) -> bool {
    &&& slots[i + 1].depth <= slots[i].depth + 1
    &&& slots[i + 1].depth > slots[i].depth ==> slots[i].variable.expandable()
        && !slots[i].awaiting
}

/// Whether `slots` is a forest written depth first from `depth` on, with
/// tokens that tell its slots apart.
pub open spec fn depth_first(slots: Seq<Slot>, depth: usize) -> bool {
    &&& slots.len() > 0 ==> slots[0].depth == depth
    &&& forall|i: int| 0 <= i < slots.len() ==> depth <= (#[trigger] slots[i]).depth
    &&& forall|i: int| 0 <= i < slots.len() - 1 ==> #[trigger] step_ok(slots, i)
    &&& forall|i: int|
        0 <= i < slots.len() && (#[trigger] slots[i]).awaiting ==> slots[i].variable.expandable()
    &&& forall|i: int| 0 <= i < slots.len() ==> 1 <= (#[trigger] slots[i]).token <= slots.len()
    &&& forall|i: int, j: int|
        0 <= i < j < slots.len() ==> (#[trigger] slots[i]).token != (#[trigger] slots[j]).token
}

impl FetchModel {
    /// What holds of every fetch that `start` made, after any answers and
    /// failures.
    pub open spec fn well_formed(self) -> bool {
        &&& self.root_awaiting ==> self.slots.len() == 0
        &&& self.failure is Some ==> self.slots.len() == 0 && !self.root_awaiting
        &&& depth_first(self.slots, self.depth)
    }
}

/// The slots of an answer, one by one.
pub proof fn lemma_expanded_index(slots: Seq<Slot>, at: int, variables: Seq<Variable>)
    requires
        0 <= at < slots.len(),
    ensures
        expanded(slots, at, variables).len() == slots.len() + variables.len(),
        forall|k: int| 0 <= k < at ==> expanded(slots, at, variables)[k] == slots[k],
        expanded(slots, at, variables)[at] == (Slot { awaiting: false, ..slots[at] }),
        forall|k: int|
            0 <= k < variables.len() ==> #[trigger] expanded(slots, at, variables)[at + 1 + k]
                == child_slot(
                variables[k],
                (slots[at].depth + 1) as usize,
                slots.len() as int,
                k,
            ),
        forall|k: int|
            at < k < slots.len() ==> #[trigger] expanded(slots, at, variables)[k
                + variables.len()] == slots[k],
{
}

/// Placing an answer keeps the slots depth first: the children stand
/// directly behind their parent, one level below it, in the order of the
/// answer, and before whatever followed the parent, which is no deeper
/// than the parent.
pub proof fn lemma_answer_is_placed_depth_first(
    model: FetchModel,
    token: usize,
    variables: Seq<Variable>,
)
    requires
        model.well_formed(),
        model.expects(token),
        model.fits(token, variables.len()),
        token != ROOT_TOKEN,
    ensures
        model.answered(token, variables).well_formed(),
        ({
            let at = model.position(token);
            let after = model.answered(token, variables).slots;
            &&& 0 <= at < model.slots.len()
            &&& after.len() == model.slots.len() + variables.len()
            &&& forall|k: int| 0 <= k <= at ==> (#[trigger] after[k]).entry() == model.slots[k].entry()
            &&& forall|k: int|
                0 <= k < variables.len() ==> (#[trigger] after[at + 1 + k]).entry() == (
                    (model.slots[at].depth + 1) as usize,
                    variables[k],
                )
            &&& forall|k: int|
                at < k < model.slots.len() ==> #[trigger] after[k + variables.len()]
                    == model.slots[k]
            &&& at + 1 < model.slots.len() ==> model.slots[at + 1].depth <= model.slots[at].depth
        }),
{
    let slots = model.slots;
    let n = variables.len() as int;
    let at = model.position(token);
    assert(first_with_token(slots, token, at));
    let witness = choose|p: int| first_with_token(slots, token, p) && slots[p].awaiting;
    assert(witness == at) by {
        if witness < at {
        } else if at < witness {
        }
    }
    let d = slots[at].depth;
    let after = expanded(slots, at, variables);
    lemma_expanded_index(slots, at, variables);
    assert(model.answered(token, variables).slots == after);
    if at + 1 < slots.len() {
        assert(step_ok(slots, at));
    }
    assert forall|i: int| 0 <= i < after.len() - 1 implies #[trigger] step_ok(after, i) by {
        if i < at - 1 {
            assert(step_ok(slots, i));
        } else if i == at - 1 {
            assert(step_ok(slots, i));
        } else if i == at {
            if n > 0 {
                assert(after[at + 1 + 0] == child_slot(
                    variables[0],
                    (d + 1) as usize,
                    slots.len() as int,
                    0,
                ));
            } else {
                assert(after[(at + 1) + n] == slots[at + 1]);
            }
        } else if i < at + n {
            assert(after[at + 1 + (i - at - 1)] == child_slot(
                variables[i - at - 1],
                (d + 1) as usize,
                slots.len() as int,
                i - at - 1,
            ));
            assert(after[at + 1 + (i - at)] == child_slot(
                variables[i - at],
                (d + 1) as usize,
                slots.len() as int,
                i - at,
            ));
        } else if i == at + n {
            assert(after[at + 1 + (n - 1)] == child_slot(
                variables[n - 1],
                (d + 1) as usize,
                slots.len() as int,
                n - 1,
            ));
            assert(after[(at + 1) + n] == slots[at + 1]);
        } else {
            assert(after[(i - n) + n] == slots[i - n]);
            assert(after[(i - n + 1) + n] == slots[i - n + 1]);
            assert(step_ok(slots, i - n));
        }
    }
    assert forall|i: int| 0 <= i < after.len() implies {
        &&& model.depth <= (#[trigger] after[i]).depth
        &&& after[i].awaiting ==> after[i].variable.expandable()
        &&& 1 <= after[i].token <= after.len()
    } by {
        if i <= at {
        } else if i <= at + n {
            assert(after[at + 1 + (i - at - 1)] == child_slot(
                variables[i - at - 1],
                (d + 1) as usize,
                slots.len() as int,
                i - at - 1,
            ));
        } else {
            assert(after[(i - n) + n] == slots[i - n]);
        }
    }
    assert forall|i: int, j: int| 0 <= i < j < after.len() implies (#[trigger] after[i]).token != (
    #[trigger] after[j]).token by {
        let old_i = if i <= at {
            i
        } else {
            i - n
        };
        let old_j = if j <= at {
            j
        } else {
            j - n
        };
        if at < i <= at + n {
            assert(after[at + 1 + (i - at - 1)] == child_slot(
                variables[i - at - 1],
                (d + 1) as usize,
                slots.len() as int,
                i - at - 1,
            ));
        } else if i > at + n {
            assert(after[(i - n) + n] == slots[i - n]);
        }
        if at < j <= at + n {
            assert(after[at + 1 + (j - at - 1)] == child_slot(
                variables[j - at - 1],
                (d + 1) as usize,
                slots.len() as int,
                j - at - 1,
            ));
        } else if j > at + n {
            assert(after[(j - n) + n] == slots[j - n]);
        }
    }
}

/// The answer to the first request gives slots that are depth first.
pub proof fn lemma_root_answer_is_depth_first(model: FetchModel, variables: Seq<Variable>)
    requires
        model.well_formed(),
        model.expects(ROOT_TOKEN),
        model.fits(ROOT_TOKEN, variables.len()),
    ensures
        model.answered(ROOT_TOKEN, variables).well_formed(),
        model.answered(ROOT_TOKEN, variables).entries() == variables.map_values(
            |v: Variable| (model.depth, v),
        ),
{
    let after = model.answered(ROOT_TOKEN, variables).slots;
    assert forall|i: int| 0 <= i < after.len() - 1 implies #[trigger] step_ok(after, i) by {}
    assert(model.answered(ROOT_TOKEN, variables).entries() =~= variables.map_values(
        |v: Variable| (model.depth, v),
    ));
}

/// Whether `entries` lists a forest depth first from `depth` on: the
/// first entry is at `depth`, none is above it, each is at most one level
/// below the one before it, and only a variable that can be expanded is
/// followed by a deeper one. So the entries below a variable stand between
/// it and the next entry that is no deeper than it.
pub open spec fn entries_depth_first(entries: Seq<(usize, Variable)>, depth: usize) -> bool {
    &&& entries.len() > 0 ==> entries[0].0 == depth
    &&& forall|i: int| 0 <= i < entries.len() ==> depth <= (#[trigger] entries[i]).0
    &&& forall|i: int|
        0 <= i < entries.len() - 1 ==> (#[trigger] entries[i + 1]).0 <= entries[i].0 + 1
    &&& forall|i: int|
        0 <= i < entries.len() - 1 && (#[trigger] entries[i + 1]).0 > entries[i].0
            ==> entries[i].1.expandable()
}

/// The entries of a well-formed fetch are depth first.
pub proof fn lemma_entries_depth_first(model: FetchModel)
    requires
        model.well_formed(),
    ensures
        entries_depth_first(model.entries(), model.depth),
{
    let entries = model.entries();
    assert forall|i: int| 0 <= i < entries.len() - 1 implies (#[trigger] entries[i + 1]).0
        <= entries[i].0 + 1 && (entries[i + 1].0 > entries[i].0 ==> entries[i].1.expandable()) by {
        assert(step_ok(model.slots, i));
    }
    assert forall|i: int| 0 <= i < entries.len() implies model.depth <= (
    #[trigger] entries[i]).0 by {
        assert(model.depth <= model.slots[i].depth);
    }
}

/// A fetch in progress.
pub struct VariableFetch {
    reference: u64,
    depth: usize,
    root_awaiting: bool,
    slots: Vec<Slot>,
    failure: Option<ProtocolError>,
}

impl View for VariableFetch {
    type V = FetchModel;

    closed spec fn view(&self) -> FetchModel {
        FetchModel {
            reference: self.reference,
            depth: self.depth,
            root_awaiting: self.root_awaiting,
            slots: self.slots@,
            failure: self.failure,
        }
    }
}

/// The first slot that carries `token`, if there is one.
fn find_token(slots: &Vec<Slot>, token: usize) -> (found: Option<usize>)
    ensures
        found is Some ==> first_with_token(slots@, token, found->0 as int),
        found is None ==> forall|at: int| !first_with_token(slots@, token, at),
{
    let mut i: usize = 0;
    while i < slots.len()
        invariant
            i <= slots@.len(),
            forall|k: int| 0 <= k < i ==> slots@[k].token != token,
        decreases slots@.len() - i,
    {
        if slots[i].token == token {
            return Some(i);
        }
        i += 1;
    }
    None
}

proof fn lemma_position(model: FetchModel, token: usize, at: int)
    requires
        first_with_token(model.slots, token, at),
    ensures
        model.position(token) == at,
{
    let p = model.position(token);
    assert(first_with_token(model.slots, token, p));
    if p < at {
    } else if at < p {
    }
}

/// Puts the slots of `variables` into `slots` from position `at` on, and
/// collects the requests they stand for.
fn place(
    slots: &mut Vec<Slot>,
    at: usize,
    depth: usize,
    variables: Vec<Variable>,
) -> (requests: Vec<VariableRequest>)
    requires
        at <= old(slots)@.len(),
        old(slots)@.len() + variables@.len() < usize::MAX,
    ensures
        final(slots)@ == old(slots)@.subrange(0, at as int) + child_slots(
            variables@,
            depth,
            old(slots)@.len() as int,
        ) + old(slots)@.subrange(at as int, old(slots)@.len() as int),
        requests@ == requests_of(child_slots(variables@, depth, old(slots)@.len() as int)),
{
    let ghost before = slots@;
    let ghost children = child_slots(variables@, depth, before.len() as int);
    let count = slots.len();
    let mut requests: Vec<VariableRequest> = Vec::new();
    let mut k: usize = 0;
    for variable in it: variables
        invariant
            it.seq() == variables@,
            k == it.index(),
            at <= before.len(),
            count == before.len(),
            before.len() + variables@.len() < usize::MAX,
            children == child_slots(variables@, depth, before.len() as int),
            slots@ == before.subrange(0, at as int) + children.subrange(0, k as int)
                + before.subrange(at as int, before.len() as int),
            requests@ == requests_of(children.subrange(0, k as int)),
    {
        let awaiting = variable.is_expandable();
        let token = count + 1 + k;
        if awaiting {
            requests.push(
                VariableRequest { token, variables_reference: variable.variables_reference },
            );
        }
        let slot = Slot { token, depth, variable, awaiting };
        proof {
            assert(slot == children[k as int]);
            assert(children.subrange(0, k + 1).drop_last() == children.subrange(0, k as int));
            assert((before.subrange(0, at as int) + children.subrange(0, k as int)
                + before.subrange(at as int, before.len() as int)).insert(at + k, slot)
                == before.subrange(0, at as int) + children.subrange(0, k + 1)
                + before.subrange(at as int, before.len() as int));
        }
        slots.insert(at + k, slot);
        k += 1;
    }
    proof {
        assert(children.subrange(0, k as int) == children);
    }
    requests
}

impl VariableFetch {
    #[verifier::type_invariant]
    spec fn sound(&self) -> bool {
        self@.well_formed()
    }

    /// Starts the fetch of what lies below `reference`. The variables that
    /// the first answer lists are placed at `depth`.
    pub fn start(reference: u64, depth: usize) -> (started: (VariableFetch, VariableRequest))
        ensures
            started.0@ == FetchModel::initial(reference, depth),
            started.1 == (VariableRequest { token: ROOT_TOKEN, variables_reference: reference }),
    {
        let fetch = VariableFetch {
            reference,
            depth,
            root_awaiting: true,
            slots: Vec::new(),
            failure: None,
        };
        (fetch, VariableRequest { token: ROOT_TOKEN, variables_reference: reference })
    }

    /// Takes the answer `variables` to the request `token` and gives the
    /// requests that follow from it; they are independent of each other.
    pub fn on_response(&mut self, token: usize, variables: Vec<Variable>) -> (requests: Vec<
        VariableRequest,
    >)
        ensures
            final(self)@ == old(self)@.answered(token, variables@),
            requests@ == old(self)@.follow_ups(token, variables@),
            final(self)@.well_formed(),
    {
        proof {
            use_type_invariant(&*self);
        }
        let ghost before = self@;
        if self.failure.is_some() {
            return Vec::new();
        }
        let at: usize;
        let depth: usize;
        if token == ROOT_TOKEN {
            if !self.root_awaiting {
                return Vec::new();
            }
            at = 0;
            depth = self.depth;
        } else {
            match find_token(&self.slots, token) {
                Some(parent) => {
                    proof {
                        lemma_position(before, token, parent as int);
                    }
                    if !self.slots[parent].awaiting {
                        assert(!before.expects(token)) by {
                            if before.expects(token) {
                                let w = choose|w: int|
                                    first_with_token(before.slots, token, w)
                                        && before.slots[w].awaiting;
                                lemma_position(before, token, w);
                            }
                        }
                        return Vec::new();
                    }
                    assert(before.expects(token));
                    assert(parent < self.slots.len());
                    at = parent + 1;
                    if variables.len() > 0 && self.slots[parent].depth == usize::MAX {
                        self.on_failure(ProtocolError::LimitExceeded);
                        return Vec::new();
                    }
                    depth = if variables.len() > 0 {
                        self.slots[parent].depth + 1
                    } else {
                        0
                    };
                },
                None => {
                    return Vec::new();
                },
            }
        }
        assert(before.expects(token));
        let room = usize::MAX - self.slots.len();
        if variables.len() >= room {
            self.on_failure(ProtocolError::LimitExceeded);
            return Vec::new();
        }
        assert(before.fits(token, variables@.len()));
        proof {
            if token == ROOT_TOKEN {
                lemma_root_answer_is_depth_first(before, variables@);
            } else {
                lemma_answer_is_placed_depth_first(before, token, variables@);
            }
        }
        let mut slots: Vec<Slot> = Vec::new();
        core::mem::swap(&mut self.slots, &mut slots);
        self.root_awaiting = false;
        if token != ROOT_TOKEN {
            slots[at - 1].awaiting = false;
        }
        let ghost marked = slots@;
        let requests = place(&mut slots, at, depth, variables);
        proof {
            if token == ROOT_TOKEN {
                assert(slots@ =~= before.answered_slots(token, variables@));
            } else {
                assert(variables@.len() == 0 ==> child_slots(
                    variables@,
                    depth,
                    before.slots.len() as int,
                ) =~= child_slots(
                    variables@,
                    (before.slots[at - 1].depth + 1) as usize,
                    before.slots.len() as int,
                ));
                assert(marked.subrange(0, at as int) =~= before.slots.subrange(0, at - 1).push(
                    Slot { awaiting: false, ..before.slots[at - 1] },
                ));
                assert(marked.subrange(at as int, marked.len() as int) =~= before.slots.subrange(
                    at as int,
                    before.slots.len() as int,
                ));
                assert(slots@ =~= before.answered_slots(token, variables@));
                assert(child_slots(variables@, depth, before.slots.len() as int) =~= child_slots(
                    variables@,
                    before.answer_depth(token) as usize,
                    before.slots.len() as int,
                ));
            }
        }
        core::mem::swap(&mut self.slots, &mut slots);
        requests
    }

    /// Records that a request of this fetch failed. The fetch as a whole
    /// has then failed, and what was placed is dropped.
    pub fn on_failure(&mut self, error: ProtocolError)
        ensures
            final(self)@ == old(self)@.failed(error),
            final(self)@.well_formed(),
    {
        proof {
            use_type_invariant(&*self);
        }
        if self.failure.is_none() {
            let mut slots: Vec<Slot> = Vec::new();
            core::mem::swap(&mut self.slots, &mut slots);
            self.root_awaiting = false;
            self.failure = Some(error);
        }
    }

    /// The error that failed the fetch, if one did.
    pub fn failure(&self) -> (failure: Option<ProtocolError>)
        ensures
            failure == self@.failure,
    {
        self.failure
    }

    /// Whether every request has been answered and none has failed.
    pub fn is_complete(&self) -> (complete: bool)
        ensures
            complete == self@.complete(),
    {
        if self.failure.is_some() || self.root_awaiting {
            return false;
        }
        let mut i: usize = 0;
        while i < self.slots.len()
            invariant
                i <= self.slots@.len(),
                self.failure is None,
                !self.root_awaiting,
                forall|k: int| 0 <= k < i ==> !self.slots@[k].awaiting,
            decreases self.slots@.len() - i,
        {
            if self.slots[i].awaiting {
                assert(self@.slots[i as int].awaiting);
                return false;
            }
            i += 1;
        }
        true
    }

    /// The requests that have been handed out and not been answered, in
    /// the order in which their variables stand.
    pub fn outstanding(&self) -> (requests: Vec<VariableRequest>)
        ensures
            self@.root_awaiting ==> requests@ == seq![
                VariableRequest { token: ROOT_TOKEN, variables_reference: self@.reference },
            ],
            !self@.root_awaiting ==> requests@ == requests_of(self@.slots),
    {
        let mut requests: Vec<VariableRequest> = Vec::new();
        if self.root_awaiting {
            requests.push(
                VariableRequest { token: ROOT_TOKEN, variables_reference: self.reference },
            );
            return requests;
        }
        let mut i: usize = 0;
        while i < self.slots.len()
            invariant
                i <= self.slots@.len(),
                requests@ == requests_of(self.slots@.subrange(0, i as int)),
            decreases self.slots@.len() - i,
        {
            proof {
                assert(self.slots@.subrange(0, i + 1).drop_last() == self.slots@.subrange(
                    0,
                    i as int,
                ));
            }
            if self.slots[i].awaiting {
                requests.push(
                    VariableRequest {
                        token: self.slots[i].token,
                        variables_reference: self.slots[i].variable.variables_reference,
                    },
                );
            }
            i += 1;
        }
        proof {
            assert(self.slots@.subrange(0, i as int) == self.slots@);
        }
        requests
    }

    /// Ends the fetch. A fetch that is complete gives its variables, depth
    /// first, each with its depth; one that failed gives the error that
    /// failed it; one that still waits for an answer gives `Incomplete`.
    pub fn finish(self) -> (outcome: Result<Vec<(usize, Variable)>, ProtocolError>)
        ensures
            self@.well_formed(),
            match outcome {
                Ok(entries) => self@.outcome() == Ok::<Seq<(usize, Variable)>, ProtocolError>(
                    entries@,
                ) && entries_depth_first(entries@, self@.depth),
                Err(error) => self@.outcome() == Err::<Seq<(usize, Variable)>, ProtocolError>(
                    error,
                ),
            },
    {
        proof {
            use_type_invariant(&self);
        }
        if let Some(error) = self.failure {
            return Err(error);
        }
        if !self.is_complete() {
            return Err(ProtocolError::Incomplete);
        }
        let ghost model = self@;
        let mut entries: Vec<(usize, Variable)> = Vec::new();
        for slot in it: self.slots
            invariant
                it.seq() == model.slots,
                entries@ == model.slots.subrange(0, it.index() as int).map_values(
                    |slot: Slot| slot.entry(),
                ),
        {
            proof {
                let i = it.index() as int;
                assert(model.slots.subrange(0, i + 1).map_values(|slot: Slot| slot.entry())
                    =~= model.slots.subrange(0, i).map_values(|slot: Slot| slot.entry()).push(
                    model.slots[i].entry(),
                ));
            }
            entries.push((slot.depth, slot.variable));
        }
        proof {
            assert(model.slots.subrange(0, model.slots.len() as int) == model.slots);
            lemma_entries_depth_first(model);
        }
        Ok(entries)
    }
}

} // verus!
