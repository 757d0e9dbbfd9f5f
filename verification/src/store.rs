//! The thread states of one session, keyed by thread id.

use crate::thread::{ThreadState, ThreadStatus};
use vstd::prelude::*;

verus! {

struct ThreadEntry {
    thread_id: u64,
    state: ThreadState,
}

/// Thread states by thread id. An entry, once made, stays until `remove`
/// is called for it; every other operation keeps or adds entries.
pub struct ThreadStateStore {
    entries: Vec<ThreadEntry>,
}

/// The map in which every thread of `threads` has the given status and is
/// otherwise unchanged.
pub open spec fn all_with_status(threads: Map<u64, ThreadState>, status: ThreadStatus) -> Map<
    u64,
    ThreadState,
> {
    Map::new(|id: u64| threads.contains_key(id), |id: u64| threads[id].with_status(status))
}

/// Whether `ids` lists the threads of `threads`, each once, in ascending
/// order.
pub open spec fn lists_ascending(threads: Map<u64, ThreadState>, ids: Seq<u64>) -> bool {
    &&& ids.to_set() == threads.dom()
    &&& forall|i: int, j: int| 0 <= i < j < ids.len() ==> ids[i] < ids[j]
}

/// The ids of the threads of `threads`, in ascending order.
pub open spec fn ascending_ids(threads: Map<u64, ThreadState>) -> Seq<u64> {
    choose|ids: Seq<u64>| lists_ascending(threads, ids)
}

/// A set of ids has one ascending list.
pub proof fn lemma_ascending_list_unique(threads: Map<u64, ThreadState>, a: Seq<u64>, b: Seq<u64>)
    requires
        lists_ascending(threads, a),
        lists_ascending(threads, b),
    ensures
        a == b,
    decreases a.len(),
{
    if a.len() == 0 {
        if b.len() > 0 {
            assert(b.to_set().contains(b[0]));
            assert(a.to_set().contains(b[0]));
        }
        assert(a =~= b);
    } else {
        assert(a.to_set().contains(a.last()));
        assert(b.to_set().contains(a.last()));
        assert(b.len() > 0);
        assert(b.to_set().contains(b.last()));
        assert(a.to_set().contains(b.last()));
        let ia = choose|i: int| 0 <= i < a.len() && a[i] == b.last();
        let ib = choose|i: int| 0 <= i < b.len() && b[i] == a.last();
        assert(a.last() == b.last()) by {
            if ia < a.len() - 1 {
            }
            if ib < b.len() - 1 {
            }
        }
        let rest = threads.remove(a.last());
        assert forall|x: u64| a.drop_last().to_set().contains(x) == rest.dom().contains(x) by {
            if a.drop_last().to_set().contains(x) {
                let i = choose|i: int| 0 <= i < a.drop_last().len() && a.drop_last()[i] == x;
                assert(a[i] == x);
                assert(a.to_set().contains(x));
            }
            if rest.dom().contains(x) {
                assert(a.to_set().contains(x));
                let i = choose|i: int| 0 <= i < a.len() && a[i] == x;
                assert(a.drop_last()[i] == x);
            }
        }
        assert forall|x: u64| b.drop_last().to_set().contains(x) == rest.dom().contains(x) by {
            if b.drop_last().to_set().contains(x) {
                let i = choose|i: int| 0 <= i < b.drop_last().len() && b.drop_last()[i] == x;
                assert(b[i] == x);
                assert(b.to_set().contains(x));
            }
            if rest.dom().contains(x) {
                assert(b.to_set().contains(x));
                let i = choose|i: int| 0 <= i < b.len() && b[i] == x;
                assert(b.drop_last()[i] == x);
            }
        }
        assert(a.drop_last().to_set() =~= rest.dom());
        assert(b.drop_last().to_set() =~= rest.dom());
        lemma_ascending_list_unique(rest, a.drop_last(), b.drop_last());
        assert(a =~= a.drop_last().push(a.last()));
        assert(b =~= b.drop_last().push(b.last()));
    }
}

spec fn ascending(entries: Seq<ThreadEntry>) -> bool {
    forall|i: int, j: int|
        0 <= i < j < entries.len() ==> entries[i].thread_id < entries[j].thread_id
}

spec fn holds(entries: Seq<ThreadEntry>, id: u64, i: int) -> bool {
    0 <= i < entries.len() && entries[i].thread_id == id
}

spec fn model_of(entries: Seq<ThreadEntry>) -> Map<u64, ThreadState> {
    Map::new(
        |id: u64| exists|i: int| holds(entries, id, i),
        |id: u64| entries[choose|i: int| holds(entries, id, i)].state,
    )
}

proof fn lemma_model_at(entries: Seq<ThreadEntry>, i: int)
    requires
        ascending(entries),
        0 <= i < entries.len(),
    ensures
        model_of(entries).contains_key(entries[i].thread_id),
        model_of(entries)[entries[i].thread_id] == entries[i].state,
{
    let id = entries[i].thread_id;
    assert(holds(entries, id, i));
    let k = choose|k: int| holds(entries, id, k);
    if k < i {
    } else if k > i {
    }
}

proof fn lemma_model_absent(entries: Seq<ThreadEntry>, id: u64)
    requires
        forall|i: int| 0 <= i < entries.len() ==> entries[i].thread_id != id,
    ensures
        !model_of(entries).contains_key(id),
{
    assert forall|i: int| !holds(entries, id, i) by {}
}

/// Two lists of entries that hold the same ids with the same states, up to
/// one id that the second maps as `patch` says, have models that differ
/// in that id alone. `forth` and `back` say where an entry of one list
/// stands in the other, and `at` where the patched id stands.
proof fn lemma_model_patched(
    before: Seq<ThreadEntry>,
    after: Seq<ThreadEntry>,
    id: u64,
    patch: Option<ThreadState>,
    at: int,
    forth: spec_fn(int) -> int,
    back: spec_fn(int) -> int,
)
    requires
        ascending(before),
        ascending(after),
        forall|k: int|
            0 <= k < before.len() && (#[trigger] before[k]).thread_id != id ==> 0 <= forth(k)
                < after.len() && after[forth(k)] == before[k],
        forall|m: int|
            0 <= m < after.len() && (#[trigger] after[m]).thread_id != id ==> 0 <= back(m)
                < before.len() && before[back(m)] == after[m],
        patch is Some ==> holds(after, id, at) && after[at].state == patch->0,
        patch is None ==> forall|m: int|
            0 <= m < after.len() ==> (#[trigger] after[m]).thread_id != id,
    ensures
        patch is Some ==> model_of(after) == model_of(before).insert(id, patch->0),
        patch is None ==> model_of(after) == model_of(before).remove(id),
{
    let target = if patch is Some {
        model_of(before).insert(id, patch->0)
    } else {
        model_of(before).remove(id)
    };
    assert forall|x: u64| model_of(after).contains_key(x) == target.contains_key(x) by {
        if x != id {
            if model_of(after).contains_key(x) {
                let m = choose|m: int| holds(after, x, m);
                assert(after[m].thread_id != id);
                assert(holds(before, x, back(m)));
            }
            if model_of(before).contains_key(x) {
                let k = choose|k: int| holds(before, x, k);
                assert(before[k].thread_id != id);
                assert(holds(after, x, forth(k)));
            }
        } else {
            if patch is Some {
                assert(holds(after, id, at));
            } else {
                lemma_model_absent(after, id);
            }
        }
    }
    assert forall|x: u64| model_of(after).contains_key(x) implies model_of(after)[x]
        == target[x] by {
        if x != id {
            let m = choose|m: int| holds(after, x, m);
            assert(after[m].thread_id != id);
            lemma_model_at(after, m);
            lemma_model_at(before, back(m));
        } else {
            lemma_model_at(after, at);
        }
    }
    assert(model_of(after) =~= target);
}

proof fn lemma_model_removed(before: Seq<ThreadEntry>, i: int)
    requires
        ascending(before),
        0 <= i < before.len(),
    ensures
        ascending(before.remove(i)),
        model_of(before.remove(i)) == model_of(before).remove(before[i].thread_id),
{
    let after = before.remove(i);
    let id = before[i].thread_id;
    let forth = |k: int|
        if k < i {
            k
        } else {
            k - 1
        };
    let back = |m: int|
        if m < i {
            m
        } else {
            m + 1
        };
    assert forall|m: int| 0 <= m < after.len() implies (#[trigger] after[m]) == before[back(m)]
        && after[m].thread_id != id by {}
    lemma_model_patched(before, after, id, None, 0, forth, back);
}

proof fn lemma_model_inserted(before: Seq<ThreadEntry>, i: int, entry: ThreadEntry)
    requires
        ascending(before),
        0 <= i <= before.len(),
        forall|k: int| 0 <= k < i ==> before[k].thread_id < entry.thread_id,
        forall|k: int| i <= k < before.len() ==> entry.thread_id < before[k].thread_id,
    ensures
        ascending(before.insert(i, entry)),
        model_of(before.insert(i, entry)) == model_of(before).insert(
            entry.thread_id,
            entry.state,
        ),
{
    let after = before.insert(i, entry);
    let id = entry.thread_id;
    let forth = |k: int|
        if k < i {
            k
        } else {
            k + 1
        };
    let back = |m: int|
        if m < i {
            m
        } else {
            m - 1
        };
    assert forall|m: int| 0 <= m < after.len() && m != i implies (#[trigger] after[m])
        == before[back(m)] by {}
    assert forall|a: int, b: int| 0 <= a < b < after.len() implies after[a].thread_id
        < after[b].thread_id by {
        if a != i {
            assert(after[a] == before[back(a)]);
        }
        if b != i {
            assert(after[b] == before[back(b)]);
        }
    }
    lemma_model_patched(before, after, id, Some(entry.state), i, forth, back);
}

proof fn lemma_model_updated(before: Seq<ThreadEntry>, i: int, state: ThreadState)
    requires
        ascending(before),
        0 <= i < before.len(),
    ensures
        ascending(before.update(i, ThreadEntry { thread_id: before[i].thread_id, state })),
        model_of(before.update(i, ThreadEntry { thread_id: before[i].thread_id, state }))
            == model_of(before).insert(before[i].thread_id, state),
{
    let id = before[i].thread_id;
    let after = before.update(i, ThreadEntry { thread_id: id, state });
    let same = |k: int| k;
    lemma_model_patched(before, after, id, Some(state), i, same, same);
}

spec fn ids_below(entries: Seq<ThreadEntry>, n: int) -> Set<u64> {
    Set::new(|id: u64| exists|i: int| 0 <= i < n && holds(entries, id, i))
}

proof fn lemma_ids_below(entries: Seq<ThreadEntry>, n: int)
    requires
        ascending(entries),
        0 <= n <= entries.len(),
    ensures
        ids_below(entries, n).finite(),
        ids_below(entries, n).len() == n,
        n == entries.len() ==> ids_below(entries, n) == model_of(entries).dom(),
    decreases n,
{
    if n == 0 {
        assert(ids_below(entries, 0) =~= Set::<u64>::empty());
    } else {
        lemma_ids_below(entries, n - 1);
        let last = entries[n - 1].thread_id;
        assert(holds(entries, last, n - 1));
        assert(!ids_below(entries, n - 1).contains(last)) by {
            if ids_below(entries, n - 1).contains(last) {
                let i = choose|i: int| 0 <= i < n - 1 && holds(entries, last, i);
                assert(holds(entries, last, i));
            }
        }
        assert(ids_below(entries, n) =~= ids_below(entries, n - 1).insert(last)) by {
            assert forall|id: u64| ids_below(entries, n).contains(id) implies ids_below(
                entries,
                n - 1,
            ).insert(last).contains(id) by {
                let i = choose|i: int| 0 <= i < n && holds(entries, id, i);
                if i < n - 1 {
                    assert(holds(entries, id, i));
                }
            }
            assert forall|id: u64|
                ids_below(entries, n - 1).insert(last).contains(id) implies ids_below(
                entries,
                n,
            ).contains(id) by {
                if id == last {
                    assert(holds(entries, id, n - 1));
                } else {
                    let i = choose|i: int| 0 <= i < n - 1 && holds(entries, id, i);
                    assert(holds(entries, id, i));
                }
            }
        }
    }
    if n == entries.len() {
        assert(ids_below(entries, n) =~= model_of(entries).dom()) by {
            assert forall|id: u64| model_of(entries).dom().contains(id) implies ids_below(
                entries,
                n,
            ).contains(id) by {
                let k = choose|k: int| holds(entries, id, k);
                assert(holds(entries, id, k));
            }
        }
    }
}

/// The position of `thread_id` in `entries`, or the position at which it
/// would be inserted.
fn locate(entries: &Vec<ThreadEntry>, thread_id: u64) -> (at: (usize, bool))
    requires
        ascending(entries@),
    ensures
        at.0 <= entries@.len(),
        at.1 == model_of(entries@).contains_key(thread_id),
        at.1 ==> holds(entries@, thread_id, at.0 as int) && model_of(entries@)[thread_id]
            == entries@[at.0 as int].state,
        !at.1 ==> forall|i: int| 0 <= i < at.0 ==> entries@[i].thread_id < thread_id,
        !at.1 ==> forall|i: int| at.0 <= i < entries@.len() ==> thread_id < entries@[i].thread_id,
{
    let mut i: usize = 0;
    while i < entries.len()
        invariant
            i <= entries@.len(),
            ascending(entries@),
            forall|k: int| 0 <= k < i ==> entries@[k].thread_id < thread_id,
        decreases entries@.len() - i,
    {
        if entries[i].thread_id == thread_id {
            proof {
                lemma_model_at(entries@, i as int);
            }
            return (i, true);
        }
        if entries[i].thread_id > thread_id {
            proof {
                lemma_model_absent(entries@, thread_id);
            }
            return (i, false);
        }
        i += 1;
    }
    proof {
        lemma_model_absent(entries@, thread_id);
    }
    (i, false)
}

impl ThreadStateStore {
    /// Entries are held in ascending order of thread id.
    #[verifier::type_invariant]
    spec fn well_formed(&self) -> bool {
        ascending(self.entries@)
    }

    /// The store as a map from thread id to state.
    pub closed spec fn view(&self) -> Map<u64, ThreadState> {
        model_of(self.entries@)
    }

    /// A store without entries.
    pub fn new() -> (store: ThreadStateStore)
        ensures
            store@ == Map::<u64, ThreadState>::empty(),
    {
        let store = ThreadStateStore { entries: Vec::new() };
        assert(store@ =~= Map::<u64, ThreadState>::empty());
        store
    }

    /// The number of threads that have an entry.
    pub fn len(&self) -> (n: usize)
        ensures
            self@.dom().finite(),
            n == self@.dom().len(),
    {
        proof {
            use_type_invariant(self);
            lemma_ids_below(self.entries@, self.entries@.len() as int);
        }
        self.entries.len()
    }

    /// Whether no thread has an entry.
    pub fn is_empty(&self) -> (b: bool)
        ensures
            b == (self@ == Map::<u64, ThreadState>::empty()),
    {
        let b = self.entries.len() == 0;
        proof {
            if b {
                assert(self@ =~= Map::<u64, ThreadState>::empty());
            } else {
                assert(holds(self.entries@, self.entries@[0].thread_id, 0));
                assert(self@.contains_key(self.entries@[0].thread_id));
            }
        }
        b
    }

    /// Whether `thread_id` has an entry.
    pub fn contains(&self, thread_id: u64) -> (b: bool)
        ensures
            b == self@.contains_key(thread_id),
    {
        proof {
            use_type_invariant(self);
        }
        let (_, found) = locate(&self.entries, thread_id);
        found
    }

    /// The state recorded for `thread_id`, if there is one.
    pub fn get(&self, thread_id: u64) -> (state: Option<&ThreadState>)
        ensures
            state.is_some() == self@.contains_key(thread_id),
            state.is_some() ==> *state.unwrap() == self@[thread_id],
    {
        proof {
            use_type_invariant(self);
        }
        let (i, found) = locate(&self.entries, thread_id);
        if found {
            Some(&self.entries[i].state)
        } else {
            None
        }
    }

    /// The ids of the threads that have an entry, in ascending order.
    pub fn thread_ids(&self) -> (ids: Vec<u64>)
        ensures
            lists_ascending(self@, ids@),
            ids@ == ascending_ids(self@),
    {
        proof {
            use_type_invariant(self);
        }
        let mut ids: Vec<u64> = Vec::new();
        let mut i: usize = 0;
        while i < self.entries.len()
            invariant
                i <= self.entries@.len(),
                ids@.len() == i,
                forall|k: int| 0 <= k < i ==> ids@[k] == self.entries@[k].thread_id,
            decreases self.entries@.len() - i,
        {
            ids.push(self.entries[i].thread_id);
            i += 1;
        }
        proof {
            assert forall|id: u64| ids@.to_set().contains(id) == self@.dom().contains(id) by {
                if ids@.to_set().contains(id) {
                    let k = choose|k: int| 0 <= k < ids@.len() && ids@[k] == id;
                    assert(holds(self.entries@, id, k));
                }
                if self@.dom().contains(id) {
                    let k = choose|k: int| holds(self.entries@, id, k);
                    assert(ids@[k] == id);
                }
            }
            assert(ids@.to_set() =~= self@.dom());
            assert(lists_ascending(self@, ids@));
            lemma_ascending_list_unique(self@, ids@, ascending_ids(self@));
        }
        ids
    }

    /// Records `state` for `thread_id`, in place of whatever was recorded
    /// for it before.
    pub fn upsert(&mut self, thread_id: u64, state: ThreadState)
        ensures
            final(self)@ == old(self)@.insert(thread_id, state),
    {
        proof {
            use_type_invariant(&*self);
        }
        let mut entries: Vec<ThreadEntry> = Vec::new();
        core::mem::swap(&mut self.entries, &mut entries);
        let ghost before = entries@;
        let (i, found) = locate(&entries, thread_id);
        if found {
            proof {
                lemma_model_updated(before, i as int, state);
            }
            entries[i].state = state;
            assert(entries@ =~= before.update(i as int, ThreadEntry { thread_id, state }));
        } else {
            proof {
                lemma_model_inserted(before, i as int, ThreadEntry { thread_id, state });
            }
            entries.insert(i, ThreadEntry { thread_id, state });
        }
        core::mem::swap(&mut self.entries, &mut entries);
    }

    /// Gives the thread `thread_id` the status `status`. A thread without
    /// an entry gets a fresh one first.
    pub fn set_status(&mut self, thread_id: u64, status: ThreadStatus)
        ensures
            final(self)@.dom() == old(self)@.dom().insert(thread_id),
            final(self)@.remove(thread_id) == old(self)@.remove(thread_id),
            old(self)@.contains_key(thread_id) ==> final(self)@[thread_id] == old(
                self,
            )@[thread_id].with_status(status),
            !old(self)@.contains_key(thread_id) ==> final(self)@[thread_id].status == status
                && !final(self)@[thread_id].stopped && final(self)@[thread_id].bare(),
    {
        let ghost before = self@;
        if !self.update_status(thread_id, status) {
            let mut state = ThreadState::new();
            state.status = status;
            self.upsert(thread_id, state);
        }
        proof {
            assert(self@.dom() =~= before.dom().insert(thread_id));
            assert(self@.remove(thread_id) =~= before.remove(thread_id));
        }
    }

    /// Gives the thread `thread_id` the status `status` if it has an
    /// entry, and says whether it had one. No entry is made.
    pub fn update_status(&mut self, thread_id: u64, status: ThreadStatus) -> (known: bool)
        ensures
            known == old(self)@.contains_key(thread_id),
            known ==> final(self)@ == old(self)@.insert(
                thread_id,
                old(self)@[thread_id].with_status(status),
            ),
            !known ==> final(self)@ == old(self)@,
    {
        proof {
            use_type_invariant(&*self);
        }
        let mut entries: Vec<ThreadEntry> = Vec::new();
        core::mem::swap(&mut self.entries, &mut entries);
        let ghost before = entries@;
        let (i, found) = locate(&entries, thread_id);
        if found {
            proof {
                lemma_model_updated(before, i as int, before[i as int].state.with_status(status));
            }
            entries[i].state.status = status;
            assert(entries@ =~= before.update(
                i as int,
                ThreadEntry { thread_id, state: before[i as int].state.with_status(status) },
            ));
        }
        core::mem::swap(&mut self.entries, &mut entries);
        found
    }

    /// Gives every thread that has an entry the status `status`, in one
    /// pass; no entry is made or dropped.
    pub fn set_all_status(&mut self, status: ThreadStatus)
        ensures
            final(self)@ == all_with_status(old(self)@, status),
    {
        proof {
            use_type_invariant(&*self);
        }
        let mut entries: Vec<ThreadEntry> = Vec::new();
        core::mem::swap(&mut self.entries, &mut entries);
        let ghost before = entries@;
        let mut i: usize = 0;
        while i < entries.len()
            invariant
                i <= entries@.len(),
                entries@.len() == before.len(),
                forall|k: int|
                    0 <= k < before.len() ==> entries@[k].thread_id == before[k].thread_id,
                forall|k: int|
                    0 <= k < i ==> entries@[k].state == before[k].state.with_status(status),
                forall|k: int| i <= k < before.len() ==> entries@[k].state == before[k].state,
            decreases entries@.len() - i,
        {
            entries[i].state.status = status;
            i += 1;
        }
        proof {
            let target = all_with_status(model_of(before), status);
            assert forall|id: u64| model_of(entries@).contains_key(id) == target.contains_key(
                id,
            ) by {
                if model_of(entries@).contains_key(id) {
                    let k = choose|k: int| holds(entries@, id, k);
                    assert(holds(before, id, k));
                }
                if model_of(before).contains_key(id) {
                    let k = choose|k: int| holds(before, id, k);
                    assert(holds(entries@, id, k));
                }
            }
            assert forall|id: u64| model_of(entries@).contains_key(id) implies model_of(
                entries@,
            )[id] == target[id] by {
                let k = choose|k: int| holds(entries@, id, k);
                lemma_model_at(entries@, k);
                lemma_model_at(before, k);
            }
            assert(model_of(entries@) =~= target);
        }
        core::mem::swap(&mut self.entries, &mut entries);
    }

    /// Drops the entry of `thread_id` and hands back what it held. This is
    /// the only operation that drops an entry.
    pub fn remove(&mut self, thread_id: u64) -> (state: Option<ThreadState>)
        ensures
            final(self)@ == old(self)@.remove(thread_id),
            state.is_some() == old(self)@.contains_key(thread_id),
            state.is_some() ==> state.unwrap() == old(self)@[thread_id],
    {
        proof {
            use_type_invariant(&*self);
        }
        let mut entries: Vec<ThreadEntry> = Vec::new();
        core::mem::swap(&mut self.entries, &mut entries);
        let ghost before = entries@;
        let (i, found) = locate(&entries, thread_id);
        let state = if found {
            let entry = entries.remove(i);
            proof {
                lemma_model_removed(before, i as int);
            }
            Some(entry.state)
        } else {
            proof {
                assert(model_of(before).remove(thread_id) =~= model_of(before));
            }
            None
        };
        core::mem::swap(&mut self.entries, &mut entries);
        state
    }
}

} // verus!
