//! The current-line highlight in the source viewer: which files to clear
//! and which place to mark, and in what order.
//!
//! A frame without a source path has nothing to show: it is passed over,
//! and nothing else changes on its account.

use crate::error::ConfigurationError;
use crate::events::{paths_view, HighlightStep, HighlightStepModel, HighlightTarget};
use crate::store::{ascending_ids, lists_ascending, ThreadStateStore};
use crate::thread::{StackFrame, ThreadState};
use vstd::prelude::*;

verus! {

/// The source paths of `frames`, in order, for those that have one.
pub open spec fn source_paths(frames: Seq<StackFrame>) -> Seq<Seq<char>>
    decreases frames.len(),
{
    if frames.len() == 0 {
        Seq::empty()
    } else {
        let before = source_paths(frames.drop_last());
        match frames.last().source_path {
            Some(path) => before.push(path@),
            None => before,
        }
    }
}

/// The source paths of the frames of the threads `ids`, thread by thread.
pub open spec fn thread_paths(threads: Map<u64, ThreadState>, ids: Seq<u64>) -> Seq<Seq<char>>
    decreases ids.len(),
{
    if ids.len() == 0 {
        Seq::empty()
    } else {
        thread_paths(threads, ids.drop_last()) + source_paths(
            threads[ids.last()].stack_frames@,
        )
    }
}

/// Whether `at` is the first of `frames` with the id `id`.
pub open spec fn first_with_id(frames: Seq<StackFrame>, id: u64, at: int) -> bool {
    &&& 0 <= at < frames.len()
    &&& frames[at].id == id
    &&& forall|k: int| 0 <= k < at ==> frames[k].id != id
}

/// The place to mark for the frame `id` of `frames`: that of the first
/// frame with this id, if there is one and it has a source path.
pub open spec fn target_of(frames: Seq<StackFrame>, id: u64) -> Result<
    (Seq<char>, int, int),
    ConfigurationError,
> {
    if exists|at: int| first_with_id(frames, id, at) {
        let frame = frames[choose|at: int| first_with_id(frames, id, at)];
        match frame.source_path {
            Some(path) => Ok((path@, frame.row(), frame.col())),
            None => Err(ConfigurationError::NoSource),
        }
    } else {
        Err(ConfigurationError::UnknownFrame)
    }
}

/// The steps that show the frame `id` of a thread as the current one. With
/// `clear_existing` the highlights of the thread are removed first, and
/// only then is the new one applied.
pub open spec fn navigation(frames: Seq<StackFrame>, id: u64, clear_existing: bool) -> Seq<
    HighlightStepModel,
> {
    let clearing = if clear_existing {
        seq![HighlightStepModel::ClearBatch(source_paths(frames))]
    } else {
        Seq::empty()
    };
    match target_of(frames, id) {
        Ok(target) => clearing.push(HighlightStepModel::Apply(target.0, target.1, target.2)),
        Err(_) => clearing,
    }
}

fn collect_paths(frames: &Vec<StackFrame>, paths: &mut Vec<String>)
    ensures
        paths_view(final(paths)@) == paths_view(old(paths)@)
            + source_paths(frames@),
{
    let ghost held = paths_view(paths@);
    let mut i: usize = 0;
    assert(source_paths(frames@.subrange(0, 0)) =~= Seq::empty());
    while i < frames.len()
        invariant
            i <= frames@.len(),
            paths_view(paths@) == held + source_paths(frames@.subrange(0, i as int)),
        decreases frames@.len() - i,
    {
        proof {
            assert(frames@.subrange(0, i + 1).drop_last() == frames@.subrange(0, i as int));
        }
        let ghost before = paths@;
        match &frames[i].source_path {
            Some(path) => {
                paths.push(path.clone());
                assert(paths_view(paths@) =~= paths_view(
                    before,
                ).push(path@));
            },
            None => {},
        }
        i += 1;
    }
    proof {
        assert(frames@.subrange(0, i as int) == frames@);
    }
}

/// The step that removes the highlights of one thread: one clear for
/// every frame recorded for it that has a source path.
pub fn clear(state: &ThreadState) -> (step: HighlightStep)
    ensures
        step@ == HighlightStepModel::ClearBatch(source_paths(state.stack_frames@)),
{
    let mut paths: Vec<String> = Vec::new();
    collect_paths(&state.stack_frames, &mut paths);
    proof {
        assert(paths_view(Seq::<String>::empty()) =~= Seq::empty());
        assert(Seq::<Seq<char>>::empty() + source_paths(state.stack_frames@) =~= source_paths(
            state.stack_frames@,
        ));
    }
    HighlightStep::ClearBatch(paths)
}

/// The step that removes the highlights of every thread of a session.
pub fn clear_all(store: &ThreadStateStore) -> (step: HighlightStep)
    ensures
        step@ == HighlightStepModel::ClearBatch(thread_paths(store@, ascending_ids(store@))),
{
    let ids = store.thread_ids();
    let mut paths: Vec<String> = Vec::new();
    let mut i: usize = 0;
    proof {
        assert(paths_view(paths@) =~= Seq::empty());
    }
    while i < ids.len()
        invariant
            i <= ids@.len(),
            lists_ascending(store@, ids@),
            paths_view(paths@) == thread_paths(store@, ids@.subrange(0, i as int)),
        decreases ids@.len() - i,
    {
        proof {
            assert(ids@.subrange(0, i + 1).drop_last() == ids@.subrange(0, i as int));
            assert(ids@.to_set().contains(ids@[i as int]));
        }
        match store.get(ids[i]) {
            Some(state) => {
                collect_paths(&state.stack_frames, &mut paths);
            },
            None => {},
        }
        i += 1;
    }
    proof {
        assert(ids@.subrange(0, i as int) == ids@);
    }
    HighlightStep::ClearBatch(paths)
}

/// The first of `frames` with the id `id`, if there is one.
fn find_frame(frames: &Vec<StackFrame>, id: u64) -> (found: Option<usize>)
    ensures
        found is Some ==> first_with_id(frames@, id, found->0 as int),
        found is None ==> forall|at: int| !first_with_id(frames@, id, at),
{
    let mut i: usize = 0;
    while i < frames.len()
        invariant
            i <= frames@.len(),
            forall|k: int| 0 <= k < i ==> frames@[k].id != id,
        decreases frames@.len() - i,
    {
        if frames[i].id == id {
            return Some(i);
        }
        i += 1;
    }
    None
}

/// The place to mark for the frame `stack_frame_id` of a thread, or why
/// there is none.
pub fn target(state: &ThreadState, stack_frame_id: u64) -> (target: Result<
    HighlightTarget,
    ConfigurationError,
>)
    ensures
        match target {
            Ok(place) => target_of(state.stack_frames@, stack_frame_id) == Ok::<
                (Seq<char>, int, int),
                ConfigurationError,
            >(place@),
            Err(error) => target_of(state.stack_frames@, stack_frame_id) == Err::<
                (Seq<char>, int, int),
                ConfigurationError,
            >(error),
        },
{
    match find_frame(&state.stack_frames, stack_frame_id) {
        Some(at) => {
            proof {
                let chosen = choose|k: int|
                    first_with_id(state.stack_frames@, stack_frame_id, k);
                if chosen < at {
                } else if at < chosen {
                }
            }
            let frame = &state.stack_frames[at];
            match &frame.source_path {
                Some(path) => Ok(
                    HighlightTarget {
                        path: path.clone(),
                        row: frame.display_row(),
                        column: frame.display_column(),
                    },
                ),
                None => Err(ConfigurationError::NoSource),
            }
        },
        None => Err(ConfigurationError::UnknownFrame),
    }
}

/// The steps that show the frame `stack_frame_id` of a thread as the
/// current one.
pub fn navigate(state: &ThreadState, stack_frame_id: u64, clear_existing: bool) -> (steps: Vec<
    HighlightStep,
>)
    ensures
        steps@.map_values(|step: HighlightStep| step@) == navigation(
            state.stack_frames@,
            stack_frame_id,
            clear_existing,
        ),
{
    let mut steps: Vec<HighlightStep> = Vec::new();
    if clear_existing {
        steps.push(clear(state));
    }
    match target(state, stack_frame_id) {
        Ok(place) => {
            steps.push(HighlightStep::Apply(place));
        },
        Err(_) => {},
    }
    proof {
        assert(steps@.map_values(|step: HighlightStep| step@) =~= navigation(
            state.stack_frames@,
            stack_frame_id,
            clear_existing,
        ));
    }
    steps
}

/// Where a removal is asked for before a highlight is applied, the
/// removal is the step before it: the plan never holds two current lines.
pub proof fn lemma_clear_precedes_apply(frames: Seq<StackFrame>, id: u64)
    ensures
        navigation(frames, id, true).len() >= 1,
        navigation(frames, id, true)[0] is ClearBatch,
        forall|i: int|
            0 <= i < navigation(frames, id, true).len() && navigation(frames, id, true)[i] is Apply
                ==> i == 1,
{
}

} // verus!
