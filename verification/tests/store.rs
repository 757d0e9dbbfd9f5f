use debug_session::store::ThreadStateStore;
use debug_session::thread::{StackFrame, ThreadState, ThreadStatus};

fn stopped_state(frame_id: u64) -> ThreadState {
    let mut state = ThreadState::new();
    state.status = ThreadStatus::Stopped;
    state.stopped = true;
    state.current_stack_frame_id = frame_id;
    state.stack_frames = vec![StackFrame {
        id: frame_id,
        name: "main".to_string(),
        source_path: Some("/src/main.rs".to_string()),
        line: 3,
        column: 1,
    }];
    state
}

#[test]
fn new_store_is_empty() {
    let store = ThreadStateStore::new();
    assert!(store.is_empty());
    assert_eq!(store.len(), 0);
    assert!(store.get(1).is_none());
    assert!(!store.contains(1));
    assert!(store.thread_ids().is_empty());
}

#[test]
fn upsert_then_get_gives_the_state() {
    let mut store = ThreadStateStore::new();
    store.upsert(7, stopped_state(70));
    assert_eq!(store.get(7), Some(&stopped_state(70)));
    assert!(store.contains(7));
    assert_eq!(store.len(), 1);
    assert!(!store.is_empty());
}

#[test]
fn upsert_replaces_the_whole_state() {
    let mut store = ThreadStateStore::new();
    store.upsert(7, stopped_state(70));
    store.upsert(7, ThreadState::new());
    assert_eq!(store.get(7), Some(&ThreadState::new()));
    assert_eq!(store.len(), 1);
}

#[test]
fn thread_ids_are_ascending() {
    let mut store = ThreadStateStore::new();
    for id in [5u64, 1, 9, 3, 1, u64::MAX, 0] {
        store.upsert(id, ThreadState::new());
    }
    assert_eq!(store.thread_ids(), vec![0, 1, 3, 5, 9, u64::MAX]);
    assert_eq!(store.len(), 6);
}

#[test]
fn set_status_changes_only_the_status() {
    let mut store = ThreadStateStore::new();
    store.upsert(7, stopped_state(70));
    store.set_status(7, ThreadStatus::Running);
    let mut expected = stopped_state(70);
    expected.status = ThreadStatus::Running;
    assert_eq!(store.get(7), Some(&expected));
}

#[test]
fn set_status_enters_an_unknown_thread() {
    let mut store = ThreadStateStore::new();
    store.upsert(1, stopped_state(10));
    store.set_status(2, ThreadStatus::Exited);
    let mut expected = ThreadState::new();
    expected.status = ThreadStatus::Exited;
    assert_eq!(store.get(2), Some(&expected));
    assert_eq!(store.get(1), Some(&stopped_state(10)));
    assert_eq!(store.thread_ids(), vec![1, 2]);
}

#[test]
fn update_status_leaves_an_unknown_thread_out() {
    let mut store = ThreadStateStore::new();
    store.upsert(1, stopped_state(10));
    assert!(!store.update_status(2, ThreadStatus::Ended));
    assert!(store.get(2).is_none());
    assert_eq!(store.len(), 1);
    assert!(store.update_status(1, ThreadStatus::Ended));
    assert_eq!(store.get(1).map(|s| s.status), Some(ThreadStatus::Ended));
    assert_eq!(store.get(1).map(|s| s.stack_frames.len()), Some(1));
}

#[test]
fn set_all_status_reaches_every_thread_and_adds_none() {
    let mut store = ThreadStateStore::new();
    store.upsert(1, stopped_state(10));
    store.upsert(2, stopped_state(20));
    store.upsert(3, ThreadState::new());
    store.set_all_status(ThreadStatus::Exited);
    assert_eq!(store.thread_ids(), vec![1, 2, 3]);
    for id in [1u64, 2, 3] {
        assert_eq!(store.get(id).map(|s| s.status), Some(ThreadStatus::Exited));
    }
    assert_eq!(store.get(1).map(|s| s.current_stack_frame_id), Some(10));
    assert_eq!(store.get(2).map(|s| s.stopped), Some(true));
}

#[test]
fn set_all_status_on_an_empty_store_adds_nothing() {
    let mut store = ThreadStateStore::new();
    store.set_all_status(ThreadStatus::Running);
    assert!(store.is_empty());
}

#[test]
fn remove_hands_back_the_state() {
    let mut store = ThreadStateStore::new();
    store.upsert(1, stopped_state(10));
    store.upsert(2, stopped_state(20));
    assert_eq!(store.remove(1), Some(stopped_state(10)));
    assert!(store.get(1).is_none());
    assert_eq!(store.get(2), Some(&stopped_state(20)));
    assert_eq!(store.remove(1), None);
    assert_eq!(store.len(), 1);
}
