use todo_onchain::errors::TodoError;
use todo_onchain::store::TodoStore;
use todo_onchain::Identity;

fn id(byte: u8) -> Identity {
    Identity::new([byte; 32])
}

#[test]
fn initialize_user_sets_zero_counters() {
    let owner = id(1);
    let mut store = TodoStore::new();
    assert_eq!(store.initialize_user(&owner), Ok(()));
    let profile = store.get_profile(&owner).unwrap();
    assert_eq!(profile.todo_count, 0);
    assert_eq!(profile.last_todo, 0);
    assert!(profile.authority == owner);
}

#[test]
fn initialize_user_twice_fails() {
    let owner = id(1);
    let mut store = TodoStore::new();
    assert_eq!(store.initialize_user(&owner), Ok(()));
    assert_eq!(store.initialize_user(&owner), Err(TodoError::AlreadyInitialized));
    // and again, after other operations
    assert_eq!(store.add_todo(&owner, String::from("a")), Ok(0));
    assert_eq!(store.initialize_user(&owner), Err(TodoError::AlreadyInitialized));
}

#[test]
fn add_todo_without_profile_fails() {
    let owner = id(1);
    let mut store = TodoStore::new();
    assert_eq!(store.add_todo(&owner, String::from("a")), Err(TodoError::ProfileNotFound));
}

#[test]
fn add_todo_assigns_consecutive_indices() {
    let owner = id(1);
    let mut store = TodoStore::new();
    store.initialize_user(&owner).unwrap();
    for expected in 0u8..10u8 {
        assert_eq!(store.add_todo(&owner, format!("task {}", expected)), Ok(expected));
    }
    let profile = store.get_profile(&owner).unwrap();
    assert_eq!(profile.todo_count, 10);
    assert_eq!(profile.last_todo, 10);
}

#[test]
fn full_lifecycle_scenario() {
    let owner = id(7);
    let mut store = TodoStore::new();
    // initialize: both counters zero
    assert_eq!(store.initialize_user(&owner), Ok(()));
    let p = store.get_profile(&owner).unwrap();
    assert_eq!((p.todo_count, p.last_todo), (0, 0));
    // first task gets index 0
    assert_eq!(store.add_todo(&owner, String::from("buy milk")), Ok(0));
    let p = store.get_profile(&owner).unwrap();
    assert_eq!((p.todo_count, p.last_todo), (1, 1));
    let t = store.get_todo(&owner, 0).unwrap();
    assert_eq!(t.content, "buy milk");
    assert!(!t.marked);
    // marking completes it
    assert_eq!(store.mark_todo(&owner, 0), Ok(()));
    assert!(store.get_todo(&owner, 0).unwrap().marked);
    // removing tombstones index 0
    assert_eq!(store.remove_todo(&owner, 0), Ok(()));
    assert_eq!(store.get_profile(&owner).unwrap().todo_count, 0);
    assert!(store.get_todo(&owner, 0).is_none());
    // the next task gets index 1, not 0
    assert_eq!(store.add_todo(&owner, String::from("buy eggs")), Ok(1));
    let p = store.get_profile(&owner).unwrap();
    assert_eq!((p.todo_count, p.last_todo), (1, 2));
    assert_eq!(store.get_todo(&owner, 1).unwrap().content, "buy eggs");
}

#[test]
fn mark_todo_twice_fails() {
    let owner = id(1);
    let mut store = TodoStore::new();
    store.initialize_user(&owner).unwrap();
    store.add_todo(&owner, String::from("a")).unwrap();
    assert_eq!(store.mark_todo(&owner, 0), Ok(()));
    assert_eq!(store.mark_todo(&owner, 0), Err(TodoError::AlreadyCompleted));
    // the record survives the rejected second marking
    let t = store.get_todo(&owner, 0).unwrap();
    assert!(t.marked);
    assert_eq!(t.content, "a");
}

#[test]
fn mark_todo_without_task_fails() {
    let owner = id(2);
    let mut store = TodoStore::new();
    // no profile, no task
    assert_eq!(store.mark_todo(&owner, 0), Err(TodoError::NotFound));
    // a profile alone does not help
    store.initialize_user(&owner).unwrap();
    assert_eq!(store.mark_todo(&owner, 0), Err(TodoError::NotFound));
}

#[test]
fn mark_todo_is_isolated_per_owner() {
    let owner_a = id(1);
    let owner_b = id(2);
    let mut store = TodoStore::new();
    store.initialize_user(&owner_a).unwrap();
    store.initialize_user(&owner_b).unwrap();
    assert_eq!(store.add_todo(&owner_a, String::from("a's task")), Ok(0));
    // b's index 0 derives a distinct address, so b finds nothing there
    assert_eq!(store.mark_todo(&owner_b, 0), Err(TodoError::NotFound));
    // a's task is untouched
    let t = store.get_todo(&owner_a, 0).unwrap();
    assert!(!t.marked);
    assert_eq!(t.content, "a's task");
}

#[test]
fn remove_todo_without_task_fails() {
    let owner = id(1);
    let mut store = TodoStore::new();
    assert_eq!(store.remove_todo(&owner, 3), Err(TodoError::NotFound));
    store.initialize_user(&owner).unwrap();
    store.add_todo(&owner, String::from("a")).unwrap();
    assert_eq!(store.remove_todo(&owner, 3), Err(TodoError::NotFound));
    // removing twice: the second attempt finds nothing
    assert_eq!(store.remove_todo(&owner, 0), Ok(()));
    assert_eq!(store.remove_todo(&owner, 0), Err(TodoError::NotFound));
}

#[test]
fn removed_index_is_never_reused() {
    let owner = id(1);
    let mut store = TodoStore::new();
    store.initialize_user(&owner).unwrap();
    assert_eq!(store.add_todo(&owner, String::from("a")), Ok(0));
    assert_eq!(store.add_todo(&owner, String::from("b")), Ok(1));
    assert_eq!(store.remove_todo(&owner, 0), Ok(()));
    assert_eq!(store.add_todo(&owner, String::from("c")), Ok(2));
    assert_eq!(store.remove_todo(&owner, 1), Ok(()));
    assert_eq!(store.remove_todo(&owner, 2), Ok(()));
    assert_eq!(store.add_todo(&owner, String::from("d")), Ok(3));
    // the tombstoned addresses stay vacant
    assert!(store.get_todo(&owner, 0).is_none());
    assert!(store.get_todo(&owner, 1).is_none());
    assert!(store.get_todo(&owner, 2).is_none());
    assert_eq!(store.get_todo(&owner, 3).unwrap().content, "d");
}

#[test]
fn task_count_matches_live_tasks() {
    let owner = id(1);
    let mut store = TodoStore::new();
    store.initialize_user(&owner).unwrap();
    for i in 0u8..5u8 {
        store.add_todo(&owner, format!("task {}", i)).unwrap();
    }
    // marking keeps a task live; removing does not
    store.mark_todo(&owner, 1).unwrap();
    store.mark_todo(&owner, 3).unwrap();
    store.remove_todo(&owner, 2).unwrap();
    store.remove_todo(&owner, 3).unwrap();
    let mut live = 0u8;
    for i in 0u8..5u8 {
        if store.get_todo(&owner, i).is_some() {
            live += 1;
        }
    }
    assert_eq!(live, 3);
    assert_eq!(store.get_profile(&owner).unwrap().todo_count, 3);
}

#[test]
fn counter_overflow_after_exhausting_indices() {
    let owner = id(1);
    let mut store = TodoStore::new();
    store.initialize_user(&owner).unwrap();
    for i in 0u8..=254u8 {
        assert_eq!(store.add_todo(&owner, String::new()), Ok(i));
    }
    assert_eq!(store.get_profile(&owner).unwrap().last_todo, 255);
    assert_eq!(store.add_todo(&owner, String::new()), Err(TodoError::CounterOverflow));
    // removals do not make room: indices are never recycled
    store.remove_todo(&owner, 0).unwrap();
    assert_eq!(store.add_todo(&owner, String::new()), Err(TodoError::CounterOverflow));
}

#[test]
fn stores_are_independent_per_owner() {
    let owner_a = id(10);
    let owner_b = id(20);
    let mut store = TodoStore::new();
    store.initialize_user(&owner_a).unwrap();
    store.initialize_user(&owner_b).unwrap();
    assert_eq!(store.add_todo(&owner_a, String::from("a0")), Ok(0));
    assert_eq!(store.add_todo(&owner_b, String::from("b0")), Ok(0));
    assert_eq!(store.add_todo(&owner_b, String::from("b1")), Ok(1));
    assert_eq!(store.get_profile(&owner_a).unwrap().todo_count, 1);
    assert_eq!(store.get_profile(&owner_b).unwrap().todo_count, 2);
    assert_eq!(store.get_todo(&owner_a, 0).unwrap().content, "a0");
    assert_eq!(store.get_todo(&owner_b, 0).unwrap().content, "b0");
}
