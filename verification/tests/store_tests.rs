use todo_store::store::{find_todo_index, StoreError, TodoStore, FIRST_ID};

fn fresh_store() -> TodoStore {
    TodoStore::new("Rust Todo API".to_string())
}

#[test]
fn app_name_is_kept() {
    let store = fresh_store();
    assert_eq!(store.app_name(), "Rust Todo API");
}

#[test]
fn new_store_is_empty() {
    let store = fresh_store();
    assert_eq!(store.list().len(), 0);
    assert!(store.can_create());
}

#[test]
fn create_assigns_ids_from_first_id() {
    let mut store = fresh_store();
    let t = store.create("first".to_string());
    assert_eq!(t.id, FIRST_ID);
    assert_eq!(t.text, "first");
    assert!(!t.completed);
}

#[test]
fn created_ids_are_pairwise_distinct() {
    let mut store = fresh_store();
    for k in 0..100u32 {
        store.create(format!("task {}", k));
    }
    let todos = store.list();
    assert_eq!(todos.len(), 100);
    for a in 0..todos.len() {
        for b in 0..todos.len() {
            if a != b {
                assert_ne!(todos[a].id, todos[b].id);
            }
        }
    }
}

#[test]
fn creation_is_monotonic() {
    let mut store = fresh_store();
    let first = store.create("a".to_string());
    store.create("b".to_string());
    store.create("c".to_string());
    let later = store.create("d".to_string());
    assert!(later.id > first.id);
}

#[test]
fn create_then_get_round_trip() {
    let mut store = fresh_store();
    let created = store.create("x".to_string());
    let fetched = store.get_by_id(created.id).expect("created id must be found");
    assert_eq!(fetched.id, created.id);
    assert_eq!(fetched.text, "x");
    assert!(!fetched.completed);
}

#[test]
fn update_sets_the_flag() {
    let mut store = fresh_store();
    let t = store.create("x".to_string());
    assert_eq!(store.update_completed(t.id, true), Ok(()));
    let fetched = store.get_by_id(t.id).unwrap();
    assert!(fetched.completed);
    assert_eq!(fetched.text, "x");
    assert_eq!(fetched.id, t.id);
}

#[test]
fn update_twice_equals_update_once() {
    let mut store = fresh_store();
    let keep = store.create("other".to_string());
    let t = store.create("x".to_string());

    let mut once = fresh_store();
    once.create("other".to_string());
    once.create("x".to_string());

    assert_eq!(store.update_completed(t.id, true), Ok(()));
    assert_eq!(store.update_completed(t.id, true), Ok(()));
    assert_eq!(once.update_completed(t.id, true), Ok(()));

    let twice_list = store.list();
    let once_list = once.list();
    assert_eq!(twice_list.len(), once_list.len());
    for k in 0..twice_list.len() {
        assert_eq!(twice_list[k].id, once_list[k].id);
        assert_eq!(twice_list[k].text, once_list[k].text);
        assert_eq!(twice_list[k].completed, once_list[k].completed);
    }
    assert!(!store.get_by_id(keep.id).unwrap().completed);
}

#[test]
fn delete_removes_exactly_one() {
    let mut store = fresh_store();
    let a = store.create("a".to_string());
    let b = store.create("b".to_string());
    let c = store.create("c".to_string());
    assert_eq!((a.id, b.id, c.id), (1, 2, 3));

    assert_eq!(store.delete(2), Ok(()));

    let rest = store.list();
    assert_eq!(rest.len(), 2);
    assert_eq!(rest[0].id, 1);
    assert_eq!(rest[0].text, "a");
    assert_eq!(rest[1].id, 3);
    assert_eq!(rest[1].text, "c");
    assert_eq!(store.get_by_id(2), Err(StoreError::NotFound));
}

#[test]
fn many_creates_grow_by_exactly_n() {
    let mut store = fresh_store();
    store.create("before".to_string());
    let before = store.list().len();
    let n = 50;
    let mut ids = Vec::new();
    for k in 0..n {
        assert!(store.can_create());
        ids.push(store.create(format!("task {}", k)).id);
    }
    assert_eq!(store.list().len(), before + n);
    for a in 0..ids.len() {
        for b in 0..ids.len() {
            if a != b {
                assert_ne!(ids[a], ids[b]);
            }
        }
    }
}

#[test]
fn unknown_id_is_not_found_and_mutates_nothing() {
    let mut store = fresh_store();
    store.create("a".to_string());
    store.create("b".to_string());
    let snapshot = store.list();

    assert_eq!(store.get_by_id(999), Err(StoreError::NotFound));
    assert_eq!(store.update_completed(999, true), Err(StoreError::NotFound));
    assert_eq!(store.delete(999), Err(StoreError::NotFound));

    let after = store.list();
    assert_eq!(after.len(), snapshot.len());
    for k in 0..after.len() {
        assert_eq!(after[k].id, snapshot[k].id);
        assert_eq!(after[k].text, snapshot[k].text);
        assert_eq!(after[k].completed, snapshot[k].completed);
    }
}

#[test]
fn deleted_id_is_not_reused() {
    let mut store = fresh_store();
    let a = store.create("a".to_string());
    assert_eq!(store.delete(a.id), Ok(()));
    let b = store.create("b".to_string());
    assert_ne!(a.id, b.id);
    assert!(b.id > a.id);
}

#[test]
fn error_kinds_are_distinct() {
    assert_ne!(StoreError::NotFound, StoreError::Unavailable);
}

#[test]
fn find_todo_index_returns_first_match() {
    let mut store = fresh_store();
    store.create("a".to_string());
    store.create("b".to_string());
    let todos = store.list();
    assert_eq!(find_todo_index(&todos, 2), Some(1));
    assert_eq!(find_todo_index(&todos, 7), None);
    assert_eq!(find_todo_index(&Vec::new(), 1), None);
}

#[test]
fn list_is_a_snapshot() {
    let mut store = fresh_store();
    let t = store.create("a".to_string());
    let snapshot = store.list();
    assert_eq!(store.update_completed(t.id, true), Ok(()));
    assert!(!snapshot[0].completed);
    assert!(store.get_by_id(t.id).unwrap().completed);
}
