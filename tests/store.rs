use rust_todo_app::store::MemoryTodoStore;
use rust_todo_app::todo::Todo;
use rust_todo_app::usecases::{create, delete, get, list, reorder, update};

fn titles(todos: &[Todo]) -> Vec<String> {
    todos.iter().map(|t| t.title.clone()).collect()
}

#[test]
fn scenario_create_reorder_delete_update() {
    let mut store = MemoryTodoStore::new();
    let a = store.create("A".to_string()).unwrap();
    let b = store.create("B".to_string()).unwrap();
    let c = store.create("C".to_string()).unwrap();
    assert_eq!((a.id, a.position), (1, 1));
    assert_eq!((b.id, b.position), (2, 2));
    assert_eq!((c.id, c.position), (3, 3));
    assert_eq!(titles(&store.get_all().unwrap()), vec!["A", "B", "C"]);

    store.reorder(vec![3, 1, 2]).unwrap();
    assert_eq!(titles(&store.get_all().unwrap()), vec!["C", "A", "B"]);

    assert!(store.delete(1).unwrap());
    assert_eq!(titles(&store.get_all().unwrap()), vec!["C", "B"]);
    assert!(store.get_by_id(1).unwrap().is_none());

    let updated = store.update(2, Some("B2".to_string()), Some(true)).unwrap().unwrap();
    assert_eq!(updated.id, 2);
    assert_eq!(updated.title, "B2");
    assert!(updated.completed);
    // The reorder put id 2 at index 2, and an update never moves a todo.
    assert_eq!(updated.position, 2);
}

#[test]
fn creates_get_distinct_ids_and_rising_positions() {
    let mut store = MemoryTodoStore::new();
    let mut made = Vec::new();
    for title in ["x", "y", "z", "w"] {
        made.push(store.create(title.to_string()).unwrap());
    }
    for i in 0..made.len() {
        for j in i + 1..made.len() {
            assert_ne!(made[i].id, made[j].id);
            assert!(made[i].position < made[j].position);
        }
    }
    assert!(made.iter().all(|t| !t.completed));
}

#[test]
fn create_after_reorder_appends_past_largest_position() {
    let mut store = MemoryTodoStore::new();
    store.create("a".to_string()).unwrap();
    store.create("b".to_string()).unwrap();
    store.reorder(vec![2, 1]).unwrap();
    let c = store.create("c".to_string()).unwrap();
    assert_eq!(c.id, 3);
    assert_eq!(c.position, 2);
    assert_eq!(titles(&store.get_all().unwrap()), vec!["b", "a", "c"]);
}

#[test]
fn ids_are_not_reused_after_delete() {
    let mut store = MemoryTodoStore::new();
    store.create("a".to_string()).unwrap();
    let b = store.create("b".to_string()).unwrap();
    assert!(store.delete(b.id as u32).unwrap());
    let c = store.create("c".to_string()).unwrap();
    assert_eq!(c.id, 3);
    assert_eq!(c.position, 2);
}

#[test]
fn update_without_fields_returns_current_row() {
    let mut store = MemoryTodoStore::new();
    store.create("keep".to_string()).unwrap();
    let same = store.update(1, None, None).unwrap().unwrap();
    assert_eq!((same.id, same.title.as_str(), same.completed, same.position), (1, "keep", false, 1));
    let again = store.get_by_id(1).unwrap().unwrap();
    assert_eq!(again.title, "keep");
    assert!(!again.completed);
}

#[test]
fn missing_ids_are_absent_not_errors() {
    let mut store = MemoryTodoStore::new();
    store.create("only".to_string()).unwrap();
    assert!(store.update(42, Some("x".to_string()), None).unwrap().is_none());
    assert!(!store.delete(42).unwrap());
    assert!(store.get_by_id(42).unwrap().is_none());
    assert_eq!(titles(&store.get_all().unwrap()), vec!["only"]);
}

#[test]
fn reorder_with_no_ids_changes_nothing() {
    let mut store = MemoryTodoStore::new();
    store.create("a".to_string()).unwrap();
    store.create("b".to_string()).unwrap();
    store.reorder(vec![]).unwrap();
    let all = store.get_all().unwrap();
    assert_eq!(titles(&all), vec!["a", "b"]);
    assert_eq!(all[0].position, 1);
    assert_eq!(all[1].position, 2);
}

#[test]
fn reorder_sets_positions_to_indices() {
    let mut store = MemoryTodoStore::new();
    for title in ["one", "two", "three"] {
        store.create(title.to_string()).unwrap();
    }
    store.reorder(vec![3, 1, 2]).unwrap();
    assert_eq!(store.get_by_id(3).unwrap().unwrap().position, 0);
    assert_eq!(store.get_by_id(1).unwrap().unwrap().position, 1);
    assert_eq!(store.get_by_id(2).unwrap().unwrap().position, 2);
    assert_eq!(titles(&store.get_all().unwrap()), vec!["three", "one", "two"]);
}

#[test]
fn reorder_last_occurrence_wins_and_unknown_ids_are_skipped() {
    let mut store = MemoryTodoStore::new();
    store.create("a".to_string()).unwrap();
    store.create("b".to_string()).unwrap();
    store.reorder(vec![1, 99, 1]).unwrap();
    assert_eq!(store.get_by_id(1).unwrap().unwrap().position, 2);
    assert_eq!(store.get_by_id(2).unwrap().unwrap().position, 2);
    assert_eq!(titles(&store.get_all().unwrap()), vec!["a", "b"]);
}

#[test]
fn partial_reorder_lists_equal_positions_by_id() {
    let mut store = MemoryTodoStore::new();
    for title in ["a", "b", "c"] {
        store.create(title.to_string()).unwrap();
    }
    store.reorder(vec![3, 2]).unwrap();
    let all = store.get_all().unwrap();
    assert_eq!(titles(&all), vec!["c", "a", "b"]);
    assert_eq!(all.iter().map(|t| t.position).collect::<Vec<_>>(), vec![0, 1, 1]);
}

#[test]
fn empty_store_lists_nothing() {
    let store = MemoryTodoStore::new();
    assert!(store.get_all().unwrap().is_empty());
}

#[test]
fn integration_test_test_create_todo() {
    let mut store = MemoryTodoStore::new();
    let todo = create::execute(&mut store, "テストTODO".to_string()).unwrap();
    assert_eq!(todo.title, "テストTODO");
    assert!(!todo.completed);
    assert!(todo.id > 0);
}

#[test]
fn integration_test_test_get_todos() {
    let mut store = MemoryTodoStore::new();
    for title in ["TODO 1", "TODO 2"] {
        create::execute(&mut store, title.to_string()).unwrap();
    }
    let todos = list::execute(&store).unwrap();
    assert_eq!(todos.len(), 2);
    assert_eq!(todos[0].title, "TODO 1");
    assert_eq!(todos[1].title, "TODO 2");
}

#[test]
fn integration_test_test_get_todo_by_id() {
    let mut store = MemoryTodoStore::new();
    let created = create::execute(&mut store, "取得テスト".to_string()).unwrap();
    let todo = get::execute(&store, created.id as u32).unwrap().unwrap();
    assert_eq!(todo.id, created.id);
    assert_eq!(todo.title, "取得テスト");
}

#[test]
fn integration_test_test_get_todo_not_found() {
    let store = MemoryTodoStore::new();
    assert!(get::execute(&store, 99999).unwrap().is_none());
}

#[test]
fn integration_test_test_update_todo() {
    let mut store = MemoryTodoStore::new();
    let created = create::execute(&mut store, "更新前".to_string()).unwrap();
    let id = created.id as u32;
    let updated = update::execute(&mut store, id, Some("更新後".to_string()), Some(true))
        .unwrap()
        .unwrap();
    assert_eq!(updated.title, "更新後");
    assert!(updated.completed);
    let todo = get::execute(&store, id).unwrap().unwrap();
    assert_eq!(todo.title, "更新後");
    assert!(todo.completed);
}

#[test]
fn integration_test_test_update_todo_not_found() {
    let mut store = MemoryTodoStore::new();
    let r = update::execute(&mut store, 99999, Some("存在しない".to_string()), None).unwrap();
    assert!(r.is_none());
}

#[test]
fn integration_test_test_delete_todo() {
    let mut store = MemoryTodoStore::new();
    let created = create::execute(&mut store, "削除テスト".to_string()).unwrap();
    let id = created.id as u32;
    assert!(delete::execute(&mut store, id).unwrap());
    assert!(get::execute(&store, id).unwrap().is_none());
}

#[test]
fn integration_test_test_delete_todo_not_found() {
    let mut store = MemoryTodoStore::new();
    assert!(!delete::execute(&mut store, 99999).unwrap());
}

#[test]
fn test_reorder_todos() {
    let mut store = MemoryTodoStore::new();
    let mut ids = Vec::new();
    for title in ["一番目", "二番目", "三番目"] {
        ids.push(create::execute(&mut store, title.to_string()).unwrap().id);
    }
    reorder::execute(&mut store, vec![ids[2], ids[1], ids[0]]).unwrap();
    let todos = list::execute(&store).unwrap();
    assert_eq!(todos.len(), 3);
    assert_eq!(todos[0].title, "三番目");
    assert_eq!(todos[1].title, "二番目");
    assert_eq!(todos[2].title, "一番目");
}

#[test]
fn test_reorder_todos_empty_ids() {
    let mut store = MemoryTodoStore::new();
    assert!(reorder::execute(&mut store, vec![]).is_ok());
}
