use rust_todo_app::todo::{DbTodo, Todo, TodoResponse};

#[test]
fn todo_holds_given_fields() {
    let todo = Todo {
        id: 1,
        title: "write_tests".to_string(),
        completed: false,
        position: 10,
    };

    assert_eq!(todo.id, 1);
    assert_eq!(todo.title, "write_tests");
    assert!(!todo.completed);
    assert_eq!(todo.position, 10);
}

#[test]
fn todo_is_coleneable() {
    let todo = Todo {
        id: 2,
        title: "clone me".to_string(),
        completed: true,
        position: 20,
    };

    let cloned = todo.clone();
    assert_eq!(cloned.id, 2);
    assert_eq!(cloned.title, "clone me");
    assert!(cloned.completed);
    assert_eq!(cloned.position, 20);
}

#[test]
fn duplicate_copies_every_field() {
    let todo = Todo { id: 3, title: "copy".to_string(), completed: true, position: 7 };
    let copy = todo.duplicate();
    assert_eq!(copy.id, 3);
    assert_eq!(copy.title, "copy");
    assert!(copy.completed);
    assert_eq!(copy.position, 7);
}

#[test]
fn stored_row_becomes_todo_field_for_field() {
    let row = DbTodo { id: 4, title: "row".to_string(), completed: true, position: 9 };
    let todo = Todo::from(row);
    assert_eq!(todo.id, 4);
    assert_eq!(todo.title, "row");
    assert!(todo.completed);
    assert_eq!(todo.position, 9);
}

#[test]
fn todo_becomes_response_field_for_field() {
    let todo = Todo { id: 5, title: "out".to_string(), completed: false, position: 2 };
    let response = TodoResponse::from(todo);
    assert_eq!(response.id, 5);
    assert_eq!(response.title, "out");
    assert!(!response.completed);
    assert_eq!(response.position, 2);
}
