use rust_todo_app::errors::AppError;
use rust_todo_app::rules::{
    created_todo, merge_update, next_position, removed_any, reorder_assignments,
    PositionAssignment,
};
use rust_todo_app::todo::Todo;

#[test]
fn next_position_in_empty_store_is_one() {
    assert_eq!(next_position(None).unwrap(), 1);
}

#[test]
fn next_position_is_one_past_largest() {
    assert_eq!(next_position(Some(3)).unwrap(), 4);
    assert_eq!(next_position(Some(0)).unwrap(), 1);
    assert_eq!(next_position(Some(-5)).unwrap(), -4);
}

#[test]
fn next_position_past_largest_integer_is_a_fault() {
    assert!(matches!(next_position(Some(i64::MAX)), Err(AppError::Unexpected(_))));
    assert_eq!(next_position(Some(i64::MAX - 1)).unwrap(), i64::MAX);
}

#[test]
fn created_todo_is_not_completed() {
    let t = created_todo(7, "new".to_string(), 3);
    assert_eq!(t.id, 7);
    assert_eq!(t.title, "new");
    assert!(!t.completed);
    assert_eq!(t.position, 3);
}

fn sample() -> Todo {
    Todo { id: 2, title: "before".to_string(), completed: false, position: 5 }
}

#[test]
fn merge_without_fields_keeps_todo() {
    let t = merge_update(sample(), None, None);
    assert_eq!(t.id, 2);
    assert_eq!(t.title, "before");
    assert!(!t.completed);
    assert_eq!(t.position, 5);
}

#[test]
fn merge_replaces_only_given_fields() {
    let t = merge_update(sample(), Some("after".to_string()), None);
    assert_eq!(t.title, "after");
    assert!(!t.completed);
    let t = merge_update(sample(), None, Some(true));
    assert_eq!(t.title, "before");
    assert!(t.completed);
    let t = merge_update(sample(), Some("both".to_string()), Some(true));
    assert_eq!(t.id, 2);
    assert_eq!(t.title, "both");
    assert!(t.completed);
    assert_eq!(t.position, 5);
}

#[test]
fn reorder_assignments_follow_index() {
    let plan = reorder_assignments(&vec![3, 1, 2]);
    assert_eq!(
        plan,
        vec![
            PositionAssignment { id: 3, position: 0 },
            PositionAssignment { id: 1, position: 1 },
            PositionAssignment { id: 2, position: 2 },
        ]
    );
    assert!(reorder_assignments(&vec![]).is_empty());
}

#[test]
fn removed_any_reports_affected_rows() {
    assert!(!removed_any(0));
    assert!(removed_any(1));
    assert!(removed_any(3));
}
