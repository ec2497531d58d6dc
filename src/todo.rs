use vstd::prelude::*;

verus! {

/// What a todo is, as mathematics: the view of [`Todo`].
pub ghost struct TodoRecord {
    pub id: int,
    pub title: Seq<char>,
    pub completed: bool,
    pub position: int,
}

/// One todo item.
///
/// `id` is assigned by the store and never changes; `position` decides where
/// the item stands when all items are listed (ascending).
#[derive(Debug, Clone)]
pub struct Todo {
    pub id: i64,
    pub title: String,
    pub completed: bool,
    pub position: i64,
}

impl View for Todo {
    type V = TodoRecord;

    open spec fn view(&self) -> TodoRecord {
        TodoRecord {
            id: self.id as int,
            title: self.title@,
            completed: self.completed,
            position: self.position as int,
        }
    }
}

/// The views of a sequence of todos, element by element.
pub open spec fn records(s: Seq<Todo>) -> Seq<TodoRecord> {
    s.map_values(|t: Todo| t@)
}

impl Todo {
    /// A copy of this todo, field for field.
    pub fn duplicate(&self) -> (r: Todo)
        ensures
            r@ == self@,
    {
        Todo {
            id: self.id,
            title: self.title.clone(),
            completed: self.completed,
            position: self.position,
        }
    }
}

/// A row as the storage engine hands it back.
#[derive(Debug, Clone)]
pub struct DbTodo {
    pub id: i64,
    pub title: String,
    pub completed: bool,
    pub position: i64,
}

impl View for DbTodo {
    type V = TodoRecord;

    open spec fn view(&self) -> TodoRecord {
        TodoRecord {
            id: self.id as int,
            title: self.title@,
            completed: self.completed,
            position: self.position as int,
        }
    }
}

impl From<DbTodo> for Todo {
    /// A stored row becomes a todo field for field.
    fn from(row: DbTodo) -> (r: Todo) {
        Todo { id: row.id, title: row.title, completed: row.completed, position: row.position }
    }
}

impl vstd::std_specs::convert::FromSpecImpl<DbTodo> for Todo {
    open spec fn obeys_from_spec() -> bool {
        true
    }

    open spec fn from_spec(row: DbTodo) -> Todo {
        Todo { id: row.id, title: row.title, completed: row.completed, position: row.position }
    }
}

/// A todo as the HTTP boundary sends it out.
#[derive(Debug, Clone)]
pub struct TodoResponse {
    pub id: i64,
    pub title: String,
    pub completed: bool,
    pub position: i64,
}

impl View for TodoResponse {
    type V = TodoRecord;

    open spec fn view(&self) -> TodoRecord {
        TodoRecord {
            id: self.id as int,
            title: self.title@,
            completed: self.completed,
            position: self.position as int,
        }
    }
}

impl From<Todo> for TodoResponse {
    /// A todo is sent out field for field.
    fn from(todo: Todo) -> (r: TodoResponse) {
        TodoResponse {
            id: todo.id,
            title: todo.title,
            completed: todo.completed,
            position: todo.position,
        }
    }
}

impl vstd::std_specs::convert::FromSpecImpl<Todo> for TodoResponse {
    open spec fn obeys_from_spec() -> bool {
        true
    }

    open spec fn from_spec(todo: Todo) -> TodoResponse {
        TodoResponse {
            id: todo.id,
            title: todo.title,
            completed: todo.completed,
            position: todo.position,
        }
    }
}

} // verus!
