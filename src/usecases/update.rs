use vstd::prelude::*;

use crate::errors::AppError;
use crate::repository::TodoRepository;
use crate::rules::title_view;
use crate::todo::Todo;

verus! {

/// Applies the given fields to the todo with this id; `None` where there is
/// no such todo.
pub fn execute<R: TodoRepository>(
    repo: &mut R,
    id: u32,
    title: Option<String>,
    completed: Option<bool>,
) -> (r: Result<Option<Todo>, AppError>)
    requires
        old(repo).inv(),
    ensures
        r matches Err(e) ==> e is Unexpected,
        final(repo).inv(),
        r matches Ok(o) ==> final(repo).model() == old(repo).model().updated(
            id as int,
            title_view(title),
            completed,
        ).0 && match o {
            Some(t) => old(repo).model().updated(id as int, title_view(title), completed).1 == Some(
                t@,
            ),
            None => old(repo).model().updated(id as int, title_view(title), completed).1 is None,
        },
{
    repo.update(id, title, completed)
}

} // verus!
