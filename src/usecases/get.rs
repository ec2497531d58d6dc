use vstd::prelude::*;

use crate::errors::AppError;
use crate::repository::TodoRepository;
use crate::todo::Todo;

verus! {

/// The todo with this id, or `None`.
pub fn execute<R: TodoRepository>(repo: &R, id: u32) -> (r: Result<Option<Todo>, AppError>)
    requires
        repo.inv(),
    ensures
        r matches Err(e) ==> e is Unexpected,
        r matches Ok(o) ==> match o {
            Some(t) => repo.model().lookup(id as int) == Some(t@),
            None => repo.model().lookup(id as int) is None,
        },
{
    repo.get_by_id(id)
}

} // verus!
