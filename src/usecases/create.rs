use vstd::prelude::*;

use crate::errors::AppError;
use crate::repository::TodoRepository;
use crate::todo::Todo;

verus! {

/// Creates a todo with this title.
pub fn execute<R: TodoRepository>(repo: &mut R, title: String) -> (r: Result<Todo, AppError>)
    requires
        old(repo).inv(),
    ensures
        r matches Err(e) ==> e is Unexpected,
        final(repo).inv(),
        r matches Ok(t) ==> (final(repo).model(), t@) == old(repo).model().created(title@),
{
    repo.create(title)
}

} // verus!
