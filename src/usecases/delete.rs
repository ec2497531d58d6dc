use vstd::prelude::*;

use crate::errors::AppError;
use crate::repository::TodoRepository;

verus! {

/// Removes the todo with this id; whether there was one.
pub fn execute<R: TodoRepository>(repo: &mut R, id: u32) -> (r: Result<bool, AppError>)
    requires
        old(repo).inv(),
    ensures
        r matches Err(e) ==> e is Unexpected,
        final(repo).inv(),
        r matches Ok(b) ==> (final(repo).model(), b) == old(repo).model().deleted(id as int),
{
    repo.delete(id)
}

} // verus!
