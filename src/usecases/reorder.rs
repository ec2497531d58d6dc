use vstd::prelude::*;

use crate::errors::AppError;
use crate::repository::TodoRepository;

verus! {

/// Moves the todo named at each index of `ids` to that index.
pub fn execute<R: TodoRepository>(repo: &mut R, ids: Vec<i64>) -> (r: Result<(), AppError>)
    requires
        old(repo).inv(),
        ids@.len() <= i64::MAX,
    ensures
        r matches Err(e) ==> e is Unexpected,
        final(repo).inv(),
        r is Ok ==> final(repo).model() == old(repo).model().reordered_by(ids@),
{
    repo.reorder(ids)
}

} // verus!
