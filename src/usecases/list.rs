use vstd::prelude::*;

use crate::errors::AppError;
use crate::repository::TodoRepository;
use crate::todo::{records, Todo};

verus! {

/// Every todo, by ascending position.
pub fn execute<R: TodoRepository>(repo: &R) -> (r: Result<Vec<Todo>, AppError>)
    requires
        repo.inv(),
    ensures
        r matches Err(e) ==> e is Unexpected,
        r matches Ok(v) ==> repo.model().is_listing(records(v@)),
{
    repo.get_all()
}

} // verus!
