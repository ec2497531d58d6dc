use vstd::prelude::*;
use vstd::string::StrSliceExecFns;

use crate::errors::AppError;

verus! {

/// The message sent back for a title of the wrong length.
pub const TITLE_LENGTH_MESSAGE: &'static str = "タイトルは1文字以上200文字以下である必要があります";

/// The fewest characters a title may have.
pub const TITLE_MIN_CHARS: usize = 1;

/// The most characters a title may have.
pub const TITLE_MAX_CHARS: usize = 200;

/// A title is accepted when it has between 1 and 200 characters.
pub open spec fn title_is_valid(title: Seq<char>) -> bool {
    TITLE_MIN_CHARS <= title.len() <= TITLE_MAX_CHARS
}

/// Whether `e` is the error for a title of the wrong length.
pub open spec fn is_title_length_error(e: AppError) -> bool {
    e matches AppError::Validation(m) && m@ == TITLE_LENGTH_MESSAGE@
}

fn check_title(title: &String) -> (r: Result<(), AppError>)
    ensures
        r is Ok <==> title_is_valid(title@),
        r matches Err(e) ==> is_title_length_error(e),
{
    let n = title.as_str().unicode_len();
    if TITLE_MIN_CHARS <= n && n <= TITLE_MAX_CHARS {
        Ok(())
    } else {
        Err(AppError::validation(TITLE_LENGTH_MESSAGE.to_string()))
    }
}

/// The body of a request that creates a todo.
#[derive(Debug, Clone)]
pub struct CreateTodoRequest {
    pub title: String,
}

impl CreateTodoRequest {
    /// Accepts the request when its title has between 1 and 200 characters.
    pub fn validate(&self) -> (r: Result<(), AppError>)
        ensures
            r is Ok <==> title_is_valid(self.title@),
            r matches Err(e) ==> is_title_length_error(e),
    {
        check_title(&self.title)
    }
}

/// The body of a request that updates a todo; absent fields stay as they are.
#[derive(Debug, Clone)]
pub struct UpdateTodoRequest {
    pub title: Option<String>,
    pub completed: Option<bool>,
}

impl UpdateTodoRequest {
    /// Accepts the request when it gives no title, or a title with between 1
    /// and 200 characters.
    pub fn validate(&self) -> (r: Result<(), AppError>)
        ensures
            r is Ok <==> match self.title {
                Some(t) => title_is_valid(t@),
                None => true,
            },
            r matches Err(e) ==> is_title_length_error(e),
    {
        match &self.title {
            Some(t) => check_title(t),
            None => Ok(()),
        }
    }
}

/// The body of a request that reorders todos: the ids in their new order.
#[derive(Debug, Clone)]
pub struct ReorderRequest {
    pub ids: Vec<i64>,
}

} // verus!
