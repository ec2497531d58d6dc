use vstd::prelude::*;

verus! {

/// Failures that the repository and the use-case layer report.
///
/// A missing row is not among them on the storage side: lookups return an
/// absent value instead.
#[derive(Debug, Clone)]
pub enum AppError {
    NotFound,
    Validation(String),
    Unexpected(String),
}

impl AppError {
    /// A rejected input, with a message for the caller.
    pub fn validation(message: String) -> (r: AppError)
        ensures
            r matches AppError::Validation(m) && m@ == message@,
    {
        AppError::Validation(message)
    }

    /// A storage fault or any other failure the caller cannot correct.
    pub fn unexpected(message: String) -> (r: AppError)
        ensures
            r matches AppError::Unexpected(m) && m@ == message@,
    {
        AppError::Unexpected(message)
    }

    /// The HTTP status the boundary answers with: 400 for a rejected input,
    /// 404 for a missing todo, 500 for anything else.
    pub fn status_code(&self) -> (r: u16)
        ensures
            r == match self {
                AppError::Validation(_) => 400u16,
                AppError::NotFound => 404u16,
                AppError::Unexpected(_) => 500u16,
            },
    {
        match self {
            AppError::Validation(_) => 400,
            AppError::NotFound => 404,
            AppError::Unexpected(_) => 500,
        }
    }

    /// The `error` field of the JSON body the boundary answers with. A storage
    /// fault's own message is not passed on.
    pub fn summary(&self) -> (r: String)
        ensures
            r@ == match self {
                AppError::Validation(_) => "Validation failed"@,
                AppError::NotFound => "Todo not found"@,
                AppError::Unexpected(_) => "Unexpected error"@,
            },
    {
        match self {
            AppError::Validation(_) => "Validation failed".to_string(),
            AppError::NotFound => "Todo not found".to_string(),
            AppError::Unexpected(_) => "Unexpected error".to_string(),
        }
    }
}

} // verus!
