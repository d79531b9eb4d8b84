use vstd::prelude::*;

verus! {

/// The error taxonomy of the service. Every failure of a collaborator is
/// translated into one of these before it reaches a response.
#[derive(Debug, Clone, PartialEq, Eq)]
pub enum AppError {
    DatabaseError(String),
    NotFound(String),
    BadRequest(String),
    Unauthorized(String),
    Forbidden(String),
    Conflict(String),
    Internal(String),
    ValidationError(String),
    JwtError(String),
    CacheError(String),
    RateLimitExceeded,
    ServiceUnavailable,
}

/// The HTTP status that answers each kind of error.
pub open spec fn status_of(e: AppError) -> u16 {
    match e {
        AppError::DatabaseError(_) => 500,
        AppError::NotFound(_) => 404,
        AppError::BadRequest(_) => 400,
        AppError::Unauthorized(_) => 401,
        AppError::Forbidden(_) => 403,
        AppError::Conflict(_) => 409,
        AppError::Internal(_) => 500,
        AppError::ValidationError(_) => 422,
        AppError::JwtError(_) => 401,
        AppError::CacheError(_) => 500,
        AppError::RateLimitExceeded => 429,
        AppError::ServiceUnavailable => 503,
    }
}

/// The text that a client is shown for an error.
pub open spec fn client_message_of(e: AppError) -> Seq<char> {
    match e {
        AppError::DatabaseError(_) => "Database error occurred"@,
        AppError::NotFound(m) => m@,
        AppError::BadRequest(m) => m@,
        AppError::Unauthorized(m) => m@,
        AppError::Forbidden(m) => m@,
        AppError::Conflict(m) => m@,
        AppError::Internal(_) => "Internal server error"@,
        AppError::ValidationError(m) => m@,
        AppError::JwtError(_) => "Invalid or expired token"@,
        AppError::CacheError(_) => "Cache operation failed"@,
        AppError::RateLimitExceeded => "Too many requests"@,
        AppError::ServiceUnavailable => "Service temporarily unavailable"@,
    }
}

impl AppError {
    /// The HTTP status code for this error.
    pub fn status_code(&self) -> (r: u16)
        ensures
            r == status_of(*self),
    {
        match self {
            AppError::DatabaseError(_) => 500,
            AppError::NotFound(_) => 404,
            AppError::BadRequest(_) => 400,
            AppError::Unauthorized(_) => 401,
            AppError::Forbidden(_) => 403,
            AppError::Conflict(_) => 409,
            AppError::Internal(_) => 500,
            AppError::ValidationError(_) => 422,
            AppError::JwtError(_) => 401,
            AppError::CacheError(_) => 500,
            AppError::RateLimitExceeded => 429,
            AppError::ServiceUnavailable => 503,
        }
    }

    /// The information-minimal message shown to the client.
    pub fn client_message(&self) -> (r: String)
        ensures
            r@ == client_message_of(*self),
    {
        match self {
            AppError::DatabaseError(_) => "Database error occurred".to_string(),
            AppError::NotFound(m) => m.clone(),
            AppError::BadRequest(m) => m.clone(),
            AppError::Unauthorized(m) => m.clone(),
            AppError::Forbidden(m) => m.clone(),
            AppError::Conflict(m) => m.clone(),
            AppError::Internal(_) => "Internal server error".to_string(),
            AppError::ValidationError(m) => m.clone(),
            AppError::JwtError(_) => "Invalid or expired token".to_string(),
            AppError::CacheError(_) => "Cache operation failed".to_string(),
            AppError::RateLimitExceeded => "Too many requests".to_string(),
            AppError::ServiceUnavailable => "Service temporarily unavailable".to_string(),
        }
    }
}

} // verus!
