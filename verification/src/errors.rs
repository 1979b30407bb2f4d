//! Error kinds of the platform and of its HTTP API, and how one maps onto
//! the other.
use vstd::prelude::*;
use crate::json::JsonValue;
use crate::text::{append_str, chars_of, owned, string_of};

verus! {

/// Core errors.
#[derive(Debug)]
pub enum Error {
    NotFound(String),
    InvalidInput(String),
    Unauthorized(String),
    Forbidden(String),
    Conflict(String),
    ExecutionFailed(String),
    DeploymentFailed(String),
    Timeout(String),
    Cancelled,
    Internal(String),
}

pub open spec fn error_text(e: Error) -> Seq<char> {
    match e {
        Error::NotFound(m) => "not found: "@ + m@,
        Error::InvalidInput(m) => "invalid input: "@ + m@,
        Error::Unauthorized(m) => "unauthorized: "@ + m@,
        Error::Forbidden(m) => "forbidden: "@ + m@,
        Error::Conflict(m) => "conflict: "@ + m@,
        Error::ExecutionFailed(m) => "execution failed: "@ + m@,
        Error::DeploymentFailed(m) => "deployment failed: "@ + m@,
        Error::Timeout(m) => "timeout: "@ + m@,
        Error::Cancelled => "cancelled"@,
        Error::Internal(m) => "internal error: "@ + m@,
    }
}

fn prefixed(p: &str, m: &str) -> (r: String)
    ensures
        r@ == p@ + m@,
{
    let mut out = chars_of(p);
    append_str(&mut out, m);
    string_of(out.as_slice())
}

impl Error {
    /// The error's message.
    pub fn message(&self) -> (r: String)
        ensures
            r@ == error_text(*self),
    {
        match self {
            Error::NotFound(m) => prefixed("not found: ", m.as_str()),
            Error::InvalidInput(m) => prefixed("invalid input: ", m.as_str()),
            Error::Unauthorized(m) => prefixed("unauthorized: ", m.as_str()),
            Error::Forbidden(m) => prefixed("forbidden: ", m.as_str()),
            Error::Conflict(m) => prefixed("conflict: ", m.as_str()),
            Error::ExecutionFailed(m) => prefixed("execution failed: ", m.as_str()),
            Error::DeploymentFailed(m) => prefixed("deployment failed: ", m.as_str()),
            Error::Timeout(m) => prefixed("timeout: ", m.as_str()),
            Error::Cancelled => owned("cancelled"),
            Error::Internal(m) => prefixed("internal error: ", m.as_str()),
        }
    }
}

/// API error type.
#[derive(Debug)]
pub enum ApiError {
    NotFound(String),
    BadRequest(String),
    Unauthorized(String),
    Forbidden(String),
    Conflict(String),
    Internal(String),
}

pub open spec fn api_status_of(e: ApiError) -> u16 {
    match e {
        ApiError::NotFound(_) => 404,
        ApiError::BadRequest(_) => 400,
        ApiError::Unauthorized(_) => 401,
        ApiError::Forbidden(_) => 403,
        ApiError::Conflict(_) => 409,
        ApiError::Internal(_) => 500,
    }
}

pub open spec fn api_message_of(e: ApiError) -> Seq<char> {
    match e {
        ApiError::NotFound(m) => m@,
        ApiError::BadRequest(m) => m@,
        ApiError::Unauthorized(m) => m@,
        ApiError::Forbidden(m) => m@,
        ApiError::Conflict(m) => m@,
        ApiError::Internal(m) => m@,
    }
}

/// An error as the status it is answered with and its message.
pub open spec fn error_view(e: ApiError) -> (u16, Seq<char>) {
    (api_status_of(e), api_message_of(e))
}

impl ApiError {
    /// The HTTP status the error is answered with.
    pub fn status_code(&self) -> (r: u16)
        ensures
            r == api_status_of(*self),
    {
        match self {
            ApiError::NotFound(_) => 404,
            ApiError::BadRequest(_) => 400,
            ApiError::Unauthorized(_) => 401,
            ApiError::Forbidden(_) => 403,
            ApiError::Conflict(_) => 409,
            ApiError::Internal(_) => 500,
        }
    }

    /// The message the error carries.
    pub fn message(&self) -> (r: String)
        ensures
            r@ == api_message_of(*self),
    {
        match self {
            ApiError::NotFound(m) => m.clone(),
            ApiError::BadRequest(m) => m.clone(),
            ApiError::Unauthorized(m) => m.clone(),
            ApiError::Forbidden(m) => m.clone(),
            ApiError::Conflict(m) => m.clone(),
            ApiError::Internal(m) => m.clone(),
        }
    }

    /// The JSON body of the error response: `{"error": <message>}`.
    pub fn body(&self) -> (r: JsonValue)
        ensures
            r is Object,
            r->Object_0.len() == 1,
            r->Object_0@[0].0@ == "error"@,
            r->Object_0@[0].1 is String,
            r->Object_0@[0].1->String_0@ == api_message_of(*self),
    {
        let mut ms: Vec<(String, JsonValue)> = Vec::new();
        ms.push((owned("error"), JsonValue::String(self.message())));
        JsonValue::Object(ms)
    }

    /// The API error for a core error: the matching kind with the bare
    /// message, and an internal error with the full message otherwise.
    pub fn from_core(err: Error) -> (r: ApiError)
        ensures
            match err {
                Error::NotFound(m) => r == ApiError::NotFound(m),
                Error::InvalidInput(m) => r == ApiError::BadRequest(m),
                Error::Unauthorized(m) => r == ApiError::Unauthorized(m),
                Error::Forbidden(m) => r == ApiError::Forbidden(m),
                Error::Conflict(m) => r == ApiError::Conflict(m),
                _ => r matches ApiError::Internal(m) && m@ == error_text(err),
            },
    {
        match err {
            Error::NotFound(m) => ApiError::NotFound(m),
            Error::InvalidInput(m) => ApiError::BadRequest(m),
            Error::Unauthorized(m) => ApiError::Unauthorized(m),
            Error::Forbidden(m) => ApiError::Forbidden(m),
            Error::Conflict(m) => ApiError::Conflict(m),
            _ => {
                let t = err.message();
                ApiError::Internal(t)
            },
        }
    }
}

/// The status that a core error is answered with: its own kind's status, or 500.
pub proof fn lemma_core_error_status(err: Error, r: ApiError)
    requires
        match err {
            Error::NotFound(m) => r == ApiError::NotFound(m),
            Error::InvalidInput(m) => r == ApiError::BadRequest(m),
            Error::Unauthorized(m) => r == ApiError::Unauthorized(m),
            Error::Forbidden(m) => r == ApiError::Forbidden(m),
            Error::Conflict(m) => r == ApiError::Conflict(m),
            _ => r matches ApiError::Internal(m) && m@ == error_text(err),
        },
    ensures
        api_status_of(r) == match err {
            Error::NotFound(_) => 404u16,
            Error::InvalidInput(_) => 400u16,
            Error::Unauthorized(_) => 401u16,
            Error::Forbidden(_) => 403u16,
            Error::Conflict(_) => 409u16,
            _ => 500u16,
        },
{
}

} // verus!
