//! Error taxonomy of the authentication core.

use vstd::prelude::*;

verus! {

/// Failure kinds surfaced by the authentication and authorization layer.
///
/// `Unauthorized` covers every bad, missing or expired credential,
/// session or permission; `Forbidden` marks a request that passed
/// authentication but misses a required second step; `BadRequest`
/// marks malformed client input; `CryptoError` a failing cryptographic
/// primitive; `InternalServerError` everything else.
#[derive(Clone, Debug)]
pub enum ApplicationError {
    Unauthorized,
    BadRequest(String),
    Forbidden(String),
    CryptoError,
    InternalServerError,
}

impl ApplicationError {
    /// The HTTP status code the error maps to at the route boundary.
    pub open spec fn spec_status_code(&self) -> u16 {
        match self {
            ApplicationError::Unauthorized => 401,
            ApplicationError::BadRequest(_) => 400,
            ApplicationError::Forbidden(_) => 403,
            ApplicationError::CryptoError => 500,
            ApplicationError::InternalServerError => 500,
        }
    }

    /// Maps the error onto the HTTP status code rendered to the client.
    pub fn status_code(&self) -> (code: u16)
        ensures
            code == self.spec_status_code(),
    {
        match self {
            ApplicationError::Unauthorized => 401,
            ApplicationError::BadRequest(_) => 400,
            ApplicationError::Forbidden(_) => 403,
            ApplicationError::CryptoError => 500,
            ApplicationError::InternalServerError => 500,
        }
    }

    /// The message rendered in the uniform JSON error body.  Server-side
    /// failures surface only a generic message to the client.
    pub fn message(&self) -> (msg: String)
        ensures
            self is Unauthorized ==> msg@ == "Unauthorized"@,
            self matches ApplicationError::BadRequest(m) ==> msg@ == m@,
            self matches ApplicationError::Forbidden(m) ==> msg@ == m@,
            (self is CryptoError || self is InternalServerError) ==> msg@
                == "Error occurred while processing the request"@,
    {
        match self {
            ApplicationError::Unauthorized => "Unauthorized".to_owned(),
            ApplicationError::BadRequest(m) => m.clone(),
            ApplicationError::Forbidden(m) => m.clone(),
            ApplicationError::CryptoError => "Error occurred while processing the request".to_owned(),
            ApplicationError::InternalServerError => "Error occurred while processing the request".to_owned(),
        }
    }
}

/// The uniform JSON error body rendered to clients.
pub struct ApplicationErrorResponse {
    pub error: String,
}

impl ApplicationErrorResponse {
    /// Wraps an error message for the response body.
    pub fn new(error: &ApplicationError) -> (r: ApplicationErrorResponse)
        ensures
            error is Unauthorized ==> r.error@ == "Unauthorized"@,
    {
        ApplicationErrorResponse { error: error.message() }
    }
}

} // verus!
