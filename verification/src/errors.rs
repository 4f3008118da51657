//! The failures that the services report, and what a client is told of each.

use vstd::prelude::*;

verus! {

/// Why a service call failed.
#[derive(Debug)]
pub enum ServiceError {
    /// Something went wrong that the caller cannot mend.
    InternalServerError,
    /// The request itself was malformed.
    BadRequest(String),
    /// The caller is not signed in.
    Unauthorized,
    /// No connection to the database could be had.
    DatabaseConnectionError,
    /// The database refused or failed a statement. The text is for the log,
    /// not for the client.
    DatabaseError(String),
    /// The request breaks a rule of the business, such as ordering an empty
    /// cart.
    ValidationError(String),
    /// The entity does not exist, or is not the caller's to see.
    NotFound,
}

/// The body of an error reply.
#[derive(Debug)]
pub struct ErrorResponse {
    pub message: String,
    pub status: String,
    pub error_code: Option<String>,
}

/// Joins two texts.
pub(crate) fn concat(head: &str, tail: &str) -> (r: String)
    ensures
        r@ == head@ + tail@,
{
    head.to_owned().concat(tail)
}

impl ServiceError {
    /// The text that names this error.
    pub open spec fn spec_message(&self) -> Seq<char> {
        match self {
            ServiceError::InternalServerError => "Internal server error"@,
            ServiceError::BadRequest(msg) => "Bad request: "@ + msg@,
            ServiceError::Unauthorized => "Unauthorized"@,
            ServiceError::DatabaseConnectionError => "Could not connect to database"@,
            ServiceError::DatabaseError(msg) => "Database error: "@ + msg@,
            ServiceError::ValidationError(msg) => "Validation error: "@ + msg@,
            ServiceError::NotFound => "Resource not found"@,
        }
    }

    /// The HTTP status that stands for this error.
    pub open spec fn spec_status_code(&self) -> u16 {
        match self {
            ServiceError::InternalServerError => 500,
            ServiceError::BadRequest(_) => 400,
            ServiceError::Unauthorized => 401,
            ServiceError::DatabaseConnectionError => 503,
            ServiceError::DatabaseError(_) => 500,
            ServiceError::ValidationError(_) => 400,
            ServiceError::NotFound => 404,
        }
    }

    /// The message that a client is shown. What a database said stays out of
    /// it.
    pub open spec fn spec_client_message(&self) -> Seq<char> {
        match self {
            ServiceError::BadRequest(msg) => msg@,
            ServiceError::ValidationError(msg) => msg@,
            ServiceError::DatabaseConnectionError => "Database service is currently unavailable"@,
            ServiceError::DatabaseError(_) => "An error occurred while processing your request"@,
            _ => self.spec_message(),
        }
    }

    /// The short code of this error in a reply.
    pub open spec fn spec_error_code(&self) -> Seq<char> {
        match self {
            ServiceError::InternalServerError => "internal_server_error"@,
            ServiceError::BadRequest(_) => "bad_request"@,
            ServiceError::Unauthorized => "unauthorized"@,
            ServiceError::DatabaseConnectionError => "database_unavailable"@,
            ServiceError::DatabaseError(_) => "database_error"@,
            ServiceError::ValidationError(_) => "validation_error"@,
            ServiceError::NotFound => "not_found"@,
        }
    }

    /// The text that names this error.
    pub fn message(&self) -> (r: String)
        ensures
            r@ == self.spec_message(),
    {
        match self {
            ServiceError::InternalServerError => "Internal server error".to_owned(),
            ServiceError::BadRequest(msg) => concat("Bad request: ", msg.as_str()),
            ServiceError::Unauthorized => "Unauthorized".to_owned(),
            ServiceError::DatabaseConnectionError => "Could not connect to database".to_owned(),
            ServiceError::DatabaseError(msg) => concat("Database error: ", msg.as_str()),
            ServiceError::ValidationError(msg) => concat("Validation error: ", msg.as_str()),
            ServiceError::NotFound => "Resource not found".to_owned(),
        }
    }

    /// The HTTP status that stands for this error.
    pub fn status_code(&self) -> (r: u16)
        ensures
            r == self.spec_status_code(),
    {
        match self {
            ServiceError::InternalServerError => 500,
            ServiceError::BadRequest(_) => 400,
            ServiceError::Unauthorized => 401,
            ServiceError::DatabaseConnectionError => 503,
            ServiceError::DatabaseError(_) => 500,
            ServiceError::ValidationError(_) => 400,
            ServiceError::NotFound => 404,
        }
    }

    /// The body of the reply for this error.
    pub fn error_response(&self) -> (r: ErrorResponse)
        ensures
            r.message@ == self.spec_client_message(),
            r.status@ == "error"@,
            r.error_code matches Some(code) && code@ == self.spec_error_code(),
    {
        let (message, code) = match self {
            ServiceError::InternalServerError => (self.message(), "internal_server_error"),
            ServiceError::BadRequest(msg) => (msg.clone(), "bad_request"),
            ServiceError::Unauthorized => (self.message(), "unauthorized"),
            ServiceError::DatabaseConnectionError => (
                "Database service is currently unavailable".to_owned(),
                "database_unavailable",
            ),
            ServiceError::DatabaseError(_) => (
                "An error occurred while processing your request".to_owned(),
                "database_error",
            ),
            ServiceError::ValidationError(msg) => (msg.clone(), "validation_error"),
            ServiceError::NotFound => (self.message(), "not_found"),
        };
        ErrorResponse { message, status: "error".to_owned(), error_code: Some(code.to_owned()) }
    }
}

} // verus!
