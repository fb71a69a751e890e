//! The tagged error union shared by every service layer, and its translation
//! into the stable, externally visible error shape of the API boundary.
//!
//! Internal storage detail is redacted at the boundary: a `DatabaseError` or
//! `InternalServerError` keeps its detail in the service-side value but the
//! public message is a fixed phrase.

use vstd::prelude::*;
use vstd::string::*;

verus! {

/// Internal failure taxonomy.  Each variant carries a human-readable detail
/// string; `AuthenticationError` and `AuthorizationError` are reserved for an
/// auth collaborator and are never produced by the current logic.
#[derive(Debug)]
pub enum ServiceError {
    NotFound(String),
    InvalidId(String),
    ValidationError(String),
    DatabaseError(String),
    AuthenticationError(String),
    AuthorizationError(String),
    InternalServerError(String),
}

/// The externally visible error: a machine-readable code plus a message that
/// never leaks raw storage detail.
pub struct GraphQLError {
    pub message: String,
    pub code: String,
}

/// The machine-readable code assigned to each error kind.
pub open spec fn error_code(e: ServiceError) -> Seq<char> {
    match e {
        ServiceError::NotFound(_) => "NOT_FOUND"@,
        ServiceError::InvalidId(_) => "INVALID_ID"@,
        ServiceError::ValidationError(_) => "VALIDATION_ERROR"@,
        ServiceError::DatabaseError(_) => "DATABASE_ERROR"@,
        ServiceError::AuthenticationError(_) => "AUTHENTICATION_ERROR"@,
        ServiceError::AuthorizationError(_) => "AUTHORIZATION_ERROR"@,
        ServiceError::InternalServerError(_) => "INTERNAL_SERVER_ERROR"@,
    }
}

/// The message shown to API clients.  Storage and internal failures are
/// replaced by a fixed phrase; the other kinds pass their detail through.
pub open spec fn public_message(e: ServiceError) -> Seq<char> {
    match e {
        ServiceError::NotFound(msg) => msg@,
        ServiceError::InvalidId(id) => "Invalid ID: "@ + id@,
        ServiceError::ValidationError(msg) => msg@,
        ServiceError::DatabaseError(_) => "Database error occurred"@,
        ServiceError::AuthenticationError(msg) => msg@,
        ServiceError::AuthorizationError(msg) => msg@,
        ServiceError::InternalServerError(_) => "Internal server error"@,
    }
}

/// The full service-side rendering, detail included.
pub open spec fn display_message(e: ServiceError) -> Seq<char> {
    match e {
        ServiceError::NotFound(msg) => "Not found: "@ + msg@,
        ServiceError::InvalidId(id) => "Invalid ID: "@ + id@,
        ServiceError::ValidationError(msg) => "Validation error: "@ + msg@,
        ServiceError::DatabaseError(msg) => "Database error: "@ + msg@,
        ServiceError::AuthenticationError(msg) => "Authentication error: "@ + msg@,
        ServiceError::AuthorizationError(msg) => "Authorization error: "@ + msg@,
        ServiceError::InternalServerError(msg) => "Internal server error: "@ + msg@,
    }
}

impl ServiceError {
    /// Server-side log line for this error, detail included.
    pub fn message(&self) -> (r: String)
        ensures
            r@ == display_message(*self),
    {
        match self {
            ServiceError::NotFound(msg) => "Not found: ".to_owned().concat(msg.as_str()),
            ServiceError::InvalidId(id) => "Invalid ID: ".to_owned().concat(id.as_str()),
            ServiceError::ValidationError(msg) => "Validation error: ".to_owned().concat(
                msg.as_str(),
            ),
            ServiceError::DatabaseError(msg) => "Database error: ".to_owned().concat(msg.as_str()),
            ServiceError::AuthenticationError(msg) => "Authentication error: ".to_owned().concat(
                msg.as_str(),
            ),
            ServiceError::AuthorizationError(msg) => "Authorization error: ".to_owned().concat(
                msg.as_str(),
            ),
            ServiceError::InternalServerError(msg) => "Internal server error: ".to_owned().concat(
                msg.as_str(),
            ),
        }
    }

    /// Translate to the stable boundary error: the code identifies the kind,
    /// and storage/internal detail is redacted from the public message.
    pub fn to_graphql_error(&self) -> (r: GraphQLError)
        ensures
            r.code@ == error_code(*self),
            r.message@ == public_message(*self),
    {
        match self {
            ServiceError::NotFound(msg) => GraphQLError {
                message: msg.clone(),
                code: "NOT_FOUND".to_owned(),
            },
            ServiceError::InvalidId(id) => GraphQLError {
                message: "Invalid ID: ".to_owned().concat(id.as_str()),
                code: "INVALID_ID".to_owned(),
            },
            ServiceError::ValidationError(msg) => GraphQLError {
                message: msg.clone(),
                code: "VALIDATION_ERROR".to_owned(),
            },
            ServiceError::DatabaseError(_) => GraphQLError {
                message: "Database error occurred".to_owned(),
                code: "DATABASE_ERROR".to_owned(),
            },
            ServiceError::AuthenticationError(msg) => GraphQLError {
                message: msg.clone(),
                code: "AUTHENTICATION_ERROR".to_owned(),
            },
            ServiceError::AuthorizationError(msg) => GraphQLError {
                message: msg.clone(),
                code: "AUTHORIZATION_ERROR".to_owned(),
            },
            ServiceError::InternalServerError(_) => GraphQLError {
                message: "Internal server error".to_owned(),
                code: "INTERNAL_SERVER_ERROR".to_owned(),
            },
        }
    }
}

impl Clone for ServiceError {
    fn clone(&self) -> (r: Self)
        ensures
            r == *self,
    {
        match self {
            ServiceError::NotFound(msg) => ServiceError::NotFound(msg.clone()),
            ServiceError::InvalidId(id) => ServiceError::InvalidId(id.clone()),
            ServiceError::ValidationError(msg) => ServiceError::ValidationError(msg.clone()),
            ServiceError::DatabaseError(msg) => ServiceError::DatabaseError(msg.clone()),
            ServiceError::AuthenticationError(msg) => ServiceError::AuthenticationError(
                msg.clone(),
            ),
            ServiceError::AuthorizationError(msg) => ServiceError::AuthorizationError(msg.clone()),
            ServiceError::InternalServerError(msg) => ServiceError::InternalServerError(
                msg.clone(),
            ),
        }
    }
}

} // verus!
