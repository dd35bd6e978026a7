//! The error taxonomy of the orchestrator: validation failures, missing
//! records, state-machine violations, remote failures, database failures
//! and startup misconfiguration, together with the HTTP status each one
//! surfaces as.

use vstd::prelude::*;

verus! {

/// An error of the deployment core.  `Remote` and `Database` carry the
/// upstream message for the operator log; state-machine violations carry
/// no payload except `AlreadyDeployed`, which names the public id of the
/// row that already occupies the slot.
#[derive(Debug, Clone)]
pub enum Error {
    Validation { message: String },
    NotFound,
    AlreadyDeployed { public_id: String },
    AlreadyDestroyed,
    NotYetDeployed,
    Remote { message: String },
    Database { message: String },
    Misconfiguration { message: String },
}

impl Error {
    /// The HTTP status this error surfaces as: validation is a 400,
    /// a missing record a 404, a state-machine violation a 409, and
    /// remote, database and configuration failures a 500.
    pub open spec fn spec_status_code(&self) -> u16 {
        match self {
            Error::Validation { .. } => 400,
            Error::NotFound => 404,
            Error::AlreadyDeployed { .. } => 409,
            Error::AlreadyDestroyed => 409,
            Error::NotYetDeployed => 409,
            Error::Remote { .. } => 500,
            Error::Database { .. } => 500,
            Error::Misconfiguration { .. } => 500,
        }
    }

    pub fn status_code(&self) -> (code: u16)
        ensures
            code == self.spec_status_code(),
    {
        match self {
            Error::Validation { .. } => 400,
            Error::NotFound => 404,
            Error::AlreadyDeployed { .. } => 409,
            Error::AlreadyDestroyed => 409,
            Error::NotYetDeployed => 409,
            Error::Remote { .. } => 500,
            Error::Database { .. } => 500,
            Error::Misconfiguration { .. } => 500,
        }
    }

    /// The short machine-readable name of the error kind.
    pub open spec fn spec_kind(&self) -> Seq<char> {
        match self {
            Error::Validation { .. } => "validation_error"@,
            Error::NotFound => "not_found"@,
            Error::AlreadyDeployed { .. } => "already_deployed"@,
            Error::AlreadyDestroyed => "already_destroyed"@,
            Error::NotYetDeployed => "not_yet_deployed"@,
            Error::Remote { .. } => "remote_error"@,
            Error::Database { .. } => "database_error"@,
            Error::Misconfiguration { .. } => "misconfiguration"@,
        }
    }

    pub fn kind(&self) -> (s: String)
        ensures
            s@ == self.spec_kind(),
    {
        match self {
            Error::Validation { .. } => String::from_str("validation_error"),
            Error::NotFound => String::from_str("not_found"),
            Error::AlreadyDeployed { .. } => String::from_str("already_deployed"),
            Error::AlreadyDestroyed => String::from_str("already_destroyed"),
            Error::NotYetDeployed => String::from_str("not_yet_deployed"),
            Error::Remote { .. } => String::from_str("remote_error"),
            Error::Database { .. } => String::from_str("database_error"),
            Error::Misconfiguration { .. } => String::from_str("misconfiguration"),
        }
    }
}

/// The JSON body every error surfaces as.
pub struct ErrorResponse {
    pub error: String,
    pub message: String,
}

/// Builds the wire shape of an error: the kind name and, for the variants
/// that carry one, the stored message; the others repeat the kind name as
/// the message.
pub fn error_response(e: &Error) -> (r: ErrorResponse)
    ensures
        r.error@ == e.spec_kind(),
        match e {
            Error::Validation { message } => r.message@ == message@,
            Error::Remote { message } => r.message@ == message@,
            Error::Database { message } => r.message@ == message@,
            Error::Misconfiguration { message } => r.message@ == message@,
            _ => r.message@ == e.spec_kind(),
        },
{
    let message = match e {
        Error::Validation { message } => message.clone(),
        Error::Remote { message } => message.clone(),
        Error::Database { message } => message.clone(),
        Error::Misconfiguration { message } => message.clone(),
        _ => e.kind(),
    };
    ErrorResponse { error: e.kind(), message }
}

} // verus!
