//! Backend error kinds, their API error codes and HTTP status codes.

use vstd::prelude::*;

use crate::text::concat;

verus! {

broadcast use vstd::string::group_string_axioms;

/// Backend error.
#[derive(Debug)]
pub enum BackendError {
    ServerNotFound,
    TransportNotFound,
    Internal(String),
    Config(String),
    Io(String),
    /// A reserved protocol adapter that has no implementation yet.
    NotImplemented(String),
}

impl Clone for BackendError {
    fn clone(&self) -> (r: Self)
        ensures
            r == *self,
    {
        match self {
            BackendError::ServerNotFound => BackendError::ServerNotFound,
            BackendError::TransportNotFound => BackendError::TransportNotFound,
            BackendError::Internal(m) => BackendError::Internal(m.clone()),
            BackendError::Config(m) => BackendError::Config(m.clone()),
            BackendError::Io(m) => BackendError::Io(m.clone()),
            BackendError::NotImplemented(m) => BackendError::NotImplemented(m.clone()),
        }
    }
}

/// API error code of an error.
pub open spec fn error_code_of(e: BackendError) -> Seq<char> {
    match e {
        BackendError::ServerNotFound => "SERVER_NOT_FOUND"@,
        BackendError::TransportNotFound => "TRANSPORT_NOT_FOUND"@,
        BackendError::Internal(_) => "INTERNAL_ERROR"@,
        BackendError::Config(_) => "CONFIG_ERROR"@,
        BackendError::Io(_) => "INTERNAL_ERROR"@,
        BackendError::NotImplemented(_) => "NOT_IMPLEMENTED"@,
    }
}

/// HTTP status of an error.
pub open spec fn status_of(e: BackendError) -> u16 {
    match e {
        BackendError::ServerNotFound => 404,
        BackendError::TransportNotFound => 400,
        BackendError::Config(_) => 400,
        BackendError::Internal(_) => 500,
        BackendError::Io(_) => 500,
        BackendError::NotImplemented(_) => 501,
    }
}

/// Human-readable text of an error.
pub open spec fn message_of(e: BackendError) -> Seq<char> {
    match e {
        BackendError::ServerNotFound => "server not found"@,
        BackendError::TransportNotFound => "transport not found"@,
        BackendError::Internal(m) => "internal error: "@ + m@,
        BackendError::Config(m) => "config error: "@ + m@,
        BackendError::Io(m) => "io error: "@ + m@,
        BackendError::NotImplemented(m) => "not implemented: "@ + m@,
    }
}

impl BackendError {
    /// The API error code of this error.
    pub fn error_code(&self) -> (r: &'static str)
        ensures
            r@ == error_code_of(*self),
    {
        match self {
            BackendError::ServerNotFound => "SERVER_NOT_FOUND",
            BackendError::TransportNotFound => "TRANSPORT_NOT_FOUND",
            BackendError::Internal(_) => "INTERNAL_ERROR",
            BackendError::Config(_) => "CONFIG_ERROR",
            BackendError::Io(_) => "INTERNAL_ERROR",
            BackendError::NotImplemented(_) => "NOT_IMPLEMENTED",
        }
    }

    /// The HTTP status code of this error.
    pub fn status_code(&self) -> (r: u16)
        ensures
            r == status_of(*self),
    {
        match self {
            BackendError::ServerNotFound => 404,
            BackendError::TransportNotFound => 400,
            BackendError::Config(_) => 400,
            BackendError::Internal(_) | BackendError::Io(_) => 500,
            BackendError::NotImplemented(_) => 501,
        }
    }

    /// A "not implemented" error with the given explanation.
    pub fn not_implemented(msg: &str) -> (r: Self)
        ensures
            r matches BackendError::NotImplemented(m) && m@ == msg@,
    {
        BackendError::NotImplemented(msg.to_owned())
    }

    /// Human-readable text of this error.
    pub fn message(&self) -> (r: String)
        ensures
            r@ == message_of(*self),
    {
        match self {
            BackendError::ServerNotFound => "server not found".to_owned(),
            BackendError::TransportNotFound => "transport not found".to_owned(),
            BackendError::Internal(m) => concat("internal error: ", m.as_str()),
            BackendError::Config(m) => concat("config error: ", m.as_str()),
            BackendError::Io(m) => concat("io error: ", m.as_str()),
            BackendError::NotImplemented(m) => concat("not implemented: ", m.as_str()),
        }
    }
}

} // verus!
