//! The versioned wire protocol: request and response envelopes, structured
//! errors, and the plain protocol types that the library's logic reads.

use vstd::prelude::*;
use crate::random::{is_random_uuid, new_random_id};
use crate::text::str_equals;

verus! {

/// The protocol version this build speaks.
pub const PROTOCOL_VERSION: &'static str = "0.9";

/// An error as a client sees it: a stable code, a message, and whether
/// retrying may help.
#[derive(Debug, Clone, PartialEq, Eq)]
pub struct StructuredError {
    pub code: String,
    pub message: String,
    pub retryable: bool,
}

/// The code of a version mismatch.
pub open spec fn unsupported_version_code() -> Seq<char> {
    "unsupported_protocol_version"@
}

/// The message of a version mismatch.
pub open spec fn unsupported_version_message(version: Seq<char>) -> Seq<char> {
    "protocol version "@ + version + " is unsupported"@
}

impl StructuredError {
    /// The error for a request in a protocol version this build does not
    /// speak; retrying will not help.
    pub fn unsupported_version(version: &str) -> (e: StructuredError)
        ensures
            e.code@ == unsupported_version_code(),
            e.message@ == unsupported_version_message(version@),
            !e.retryable,
    {
        let mut message = String::from_str("protocol version ");
        message.append(version);
        message.append(" is unsupported");
        StructuredError {
            code: String::from_str("unsupported_protocol_version"),
            message,
            retryable: false,
        }
    }
}

/// The outcome of a command: its value or a structured error.
#[derive(Debug, Clone, PartialEq, Eq)]
pub enum CommandResult<T> {
    Success(T),
    Error(StructuredError),
}

/// A request: the protocol version, a request identifier, and the payload.
#[derive(Debug, Clone, PartialEq, Eq)]
pub struct Envelope<T> {
    pub version: String,
    pub request_id: u128,
    pub payload: T,
}

impl<T> Envelope<T> {
    /// A request in this build's protocol version under the identifier
    /// `request_id`.
    pub fn with_request_id(request_id: u128, payload: T) -> (e: Envelope<T>)
        ensures
            e.version@ == PROTOCOL_VERSION@,
            e.request_id == request_id,
            e.payload == payload,
    {
        Envelope { version: PROTOCOL_VERSION.to_owned(), request_id, payload }
    }

    /// A request in this build's protocol version under a fresh random
    /// (version 4) identifier, or `None` when the source of randomness
    /// failed.
    pub fn new(payload: T) -> (r: Option<Envelope<T>>)
        ensures
            r matches Some(e) ==> e.version@ == PROTOCOL_VERSION@ && e.payload == payload
                && is_random_uuid(e.request_id),
    {
        match new_random_id() {
            Some(request_id) => Some(Envelope::with_request_id(request_id, payload)),
            None => None,
        }
    }

    /// Accepts a request in this build's protocol version and refuses any
    /// other with the unsupported-version error.
    pub fn validate_version(&self) -> (r: Result<(), StructuredError>)
        ensures
            r is Ok <==> self.version@ == PROTOCOL_VERSION@,
            r is Err ==> ({
                let e = r->Err_0;
                &&& e.code@ == unsupported_version_code()
                &&& e.message@ == unsupported_version_message(self.version@)
                &&& !e.retryable
            }),
    {
        if str_equals(self.version.as_str(), PROTOCOL_VERSION) {
            return Ok(());
        }
        Err(StructuredError::unsupported_version(self.version.as_str()))
    }
}

/// A response: the protocol version, the identifier of the request it
/// answers, and the command's outcome.
#[derive(Debug, Clone, PartialEq, Eq)]
pub struct ResponseEnvelope<T> {
    pub version: String,
    pub request_id: u128,
    pub result: CommandResult<T>,
}

impl<T> ResponseEnvelope<T> {
    /// A successful response to request `request_id`.
    pub fn success(request_id: u128, value: T) -> (r: ResponseEnvelope<T>)
        ensures
            r.version@ == PROTOCOL_VERSION@,
            r.request_id == request_id,
            r.result == CommandResult::<T>::Success(value),
    {
        ResponseEnvelope { version: PROTOCOL_VERSION.to_owned(), request_id, result: CommandResult::Success(value) }
    }

    /// A failed response to request `request_id`.
    pub fn error(request_id: u128, error: StructuredError) -> (r: ResponseEnvelope<T>)
        ensures
            r.version@ == PROTOCOL_VERSION@,
            r.request_id == request_id,
            r.result == CommandResult::<T>::Error(error),
    {
        ResponseEnvelope { version: PROTOCOL_VERSION.to_owned(), request_id, result: CommandResult::Error(error) }
    }
}

/// A member's role in a product workspace.
#[derive(Debug, Clone, Copy, PartialEq, Eq, Structural)]
pub enum ProductWorkspaceRole {
    Owner,
    Admin,
    Member,
    Guest,
}

/// The priority of a product ticket.
#[derive(Debug, Clone, Copy, PartialEq, Eq, Structural)]
pub enum ProductTicketPriority {
    Unprioritized,
    Urgent,
    High,
    Medium,
    Low,
}

/// A worker's periodic report of its protocol, capabilities and
/// repositories.
#[derive(Debug, Clone, PartialEq, Eq)]
pub struct WorkerHeartbeatRequest {
    pub protocol_version: String,
    pub capabilities: Vec<String>,
    pub repository_identities: Vec<String>,
    pub draining: bool,
}

} // verus!
