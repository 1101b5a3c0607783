//! The failures that the host-facing operations report.

use vstd::prelude::*;

verus! {

/// Why an operation could not be carried out.
#[derive(Clone, Copy, Debug, PartialEq, Eq, Structural)]
pub enum Error {
    /// The operation named a handle that the registry does not hold in the
    /// phase the operation needs.
    UnknownHandle,
    /// A header payload was not a flat JSON object of strings.
    MalformedInput,
    /// A header name is not a valid field name on the wire.
    InvalidHeaderName,
    /// A header value holds a byte that may not travel in a field value.
    InvalidHeaderValue,
    /// The transport failed: no connection, no name resolution, a timeout.
    TransportError,
    /// A launch was attempted while the background runtime is stopped.
    RuntimeNotStarted,
}

impl Error {
    /// The text shown to the host for this failure.
    pub open spec fn spec_message(self) -> Seq<char> {
        match self {
            Error::UnknownHandle => "unknown request handle"@,
            Error::MalformedInput => "headers are not a JSON object of strings"@,
            Error::InvalidHeaderName => "invalid header name"@,
            Error::InvalidHeaderValue => "invalid header value"@,
            Error::TransportError => "transport failure"@,
            Error::RuntimeNotStarted => "background runtime is not running"@,
        }
    }

    /// The text shown to the host for this failure.
    pub fn message(&self) -> (text: String)
        ensures
            text@ == self.spec_message(),
    {
        match self {
            Error::UnknownHandle => "unknown request handle".to_owned(),
            Error::MalformedInput => "headers are not a JSON object of strings".to_owned(),
            Error::InvalidHeaderName => "invalid header name".to_owned(),
            Error::InvalidHeaderValue => "invalid header value".to_owned(),
            Error::TransportError => "transport failure".to_owned(),
            Error::RuntimeNotStarted => "background runtime is not running".to_owned(),
        }
    }
}

} // verus!
