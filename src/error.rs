use vstd::prelude::*;

verus! {

/// The failures that the library's operations report.
#[derive(Debug, Clone)]
pub enum Circle9Error {
    /// A credential was missing or rejected by the remote side.
    AuthenticationError(String),
    /// A network-level failure: connect, handshake or channel I/O.
    TransportError(String),
    /// A bounded operation exceeded its deadline.
    Timeout,
    /// The metadata or contents of a transfer source could not be read.
    SourceUnavailable(String),
    /// A lock guarding shared state was found poisoned.
    MutexPoisoned,
    /// An operation was requested on a task in an incompatible state.
    InvalidStateTransition(String),
    /// A path was rejected.
    InvalidPath(String),
    /// A file transfer failed.
    TransferError(String),
}

impl Circle9Error {
    /// The human-readable message of an error.
    pub open spec fn message_of(&self) -> Seq<char> {
        match self {
            Circle9Error::AuthenticationError(d) => "Authentication failed: "@ + d@,
            Circle9Error::TransportError(d) => "Transport error: "@ + d@,
            Circle9Error::SourceUnavailable(d) => "Source unavailable: "@ + d@,
            Circle9Error::InvalidStateTransition(d) => "Invalid state transition: "@ + d@,
            Circle9Error::InvalidPath(d) => "Invalid path: "@ + d@,
            Circle9Error::TransferError(d) => "File transfer failed: "@ + d@,
            Circle9Error::Timeout => "Operation timeout"@,
            Circle9Error::MutexPoisoned => "Mutex poisoned"@,
        }
    }

    /// The human-readable message of this error.
    pub fn message(&self) -> (r: String)
        ensures
            r@ == self.message_of(),
    {
        match self {
            Circle9Error::AuthenticationError(d) => {
                let mut s = String::from_str("Authentication failed: ");
                s.append(d.as_str());
                s
            },
            Circle9Error::TransportError(d) => {
                let mut s = String::from_str("Transport error: ");
                s.append(d.as_str());
                s
            },
            Circle9Error::SourceUnavailable(d) => {
                let mut s = String::from_str("Source unavailable: ");
                s.append(d.as_str());
                s
            },
            Circle9Error::InvalidStateTransition(d) => {
                let mut s = String::from_str("Invalid state transition: ");
                s.append(d.as_str());
                s
            },
            Circle9Error::InvalidPath(d) => {
                let mut s = String::from_str("Invalid path: ");
                s.append(d.as_str());
                s
            },
            Circle9Error::TransferError(d) => {
                let mut s = String::from_str("File transfer failed: ");
                s.append(d.as_str());
                s
            },
            Circle9Error::Timeout => String::from_str("Operation timeout"),
            Circle9Error::MutexPoisoned => String::from_str("Mutex poisoned"),
        }
    }
}

} // verus!
