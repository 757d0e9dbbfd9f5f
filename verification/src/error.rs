//! What can go wrong between the session and its adapter.

use vstd::prelude::*;

verus! {

/// A request failed or its answer could not be used. The operation in
/// flight is given up and the state it would have replaced stays.
#[derive(Copy, Clone, Debug, PartialEq, Eq, Structural)]
pub enum ProtocolError {
    /// The adapter answered a request with an error, or not at all.
    RequestFailed,
    /// The answer could not be read as what was asked for.
    MalformedResponse,
    /// A stack trace came back without a single frame.
    MissingStackFrame,
    /// A result was asked for while requests were still outstanding.
    Incomplete,
    /// The answer does not fit the machine: a depth or a count would
    /// leave the range of `usize`.
    LimitExceeded,
}

impl ProtocolError {
    /// The error in words.
    pub fn message(&self) -> (text: String)
        ensures
            text@ == (match *self {
                ProtocolError::RequestFailed => "request failed"@,
                ProtocolError::MalformedResponse => "malformed response"@,
                ProtocolError::MissingStackFrame => "missing stack frame"@,
                ProtocolError::Incomplete => "requests outstanding"@,
                ProtocolError::LimitExceeded => "limit exceeded"@,
            }),
    {
        match self {
            ProtocolError::RequestFailed => "request failed".to_string(),
            ProtocolError::MalformedResponse => "malformed response".to_string(),
            ProtocolError::MissingStackFrame => "missing stack frame".to_string(),
            ProtocolError::Incomplete => "requests outstanding".to_string(),
            ProtocolError::LimitExceeded => "limit exceeded".to_string(),
        }
    }
}

/// Something that the session was configured with, or that a frame
/// names, cannot be used. What depends on it is skipped; the rest goes on.
#[derive(Copy, Clone, Debug, PartialEq, Eq, Structural)]
pub enum ConfigurationError {
    /// The thread has no frame with the id that was asked for.
    UnknownFrame,
    /// The frame names no source that could be opened.
    NoSource,
}

impl ConfigurationError {
    /// The error in words.
    pub fn message(&self) -> (text: String)
        ensures
            text@ == (match *self {
                ConfigurationError::UnknownFrame => "unknown stack frame"@,
                ConfigurationError::NoSource => "no source to show"@,
            }),
    {
        match self {
            ConfigurationError::UnknownFrame => "unknown stack frame".to_string(),
            ConfigurationError::NoSource => "no source to show".to_string(),
        }
    }
}

/// The adapter did not do its part in being taken down. Its process is
/// ended for it, and the host goes on.
#[derive(Copy, Clone, Debug, PartialEq, Eq, Structural)]
pub enum LifecycleError {
    /// The adapter had not exited when the grace period was over.
    ExitTimedOut,
}

impl LifecycleError {
    /// The error in words.
    pub fn message(&self) -> (text: String)
        ensures
            text@ == "adapter did not exit in time"@,
    {
        "adapter did not exit in time".to_string()
    }
}

} // verus!
