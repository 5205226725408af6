//! The failure taxonomy shared by every stage.

use vstd::prelude::*;

verus! {

/// Why a response body could not be turned into entities.
#[derive(Clone, Copy, Debug, PartialEq, Eq, Structural)]
pub enum ParseError {
    /// The body is not a JSON document.
    Syntax,
    /// The document lacks a member the shape requires, or holds it with
    /// another type.
    Shape,
    /// An identifier does not start with the configured prefix, or nothing
    /// follows the prefix.
    Identifier,
    /// A display name that serves as a lookup key is empty.
    EmptyName,
    /// Two countries of one response carry the same identifier.
    DuplicateIdentifier,
}

/// Why one fetch produced no value.
#[derive(Clone, Copy, Debug, PartialEq, Eq, Structural)]
pub enum FetchError {
    /// The transport gave up waiting.  The only retryable failure.
    Timeout,
    /// The transport failed for another reason.
    Transport,
    /// The server answered with a non-success status.
    HttpStatus(u16),
    /// The body arrived but could not be read.
    Parse(ParseError),
}

/// Why a batch did not reach the sink.
#[derive(Clone, Copy, Debug, PartialEq, Eq, Structural)]
pub enum SinkError {
    /// A row could not be encoded.
    Encode,
    /// The sink refused the bytes.
    Write,
}

impl FetchError {
    /// The failure that a transport reports when it says whether it timed
    /// out and which status, if any, the server answered with.  A timeout
    /// counts as a timeout whatever else is known.
    pub open spec fn of_transport(timed_out: bool, status: Option<u16>) -> FetchError {
        if timed_out {
            FetchError::Timeout
        } else {
            match status {
                Some(code) => FetchError::HttpStatus(code),
                None => FetchError::Transport,
            }
        }
    }

    /// Classifies a transport failure.
    pub fn from_transport(timed_out: bool, status: Option<u16>) -> (e: FetchError)
        ensures
            e == FetchError::of_transport(timed_out, status),
    {
        if timed_out {
            FetchError::Timeout
        } else {
            match status {
                Some(code) => FetchError::HttpStatus(code),
                None => FetchError::Transport,
            }
        }
    }

    /// Whether a retry may cure this failure.
    pub open spec fn spec_is_transient(self) -> bool {
        self is Timeout
    }

    /// Whether a retry may cure this failure: true for `Timeout` alone.
    #[verifier::when_used_as_spec(spec_is_transient)]
    pub fn is_transient(self) -> (b: bool)
        ensures
            b == (self is Timeout),
    {
        match self {
            FetchError::Timeout => true,
            _ => false,
        }
    }
}

} // verus!
