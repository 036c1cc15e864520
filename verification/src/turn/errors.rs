//! Errors of the TURN client.
use crate::stun::errors::StunError;
use crate::text::{decimal, decimal_chars, push_chars, string_from_str};
use vstd::prelude::*;
use vstd::string::*;

verus! {

/// Errors that can occur during TURN operations.
#[derive(Debug)]
pub enum TurnError {
    /// IO error during socket operations
    Io(std::io::Error),
    /// STUN error from underlying STUN layer
    Stun(StunError),
    /// Allocation request failed
    AllocationFailed(String),
    /// Permission creation failed
    PermissionFailed(String),
    /// Channel bind failed
    ChannelBindFailed(String),
    /// Refresh failed
    RefreshFailed(String),
    /// Invalid response from server
    InvalidResponse,
    /// Authentication failed
    AuthenticationFailed,
    /// No allocation exists
    NoAllocation,
    /// Invalid credentials
    InvalidCredentials,
    /// Server returned an error code and reason
    ServerError(u16, String),
    /// Allocation quota reached on server
    AllocationQuotaReached,
    /// Insufficient capacity on server
    InsufficientCapacity,
    /// Unsupported transport protocol
    UnsupportedTransport,
    /// Timeout waiting for response
    Timeout,
    /// Invalid message format
    InvalidMessage(String),
    /// Attribute parsing error
    AttributeError(String),
}

/// std's `Display` for an I/O error: the error's text. Nothing is stated of it.
#[verifier::external_body]
fn io_error_text(e: &std::io::Error) -> (s: String) {
    e.to_string()
}

impl TurnError {
    /// The text of the error, for every variant whose text this library writes
    /// itself (all but `Io`, whose text comes from the I/O error).
    pub open spec fn message_text(&self) -> Option<Seq<char>> {
        match self {
            TurnError::Io(_) => None,
            TurnError::Stun(e) => Some("STUN error: "@ + e.message_text()),
            TurnError::AllocationFailed(m) => Some("Allocation failed: "@ + m@),
            TurnError::PermissionFailed(m) => Some("Permission creation failed: "@ + m@),
            TurnError::ChannelBindFailed(m) => Some("Channel bind failed: "@ + m@),
            TurnError::RefreshFailed(m) => Some("Refresh failed: "@ + m@),
            TurnError::InvalidResponse => Some("Invalid response from TURN server"@),
            TurnError::AuthenticationFailed => Some("Authentication failed"@),
            TurnError::NoAllocation => Some("No allocation exists"@),
            TurnError::InvalidCredentials => Some("Invalid credentials"@),
            TurnError::ServerError(code, reason) => Some(
                "Server error "@ + decimal(*code as nat) + ": "@ + reason@,
            ),
            TurnError::AllocationQuotaReached => Some("Allocation quota reached on TURN server"@),
            TurnError::InsufficientCapacity => Some("TURN server has insufficient capacity"@),
            TurnError::UnsupportedTransport => Some("Unsupported transport protocol"@),
            TurnError::Timeout => Some("Timeout waiting for response"@),
            TurnError::InvalidMessage(m) => Some("Invalid message: "@ + m@),
            TurnError::AttributeError(m) => Some("Attribute error: "@ + m@),
        }
    }

    /// Renders the error as text.
    pub fn to_string(&self) -> (s: String)
        ensures
            self.message_text() matches Some(t) ==> s@ == t,
            self is Io ==> s@.subrange(0, 10) == "IO error: "@,
    {
        match self {
            TurnError::Io(e) => {
                let mut s = string_from_str("IO error: ");
                proof {
                    reveal_strlit("IO error: ");
                }
                let text = io_error_text(e);
                s.append(text.as_str());
                s
            },
            TurnError::Stun(e) => {
                let mut s = string_from_str("STUN error: ");
                let inner = e.to_string();
                s.append(inner.as_str());
                s
            },
            TurnError::AllocationFailed(m) => {
                let mut s = string_from_str("Allocation failed: ");
                s.append(m.as_str());
                s
            },
            TurnError::PermissionFailed(m) => {
                let mut s = string_from_str("Permission creation failed: ");
                s.append(m.as_str());
                s
            },
            TurnError::ChannelBindFailed(m) => {
                let mut s = string_from_str("Channel bind failed: ");
                s.append(m.as_str());
                s
            },
            TurnError::RefreshFailed(m) => {
                let mut s = string_from_str("Refresh failed: ");
                s.append(m.as_str());
                s
            },
            TurnError::InvalidResponse => string_from_str("Invalid response from TURN server"),
            TurnError::AuthenticationFailed => string_from_str("Authentication failed"),
            TurnError::NoAllocation => string_from_str("No allocation exists"),
            TurnError::InvalidCredentials => string_from_str("Invalid credentials"),
            TurnError::ServerError(code, reason) => {
                let mut s = string_from_str("Server error ");
                let digits = decimal_chars(*code as u64);
                push_chars(&mut s, digits.as_slice());
                s.append(": ");
                s.append(reason.as_str());
                s
            },
            TurnError::AllocationQuotaReached => string_from_str(
                "Allocation quota reached on TURN server",
            ),
            TurnError::InsufficientCapacity => string_from_str(
                "TURN server has insufficient capacity",
            ),
            TurnError::UnsupportedTransport => string_from_str("Unsupported transport protocol"),
            TurnError::Timeout => string_from_str("Timeout waiting for response"),
            TurnError::InvalidMessage(m) => {
                let mut s = string_from_str("Invalid message: ");
                s.append(m.as_str());
                s
            },
            TurnError::AttributeError(m) => {
                let mut s = string_from_str("Attribute error: ");
                s.append(m.as_str());
                s
            },
        }
    }
}

impl From<std::io::Error> for TurnError {
    fn from(err: std::io::Error) -> (r: TurnError)
        ensures
            r == TurnError::Io(err),
    {
        TurnError::Io(err)
    }
}

impl vstd::std_specs::convert::FromSpecImpl<std::io::Error> for TurnError {
    open spec fn obeys_from_spec() -> bool {
        true
    }

    open spec fn from_spec(v: std::io::Error) -> TurnError {
        TurnError::Io(v)
    }
}

impl From<StunError> for TurnError {
    fn from(err: StunError) -> (r: TurnError)
        ensures
            r == TurnError::Stun(err),
    {
        TurnError::Stun(err)
    }
}

impl vstd::std_specs::convert::FromSpecImpl<StunError> for TurnError {
    open spec fn obeys_from_spec() -> bool {
        true
    }

    open spec fn from_spec(v: StunError) -> TurnError {
        TurnError::Stun(v)
    }
}

} // verus!
