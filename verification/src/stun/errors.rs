//! Errors of the STUN codecs and client.
use crate::text::{hex2, hex2_chars, hex4, hex4_chars, push_chars, string_from_str};
use vstd::prelude::*;
use vstd::string::*;

verus! {

/// Errors that can occur during STUN operations.
#[derive(Debug, Clone, PartialEq)]
pub enum StunError {
    /// Invalid message format
    InvalidMessageFormat,
    /// Invalid message type
    InvalidMessageType(u16),
    /// Invalid attribute type
    InvalidAttributeType(u16),
    /// Invalid magic cookie
    InvalidMagicCookie,
    /// Invalid transaction ID
    InvalidTransactionId,
    /// Invalid attribute format
    InvalidAttributeFormat,
    /// Invalid address family
    InvalidAddressFamily(u8),
    /// Invalid IP address
    InvalidIpAddress,
    /// Invalid port number
    InvalidPort,
    /// Message too short
    MessageTooShort,
    /// Attribute too short
    AttributeTooShort,
    /// Missing required field
    MissingRequiredField(&'static str),
    /// Socket bind error
    SocketBindError(String),
    /// Socket operation error
    SocketError(String),
    /// Timeout waiting for response
    Timeout,
    /// Transaction ID mismatch
    TransactionIdMismatch,
    /// Unexpected message type
    UnexpectedMessageType,
}

impl StunError {
    /// The human-readable text of the error.
    pub open spec fn message_text(&self) -> Seq<char> {
        match self {
            StunError::InvalidMessageFormat => "Invalid message format"@,
            StunError::InvalidMessageType(t) => "Invalid message type: 0x"@ + hex4(*t),
            StunError::InvalidAttributeType(t) => "Invalid attribute type: 0x"@ + hex4(*t),
            StunError::InvalidMagicCookie => "Invalid magic cookie"@,
            StunError::InvalidTransactionId => "Invalid transaction ID"@,
            StunError::InvalidAttributeFormat => "Invalid attribute format"@,
            StunError::InvalidAddressFamily(f) => "Invalid address family: 0x"@ + hex2(*f),
            StunError::InvalidIpAddress => "Invalid IP address"@,
            StunError::InvalidPort => "Invalid port number"@,
            StunError::MessageTooShort => "Message too short"@,
            StunError::AttributeTooShort => "Attribute too short"@,
            StunError::MissingRequiredField(field) => "Missing required field: "@ + field@,
            StunError::SocketBindError(e) => "Socket bind error: "@ + e@,
            StunError::SocketError(e) => "Socket error: "@ + e@,
            StunError::Timeout => "Timeout waiting for response"@,
            StunError::TransactionIdMismatch => "Transaction ID mismatch"@,
            StunError::UnexpectedMessageType => "Unexpected message type"@,
        }
    }

    /// Renders the error as text.
    pub fn to_string(&self) -> (s: String)
        ensures
            s@ == self.message_text(),
    {
        match self {
            StunError::InvalidMessageFormat => string_from_str("Invalid message format"),
            StunError::InvalidMessageType(t) => {
                let mut s = string_from_str("Invalid message type: 0x");
                let digits = hex4_chars(*t);
                push_chars(&mut s, digits.as_slice());
                s
            },
            StunError::InvalidAttributeType(t) => {
                let mut s = string_from_str("Invalid attribute type: 0x");
                let digits = hex4_chars(*t);
                push_chars(&mut s, digits.as_slice());
                s
            },
            StunError::InvalidMagicCookie => string_from_str("Invalid magic cookie"),
            StunError::InvalidTransactionId => string_from_str("Invalid transaction ID"),
            StunError::InvalidAttributeFormat => string_from_str("Invalid attribute format"),
            StunError::InvalidAddressFamily(f) => {
                let mut s = string_from_str("Invalid address family: 0x");
                let digits = hex2_chars(*f);
                push_chars(&mut s, digits.as_slice());
                s
            },
            StunError::InvalidIpAddress => string_from_str("Invalid IP address"),
            StunError::InvalidPort => string_from_str("Invalid port number"),
            StunError::MessageTooShort => string_from_str("Message too short"),
            StunError::AttributeTooShort => string_from_str("Attribute too short"),
            StunError::MissingRequiredField(field) => {
                let mut s = string_from_str("Missing required field: ");
                s.append(field);
                s
            },
            StunError::SocketBindError(e) => {
                let mut s = string_from_str("Socket bind error: ");
                s.append(e.as_str());
                s
            },
            StunError::SocketError(e) => {
                let mut s = string_from_str("Socket error: ");
                s.append(e.as_str());
                s
            },
            StunError::Timeout => string_from_str("Timeout waiting for response"),
            StunError::TransactionIdMismatch => string_from_str("Transaction ID mismatch"),
            StunError::UnexpectedMessageType => string_from_str("Unexpected message type"),
        }
    }
}

#[verifier::external_type_specification]
#[verifier::external_body]
pub struct ExIoError(std::io::Error);

/// Reads what an I/O failure says of itself (std's `io::Error::kind` and its
/// `Display`): a timed-out operation becomes `Timeout`, any other failure
/// `SocketError` with the error's text. Nothing is stated of that text.
impl From<std::io::Error> for StunError {
    #[verifier::external_body]
    fn from(err: std::io::Error) -> (r: StunError)
        ensures
            r is Timeout || r is SocketError,
    {
        match err.kind() {
            std::io::ErrorKind::TimedOut => StunError::Timeout,
            _ => StunError::SocketError(err.to_string()),
        }
    }
}

} // verus!
