//! STUN message types (RFC 5389).
use crate::stun::errors::StunError;
use vstd::prelude::*;

verus! {

/// STUN Binding message types according to RFC 5389.
#[derive(Debug, Clone, Copy, PartialEq, Eq, Structural)]
pub enum MessageType {
    /// Binding Request (0x0001)
    Request,
    /// Binding Response (0x0101)
    Response,
    /// Binding Error Response (0x0111)
    ErrorResponse,
}

impl MessageType {
    /// The RFC 5389 code of the message type.
    pub open spec fn code(self) -> u16 {
        match self {
            MessageType::Request => 0x0001,
            MessageType::Response => 0x0101,
            MessageType::ErrorResponse => 0x0111,
        }
    }

    /// The message type with code `value`, if any.
    pub open spec fn of_code(value: u16) -> Option<MessageType> {
        if value == 0x0001 {
            Some(MessageType::Request)
        } else if value == 0x0101 {
            Some(MessageType::Response)
        } else if value == 0x0111 {
            Some(MessageType::ErrorResponse)
        } else {
            None
        }
    }

    /// Converts the message type to its RFC 5389 value.
    pub fn to_u16(self) -> (r: u16)
        ensures
            r == self.code(),
    {
        match self {
            MessageType::Request => 0x0001,
            MessageType::Response => 0x0101,
            MessageType::ErrorResponse => 0x0111,
        }
    }

    /// Parses a message type from its RFC 5389 value.
    pub fn from_u16(value: u16) -> (r: Result<Self, StunError>)
        ensures
            r == (match Self::of_code(value) {
                Some(t) => Ok(t),
                None => Err(StunError::InvalidMessageType(value)),
            }),
    {
        match value {
            0x0001 => Ok(MessageType::Request),
            0x0101 => Ok(MessageType::Response),
            0x0111 => Ok(MessageType::ErrorResponse),
            _ => Err(StunError::InvalidMessageType(value)),
        }
    }

    /// Every message type is read back from its code, and every code that
    /// reads as a message type is that type's code.
    pub proof fn lemma_code_roundtrip(t: MessageType, value: u16)
        ensures
            Self::of_code(t.code()) == Some(t),
            Self::of_code(value) matches Some(u) ==> u.code() == value,
    {
    }
}

} // verus!
