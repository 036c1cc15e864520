//! TURN message types (RFC 5766) and their classes.
use vstd::prelude::*;

verus! {

/// TURN message types according to RFC 5766.
#[derive(Debug, Clone, Copy, PartialEq, Eq, Structural)]
pub enum TurnMessageType {
    AllocateRequest,
    AllocateResponse,
    AllocateError,
    RefreshRequest,
    RefreshResponse,
    RefreshError,
    CreatePermissionRequest,
    CreatePermissionResponse,
    CreatePermissionError,
    ChannelBindRequest,
    ChannelBindResponse,
    ChannelBindError,
    SendIndication,
    DataIndication,
}

impl TurnMessageType {
    /// The 16-bit code of the message type.
    pub open spec fn code(self) -> u16 {
        match self {
            TurnMessageType::AllocateRequest => 0x0003,
            TurnMessageType::AllocateResponse => 0x0103,
            TurnMessageType::AllocateError => 0x0113,
            TurnMessageType::RefreshRequest => 0x0004,
            TurnMessageType::RefreshResponse => 0x0104,
            TurnMessageType::RefreshError => 0x0114,
            TurnMessageType::CreatePermissionRequest => 0x0008,
            TurnMessageType::CreatePermissionResponse => 0x0108,
            TurnMessageType::CreatePermissionError => 0x0118,
            TurnMessageType::ChannelBindRequest => 0x0009,
            TurnMessageType::ChannelBindResponse => 0x0109,
            TurnMessageType::ChannelBindError => 0x0119,
            TurnMessageType::SendIndication => 0x0016,
            TurnMessageType::DataIndication => 0x0017,
        }
    }

    /// The message type with code `value`, if any.
    pub open spec fn of_code(value: u16) -> Option<TurnMessageType> {
        if value == 0x0003 {
            Some(TurnMessageType::AllocateRequest)
        } else if value == 0x0103 {
            Some(TurnMessageType::AllocateResponse)
        } else if value == 0x0113 {
            Some(TurnMessageType::AllocateError)
        } else if value == 0x0004 {
            Some(TurnMessageType::RefreshRequest)
        } else if value == 0x0104 {
            Some(TurnMessageType::RefreshResponse)
        } else if value == 0x0114 {
            Some(TurnMessageType::RefreshError)
        } else if value == 0x0008 {
            Some(TurnMessageType::CreatePermissionRequest)
        } else if value == 0x0108 {
            Some(TurnMessageType::CreatePermissionResponse)
        } else if value == 0x0118 {
            Some(TurnMessageType::CreatePermissionError)
        } else if value == 0x0009 {
            Some(TurnMessageType::ChannelBindRequest)
        } else if value == 0x0109 {
            Some(TurnMessageType::ChannelBindResponse)
        } else if value == 0x0119 {
            Some(TurnMessageType::ChannelBindError)
        } else if value == 0x0016 {
            Some(TurnMessageType::SendIndication)
        } else if value == 0x0017 {
            Some(TurnMessageType::DataIndication)
        } else {
            None
        }
    }

    /// The human-readable name of the message type.
    pub open spec fn name(self) -> Seq<char> {
        match self {
            TurnMessageType::AllocateRequest => "Allocate Request"@,
            TurnMessageType::AllocateResponse => "Allocate Success Response"@,
            TurnMessageType::AllocateError => "Allocate Error Response"@,
            TurnMessageType::RefreshRequest => "Refresh Request"@,
            TurnMessageType::RefreshResponse => "Refresh Success Response"@,
            TurnMessageType::RefreshError => "Refresh Error Response"@,
            TurnMessageType::CreatePermissionRequest => "CreatePermission Request"@,
            TurnMessageType::CreatePermissionResponse => "CreatePermission Success Response"@,
            TurnMessageType::CreatePermissionError => "CreatePermission Error Response"@,
            TurnMessageType::ChannelBindRequest => "ChannelBind Request"@,
            TurnMessageType::ChannelBindResponse => "ChannelBind Success Response"@,
            TurnMessageType::ChannelBindError => "ChannelBind Error Response"@,
            TurnMessageType::SendIndication => "Send Indication"@,
            TurnMessageType::DataIndication => "Data Indication"@,
        }
    }

    /// The request types.
    pub open spec fn spec_is_request(self) -> bool {
        self is AllocateRequest || self is RefreshRequest || self is CreatePermissionRequest
            || self is ChannelBindRequest
    }

    /// The success-response types.
    pub open spec fn spec_is_success_response(self) -> bool {
        self is AllocateResponse || self is RefreshResponse || self is CreatePermissionResponse
            || self is ChannelBindResponse
    }

    /// The error-response types.
    pub open spec fn spec_is_error_response(self) -> bool {
        self is AllocateError || self is RefreshError || self is CreatePermissionError
            || self is ChannelBindError
    }

    /// The indication types.
    pub open spec fn spec_is_indication(self) -> bool {
        self is SendIndication || self is DataIndication
    }

    /// Converts TURN message type to its 16-bit numeric value.
    pub fn to_u16(self) -> (r: u16)
        ensures
            r == self.code(),
    {
        match self {
            TurnMessageType::AllocateRequest => 0x0003,
            TurnMessageType::AllocateResponse => 0x0103,
            TurnMessageType::AllocateError => 0x0113,
            TurnMessageType::RefreshRequest => 0x0004,
            TurnMessageType::RefreshResponse => 0x0104,
            TurnMessageType::RefreshError => 0x0114,
            TurnMessageType::CreatePermissionRequest => 0x0008,
            TurnMessageType::CreatePermissionResponse => 0x0108,
            TurnMessageType::CreatePermissionError => 0x0118,
            TurnMessageType::ChannelBindRequest => 0x0009,
            TurnMessageType::ChannelBindResponse => 0x0109,
            TurnMessageType::ChannelBindError => 0x0119,
            TurnMessageType::SendIndication => 0x0016,
            TurnMessageType::DataIndication => 0x0017,
        }
    }

    /// Parses a TURN message type from its numeric value.
    pub fn from_u16(value: u16) -> (r: Option<Self>)
        ensures
            r == Self::of_code(value),
    {
        match value {
            0x0003 => Some(TurnMessageType::AllocateRequest),
            0x0103 => Some(TurnMessageType::AllocateResponse),
            0x0113 => Some(TurnMessageType::AllocateError),
            0x0004 => Some(TurnMessageType::RefreshRequest),
            0x0104 => Some(TurnMessageType::RefreshResponse),
            0x0114 => Some(TurnMessageType::RefreshError),
            0x0008 => Some(TurnMessageType::CreatePermissionRequest),
            0x0108 => Some(TurnMessageType::CreatePermissionResponse),
            0x0118 => Some(TurnMessageType::CreatePermissionError),
            0x0009 => Some(TurnMessageType::ChannelBindRequest),
            0x0109 => Some(TurnMessageType::ChannelBindResponse),
            0x0119 => Some(TurnMessageType::ChannelBindError),
            0x0016 => Some(TurnMessageType::SendIndication),
            0x0017 => Some(TurnMessageType::DataIndication),
            _ => None,
        }
    }

    /// Returns the string representation of the message type.
    pub fn as_str(&self) -> (s: &'static str)
        ensures
            s@ == self.name(),
    {
        match self {
            TurnMessageType::AllocateRequest => "Allocate Request",
            TurnMessageType::AllocateResponse => "Allocate Success Response",
            TurnMessageType::AllocateError => "Allocate Error Response",
            TurnMessageType::RefreshRequest => "Refresh Request",
            TurnMessageType::RefreshResponse => "Refresh Success Response",
            TurnMessageType::RefreshError => "Refresh Error Response",
            TurnMessageType::CreatePermissionRequest => "CreatePermission Request",
            TurnMessageType::CreatePermissionResponse => "CreatePermission Success Response",
            TurnMessageType::CreatePermissionError => "CreatePermission Error Response",
            TurnMessageType::ChannelBindRequest => "ChannelBind Request",
            TurnMessageType::ChannelBindResponse => "ChannelBind Success Response",
            TurnMessageType::ChannelBindError => "ChannelBind Error Response",
            TurnMessageType::SendIndication => "Send Indication",
            TurnMessageType::DataIndication => "Data Indication",
        }
    }

    /// Checks if this is a request message type.
    pub fn is_request(&self) -> (r: bool)
        ensures
            r == self.spec_is_request(),
    {
        matches!(
            self,
            TurnMessageType::AllocateRequest | TurnMessageType::RefreshRequest
                | TurnMessageType::CreatePermissionRequest | TurnMessageType::ChannelBindRequest
        )
    }

    /// Checks if this is a success response message type.
    pub fn is_success_response(&self) -> (r: bool)
        ensures
            r == self.spec_is_success_response(),
    {
        matches!(
            self,
            TurnMessageType::AllocateResponse | TurnMessageType::RefreshResponse
                | TurnMessageType::CreatePermissionResponse | TurnMessageType::ChannelBindResponse
        )
    }

    /// Checks if this is an error response message type.
    pub fn is_error_response(&self) -> (r: bool)
        ensures
            r == self.spec_is_error_response(),
    {
        matches!(
            self,
            TurnMessageType::AllocateError | TurnMessageType::RefreshError
                | TurnMessageType::CreatePermissionError | TurnMessageType::ChannelBindError
        )
    }

    /// Checks if this is an indication message type.
    pub fn is_indication(&self) -> (r: bool)
        ensures
            r == self.spec_is_indication(),
    {
        matches!(self, TurnMessageType::SendIndication | TurnMessageType::DataIndication)
    }

    /// Every message type reads back from its code; every code that reads as
    /// a message type is that type's code; and every message type is exactly
    /// one of request, success response, error response or indication.
    pub proof fn lemma_code_roundtrip(t: TurnMessageType, value: u16)
        ensures
            Self::of_code(t.code()) == Some(t),
            Self::of_code(value) matches Some(u) ==> u.code() == value,
            t.spec_is_request() as int + t.spec_is_success_response() as int
                + t.spec_is_error_response() as int + t.spec_is_indication() as int == 1,
    {
    }
}

} // verus!
