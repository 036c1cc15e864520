//! Error types for SDP operations: every way in which parsing or validating
//! a session description can fail.
use crate::text::{push_str, string_from_str};
use vstd::prelude::*;
use vstd::string::*;

verus! {

/// Error type for SDP operations
#[derive(Debug)]
pub enum SdpError {
    /// Error when a line doesn't follow the format type=value
    InvalidLineFormat,
    /// Error when a type character is empty
    EmptyTypeChar,
    /// Error when version is invalid
    InvalidVersion,
    /// Error when version is not 0
    InvalidVersionNumber,
    /// Error when session name is empty
    EmptySessionName,
    /// Error when no media sections are present
    NoMediaSections,
    /// Error when the media type is invalid
    InvalidMediaType(String),
    /// Error when the media description has no formats
    NoMediaFormats,
    /// Error when network type is not IN
    InvalidNetworkType,
    /// Error when address type is not IP4 or IP6
    InvalidAddressType,
    /// Error when session ID is 0
    InvalidSessionId,
    /// Error when stop time is less than start time
    InvalidTiming,
    /// Error when parsing IP address fails
    InvalidIpAddress,
    /// Error when parsing TTL fails
    InvalidTtl,
    /// Error when parsing number of addresses fails
    InvalidAddressCount,
    /// Error when parsing origin format
    InvalidOriginFormat,
    /// Error when parsing timing format
    InvalidTimingFormat,
    /// Error when parsing media description format
    InvalidMediaFormat,
    /// Error when parsing port number
    InvalidPort,
    /// Error when parsing attribute format
    InvalidAttributeFormat,
}

impl SdpError {
    /// The human-readable text of the error.
    pub open spec fn message_text(&self) -> Seq<char> {
        match self {
            SdpError::InvalidLineFormat => "Line must be in format 'type=value'"@,
            SdpError::EmptyTypeChar => "Type character cannot be empty"@,
            SdpError::InvalidVersion => "Failed to parse version"@,
            SdpError::InvalidVersionNumber => "SDP version must be 0"@,
            SdpError::EmptySessionName => "Session name cannot be empty"@,
            SdpError::NoMediaSections => "SDP must contain at least one media description"@,
            SdpError::InvalidMediaType(t) => "Invalid media type: "@ + t@,
            SdpError::NoMediaFormats => "Media description must have at least one format"@,
            SdpError::InvalidNetworkType => "Network type must be IN"@,
            SdpError::InvalidAddressType => "Address type must be IP4 or IP6"@,
            SdpError::InvalidSessionId => "Session ID cannot be 0"@,
            SdpError::InvalidTiming => "Stop time must be greater than or equal to start time"@,
            SdpError::InvalidIpAddress => "Invalid IP address format"@,
            SdpError::InvalidTtl => "Invalid TTL value"@,
            SdpError::InvalidAddressCount => "Invalid number of addresses"@,
            SdpError::InvalidOriginFormat => "Invalid origin format"@,
            SdpError::InvalidTimingFormat => "Invalid timing format"@,
            SdpError::InvalidMediaFormat => "Invalid media description format"@,
            SdpError::InvalidPort => "Invalid port number"@,
            SdpError::InvalidAttributeFormat => "Invalid attribute format"@,
        }
    }

    /// Renders the error as text.
    pub fn to_string(&self) -> (s: String)
        ensures
            s@ == self.message_text(),
    {
        match self {
            SdpError::InvalidLineFormat => string_from_str("Line must be in format 'type=value'"),
            SdpError::EmptyTypeChar => string_from_str("Type character cannot be empty"),
            SdpError::InvalidVersion => string_from_str("Failed to parse version"),
            SdpError::InvalidVersionNumber => string_from_str("SDP version must be 0"),
            SdpError::EmptySessionName => string_from_str("Session name cannot be empty"),
            SdpError::NoMediaSections => string_from_str(
                "SDP must contain at least one media description",
            ),
            SdpError::InvalidMediaType(t) => {
                let mut s = string_from_str("Invalid media type: ");
                push_str(&mut s, t.as_str());
                s
            },
            SdpError::NoMediaFormats => string_from_str(
                "Media description must have at least one format",
            ),
            SdpError::InvalidNetworkType => string_from_str("Network type must be IN"),
            SdpError::InvalidAddressType => string_from_str("Address type must be IP4 or IP6"),
            SdpError::InvalidSessionId => string_from_str("Session ID cannot be 0"),
            SdpError::InvalidTiming => string_from_str(
                "Stop time must be greater than or equal to start time",
            ),
            SdpError::InvalidIpAddress => string_from_str("Invalid IP address format"),
            SdpError::InvalidTtl => string_from_str("Invalid TTL value"),
            SdpError::InvalidAddressCount => string_from_str("Invalid number of addresses"),
            SdpError::InvalidOriginFormat => string_from_str("Invalid origin format"),
            SdpError::InvalidTimingFormat => string_from_str("Invalid timing format"),
            SdpError::InvalidMediaFormat => string_from_str("Invalid media description format"),
            SdpError::InvalidPort => string_from_str("Invalid port number"),
            SdpError::InvalidAttributeFormat => string_from_str("Invalid attribute format"),
        }
    }
}

} // verus!
