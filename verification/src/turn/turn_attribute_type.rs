//! TURN-specific attribute types and transport protocol numbers.
use vstd::prelude::*;

verus! {

/// TURN attribute types according to RFC 5766.
#[derive(Debug, Clone, Copy, PartialEq, Eq, Structural)]
pub enum TurnAttributeType {
    /// CHANNEL-NUMBER: 0x000C
    ChannelNumber,
    /// LIFETIME: 0x000D
    Lifetime,
    /// XOR-PEER-ADDRESS: 0x0012
    XorPeerAddress,
    /// DATA: 0x0013
    Data,
    /// XOR-RELAYED-ADDRESS: 0x0016
    XorRelayedAddress,
    /// REQUESTED-TRANSPORT: 0x0019
    RequestedTransport,
    /// DONT-FRAGMENT: 0x001A
    DontFragment,
    /// RESERVATION-TOKEN: 0x0022
    ReservationToken,
}

impl TurnAttributeType {
    /// The RFC 5766 code of the attribute type.
    pub open spec fn code(self) -> u16 {
        match self {
            TurnAttributeType::ChannelNumber => 0x000C,
            TurnAttributeType::Lifetime => 0x000D,
            TurnAttributeType::XorPeerAddress => 0x0012,
            TurnAttributeType::Data => 0x0013,
            TurnAttributeType::XorRelayedAddress => 0x0016,
            TurnAttributeType::RequestedTransport => 0x0019,
            TurnAttributeType::DontFragment => 0x001A,
            TurnAttributeType::ReservationToken => 0x0022,
        }
    }

    /// The attribute type with code `value`, if any.
    pub open spec fn of_code(value: u16) -> Option<TurnAttributeType> {
        if value == 0x000C {
            Some(TurnAttributeType::ChannelNumber)
        } else if value == 0x000D {
            Some(TurnAttributeType::Lifetime)
        } else if value == 0x0012 {
            Some(TurnAttributeType::XorPeerAddress)
        } else if value == 0x0013 {
            Some(TurnAttributeType::Data)
        } else if value == 0x0016 {
            Some(TurnAttributeType::XorRelayedAddress)
        } else if value == 0x0019 {
            Some(TurnAttributeType::RequestedTransport)
        } else if value == 0x001A {
            Some(TurnAttributeType::DontFragment)
        } else if value == 0x0022 {
            Some(TurnAttributeType::ReservationToken)
        } else {
            None
        }
    }

    /// The attribute's name as RFC 5766 writes it.
    pub open spec fn name(self) -> Seq<char> {
        match self {
            TurnAttributeType::ChannelNumber => "CHANNEL-NUMBER"@,
            TurnAttributeType::Lifetime => "LIFETIME"@,
            TurnAttributeType::XorPeerAddress => "XOR-PEER-ADDRESS"@,
            TurnAttributeType::Data => "DATA"@,
            TurnAttributeType::XorRelayedAddress => "XOR-RELAYED-ADDRESS"@,
            TurnAttributeType::RequestedTransport => "REQUESTED-TRANSPORT"@,
            TurnAttributeType::DontFragment => "DONT-FRAGMENT"@,
            TurnAttributeType::ReservationToken => "RESERVATION-TOKEN"@,
        }
    }

    /// Converts the attribute type to its 16-bit numeric value.
    pub fn to_u16(self) -> (r: u16)
        ensures
            r == self.code(),
    {
        match self {
            TurnAttributeType::ChannelNumber => 0x000C,
            TurnAttributeType::Lifetime => 0x000D,
            TurnAttributeType::XorPeerAddress => 0x0012,
            TurnAttributeType::Data => 0x0013,
            TurnAttributeType::XorRelayedAddress => 0x0016,
            TurnAttributeType::RequestedTransport => 0x0019,
            TurnAttributeType::DontFragment => 0x001A,
            TurnAttributeType::ReservationToken => 0x0022,
        }
    }

    /// Parses a TURN attribute type from its numeric value.
    pub fn from_u16(value: u16) -> (r: Option<Self>)
        ensures
            r == Self::of_code(value),
    {
        match value {
            0x000C => Some(TurnAttributeType::ChannelNumber),
            0x000D => Some(TurnAttributeType::Lifetime),
            0x0012 => Some(TurnAttributeType::XorPeerAddress),
            0x0013 => Some(TurnAttributeType::Data),
            0x0016 => Some(TurnAttributeType::XorRelayedAddress),
            0x0019 => Some(TurnAttributeType::RequestedTransport),
            0x001A => Some(TurnAttributeType::DontFragment),
            0x0022 => Some(TurnAttributeType::ReservationToken),
            _ => None,
        }
    }

    /// Returns the string representation of the attribute type.
    pub fn as_str(&self) -> (s: &'static str)
        ensures
            s@ == self.name(),
    {
        match self {
            TurnAttributeType::ChannelNumber => "CHANNEL-NUMBER",
            TurnAttributeType::Lifetime => "LIFETIME",
            TurnAttributeType::XorPeerAddress => "XOR-PEER-ADDRESS",
            TurnAttributeType::Data => "DATA",
            TurnAttributeType::XorRelayedAddress => "XOR-RELAYED-ADDRESS",
            TurnAttributeType::RequestedTransport => "REQUESTED-TRANSPORT",
            TurnAttributeType::DontFragment => "DONT-FRAGMENT",
            TurnAttributeType::ReservationToken => "RESERVATION-TOKEN",
        }
    }

    /// Every attribute type reads back from its code, and every code that
    /// reads as an attribute type is that type's code.
    pub proof fn lemma_code_roundtrip(t: TurnAttributeType, value: u16)
        ensures
            Self::of_code(t.code()) == Some(t),
            Self::of_code(value) matches Some(u) ==> u.code() == value,
    {
    }
}

/// TURN transport protocol values (IANA protocol numbers).
#[derive(Debug, Clone, Copy, PartialEq, Eq, Structural)]
pub enum TransportProtocol {
    /// UDP transport (protocol number 17)
    Udp,
    /// TCP transport (protocol number 6)
    Tcp,
}

impl TransportProtocol {
    /// The IANA protocol number.
    pub open spec fn number(self) -> u8 {
        match self {
            TransportProtocol::Udp => 17,
            TransportProtocol::Tcp => 6,
        }
    }

    /// Converts transport protocol to its 8-bit numeric value.
    pub fn to_u8(self) -> (r: u8)
        ensures
            r == self.number(),
    {
        match self {
            TransportProtocol::Udp => 17,
            TransportProtocol::Tcp => 6,
        }
    }

    /// Parses a transport protocol from its numeric value.
    pub fn from_u8(value: u8) -> (r: Option<Self>)
        ensures
            r == (if value == 17 {
                Some(TransportProtocol::Udp)
            } else if value == 6 {
                Some(TransportProtocol::Tcp)
            } else {
                None
            }),
    {
        match value {
            17 => Some(TransportProtocol::Udp),
            6 => Some(TransportProtocol::Tcp),
            _ => None,
        }
    }

    /// Returns the string representation of the transport protocol.
    pub fn as_str(&self) -> (s: &'static str)
        ensures
            s@ == (match self {
                TransportProtocol::Udp => "UDP"@,
                TransportProtocol::Tcp => "TCP"@,
            }),
    {
        match self {
            TransportProtocol::Udp => "UDP",
            TransportProtocol::Tcp => "TCP",
        }
    }
}

} // verus!
