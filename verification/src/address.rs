//! Transport addresses carried in STUN and TURN attributes.
use vstd::prelude::*;

verus! {

/// An IP address: four octets for IPv4, sixteen for IPv6.
#[derive(Debug, Clone, Copy, PartialEq, Eq)]
pub enum IpAddress {
    V4([u8; 4]),
    V6([u8; 16]),
}

impl View for IpAddress {
    type V = Seq<u8>;

    /// The address's octets, in network order (4 of them for IPv4, 16 for IPv6).
    open spec fn view(&self) -> Seq<u8> {
        match self {
            IpAddress::V4(a) => a@,
            IpAddress::V6(a) => a@,
        }
    }
}

/// An IP address and a port.
#[derive(Debug, Clone, Copy, PartialEq, Eq)]
pub struct SocketAddress {
    pub ip: IpAddress,
    pub port: u16,
}

impl View for SocketAddress {
    type V = (Seq<u8>, u16);

    open spec fn view(&self) -> (Seq<u8>, u16) {
        (self.ip@, self.port)
    }
}

/// The view of an optional address.
pub open spec fn address_option_view(a: Option<SocketAddress>) -> Option<(Seq<u8>, u16)> {
    match a {
        Some(x) => Some(x@),
        None => None,
    }
}

} // verus!
