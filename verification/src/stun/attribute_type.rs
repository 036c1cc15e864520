//! STUN attribute types (RFC 5389).
use vstd::prelude::*;

verus! {

/// STUN attribute types according to RFC 5389.
#[derive(Debug, Clone, Copy, PartialEq, Eq, Structural)]
pub enum AttributeType {
    /// XOR-MAPPED-ADDRESS (0x0020) - XOR'd reflexive transport address
    XorMappedAddress,
}

impl AttributeType {
    /// The RFC 5389 code of the attribute type.
    pub open spec fn code(self) -> u16 {
        match self {
            AttributeType::XorMappedAddress => 0x0020,
        }
    }

    /// Converts the attribute type to its RFC 5389 value.
    pub fn to_u16(self) -> (r: u16)
        ensures
            r == self.code(),
    {
        match self {
            AttributeType::XorMappedAddress => 0x0020,
        }
    }
}

} // verus!
