//! Decoding of the XOR-MAPPED-ADDRESS attribute (RFC 5389 section 15.2).
use crate::address::{address_option_view, IpAddress, SocketAddress};
use crate::bytes::{be32, read16};
use crate::stun::message_header::MAGIC_COOKIE;
use vstd::prelude::*;

verus! {

/// Address family value of IPv4.
pub const FAMILY_IPV4: u8 = 0x01;

/// Address family value of IPv6.
pub const FAMILY_IPV6: u8 = 0x02;

/// The bytes that an IPv6 address is XOR-ed with: the magic cookie followed
/// by the transaction ID.
pub open spec fn xor_mask(transaction_id: Seq<u8>) -> Seq<u8> {
    be32(MAGIC_COOKIE) + transaction_id
}

/// The address (octets and port) that an XOR-MAPPED-ADDRESS value encodes,
/// or `None` when the value is too short or names an unknown family.
pub open spec fn xor_mapped_address(bytes: Seq<u8>, transaction_id: Seq<u8>) -> Option<
    (Seq<u8>, u16),
> {
    if bytes.len() < 4 {
        None
    } else {
        let port = read16(bytes[2], bytes[3]) ^ 0x2112u16;
        if bytes[1] == FAMILY_IPV4 {
            if bytes.len() < 8 {
                None
            } else {
                Some((Seq::new(4, |i: int| bytes[4 + i] ^ be32(MAGIC_COOKIE)[i]), port))
            }
        } else if bytes[1] == FAMILY_IPV6 {
            if bytes.len() < 20 {
                None
            } else {
                Some((Seq::new(16, |i: int| bytes[4 + i] ^ xor_mask(transaction_id)[i]), port))
            }
        } else {
            None
        }
    }
}

/// Decodes an XOR-MAPPED-ADDRESS attribute value.
pub fn decode(bytes: &[u8], transaction_id: &[u8; 12]) -> (r: Option<SocketAddress>)
    ensures
        address_option_view(r) == xor_mapped_address(bytes@, transaction_id@),
        r matches Some(a) ==> (a.ip is V4 <==> bytes@[1] == FAMILY_IPV4),
{
    if bytes.len() < 4 {
        return None;
    }
    let family = bytes[1];
    let xor_port = crate::bytes::u16_from_be(bytes[2], bytes[3]);
    let port = xor_port ^ 0x2112u16;
    let m0: u8 = 0x21;
    let m1: u8 = 0x12;
    let m2: u8 = 0xA4;
    let m3: u8 = 0x42;
    assert((MAGIC_COOKIE >> 24u32) as u8 == 0x21u8 && (MAGIC_COOKIE >> 16u32) as u8 == 0x12u8 && (
    MAGIC_COOKIE >> 8u32) as u8 == 0xA4u8 && MAGIC_COOKIE as u8 == 0x42u8) by (bit_vector);
    assert(be32(MAGIC_COOKIE) =~= seq![m0, m1, m2, m3]);
    if family == FAMILY_IPV4 {
        if bytes.len() < 8 {
            return None;
        }
        let ip = [bytes[4] ^ m0, bytes[5] ^ m1, bytes[6] ^ m2, bytes[7] ^ m3];
        assert(ip@ =~= Seq::new(4, |i: int| bytes@[4 + i] ^ be32(MAGIC_COOKIE)[i]));
        Some(SocketAddress { ip: IpAddress::V4(ip), port })
    } else if family == FAMILY_IPV6 {
        if bytes.len() < 20 {
            return None;
        }
        let t = transaction_id;
        let ip = [
            bytes[4] ^ m0,
            bytes[5] ^ m1,
            bytes[6] ^ m2,
            bytes[7] ^ m3,
            bytes[8] ^ t[0],
            bytes[9] ^ t[1],
            bytes[10] ^ t[2],
            bytes[11] ^ t[3],
            bytes[12] ^ t[4],
            bytes[13] ^ t[5],
            bytes[14] ^ t[6],
            bytes[15] ^ t[7],
            bytes[16] ^ t[8],
            bytes[17] ^ t[9],
            bytes[18] ^ t[10],
            bytes[19] ^ t[11],
        ];
        assert(ip@ =~= Seq::new(16, |i: int| bytes@[4 + i] ^ xor_mask(transaction_id@)[i]));
        Some(SocketAddress { ip: IpAddress::V6(ip), port })
    } else {
        None
    }
}

} // verus!
