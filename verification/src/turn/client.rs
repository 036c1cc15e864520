//! The protocol logic of the TURN relay client: request construction, XOR
//! address coding, attribute lookup and response classification. Sending and
//! receiving the datagrams is left to the caller.
use crate::address::{IpAddress, SocketAddress};
use crate::bytes::{be16, be32, read16, u16_to_be};
use crate::stun::message::{attribute_tlv, lemma_tlv_fields, lemma_tlv_list_split, padding, tlv_list};
use crate::stun::message_header::MAGIC_COOKIE;
use crate::text::{hex4, hex4_chars, push_chars, string_from_str};
use crate::turn::errors::TurnError;
use crate::turn::message::{add_turn_attribute, build_turn_message, turn_header, with_turn_attribute};
use crate::turn::turn_attribute_type::{TransportProtocol, TurnAttributeType};
use crate::turn::turn_message_type::TurnMessageType;
use vstd::prelude::*;
use vstd::slice::slice_subrange;
use vstd::string::*;

verus! {

/// Default allocation lifetime in seconds (10 minutes).
pub const DEFAULT_LIFETIME: u32 = 600;

/// USERNAME attribute type (STUN/TURN).
pub const ATTR_USERNAME: u16 = 0x0006;

/// Upper 16 bits of the magic cookie, XOR-ed into ports.
pub const MAGIC_COOKIE_HIGH: u16 = 0x2112;

/// The bytes of the magic cookie, XOR-ed into IPv4 addresses.
pub open spec fn magic_bytes() -> Seq<u8> {
    be32(MAGIC_COOKIE)
}

/// The XOR-PEER-ADDRESS value for an address: the IPv4 family marker, the port
/// XOR-ed with the cookie's upper half, and, for an IPv4 address only, the
/// octets XOR-ed with the cookie. An IPv6 address contributes no address bytes.
pub open spec fn xor_address_value(addr: SocketAddress) -> Seq<u8> {
    seq![0x00u8, 0x01u8] + be16(addr.port ^ MAGIC_COOKIE_HIGH) + match addr.ip {
        IpAddress::V4(o) => Seq::new(4, |i: int| o@[i] ^ magic_bytes()[i]),
        IpAddress::V6(_) => Seq::<u8>::empty(),
    }
}

/// The position and length of the value of the first attribute of type
/// `attr_type` at or after `offset` in a TURN message, walking the attributes
/// in TLV form with 4-byte padding and stopping at one that runs past the end.
pub open spec fn attribute_position(bytes: Seq<u8>, offset: int, attr_type: u16) -> Option<
    (int, int),
>
    decreases bytes.len() - offset,
{
    if offset < 0 || offset + 4 > bytes.len() {
        None
    } else {
        let current = read16(bytes[offset], bytes[offset + 1]);
        let len = read16(bytes[offset + 2], bytes[offset + 3]) as int;
        let start = offset + 4;
        if start + len > bytes.len() {
            None
        } else if current == attr_type {
            Some((start, len))
        } else if start + len + padding(len as nat) > bytes.len() {
            None
        } else {
            attribute_position(bytes, start + len + padding(len as nat), attr_type)
        }
    }
}

/// A found attribute value lies inside the message.
pub proof fn lemma_attribute_position_in_bounds(bytes: Seq<u8>, offset: int, attr_type: u16)
    ensures
        attribute_position(bytes, offset, attr_type) matches Some((start, len)) ==> 0 <= start
            && 0 <= len && start + len <= bytes.len(),
    decreases bytes.len() - offset,
{
    if offset < 0 || offset + 4 > bytes.len() {
    } else {
        let len = read16(bytes[offset + 2], bytes[offset + 3]) as int;
        let start = offset + 4;
        if start + len <= bytes.len() && read16(bytes[offset], bytes[offset + 1]) != attr_type
            && start + len + padding(len as nat) <= bytes.len() {
            lemma_attribute_position_in_bounds(
                bytes,
                start + len + padding(len as nat),
                attr_type,
            );
        }
    }
}

/// Whether attributes all fit their 16-bit length field and none has type `t`.
pub open spec fn none_of_type(attrs: Seq<(u16, Seq<u8>)>, t: u16) -> bool {
    forall|k: int| 0 <= k < attrs.len() ==> (#[trigger] attrs[k]).1.len() < 65536 && attrs[k].0 != t
}

/// The walk at an attribute: it is the one sought, or the walk goes on
/// right after it.
proof fn lemma_position_step(b: Seq<u8>, offset: int, t: u16, found: u16, v: Seq<u8>)
    requires
        0 <= offset,
        v.len() < 65536,
        offset + attribute_tlv(found, v).len() <= b.len(),
        b.subrange(offset, offset + attribute_tlv(found, v).len()) == attribute_tlv(found, v),
    ensures
        attribute_position(b, offset, t) == (if found == t {
            Some((offset + 4, v.len() as int))
        } else {
            attribute_position(b, offset + attribute_tlv(found, v).len(), t)
        }),
{
    lemma_tlv_fields(b, offset, found, v);
}

/// Past attributes of other types, the walk finds the first attribute of
/// type `t` and its value.
proof fn lemma_position_after(
    b: Seq<u8>,
    offset: int,
    before: Seq<(u16, Seq<u8>)>,
    t: u16,
    v: Seq<u8>,
)
    requires
        0 <= offset,
        none_of_type(before, t),
        v.len() < 65536,
        offset + tlv_list(before).len() + attribute_tlv(t, v).len() <= b.len(),
        b.subrange(offset, offset + tlv_list(before).len() + attribute_tlv(t, v).len()) == tlv_list(
            before,
        ) + attribute_tlv(t, v),
    ensures
        attribute_position(b, offset, t) == Some(
            (offset + tlv_list(before).len() + 4, v.len() as int),
        ),
    decreases before.len(),
{
    let whole = tlv_list(before) + attribute_tlv(t, v);
    if before.len() == 0 {
        assert(tlv_list(before) =~= Seq::<u8>::empty());
        assert(b.subrange(offset, offset + attribute_tlv(t, v).len()) =~= attribute_tlv(t, v));
        lemma_position_step(b, offset, t, t, v);
    } else {
        let (t0, v0) = before[0];
        let first = attribute_tlv(t0, v0);
        let rest = before.drop_first();
        lemma_tlv_list_split(before);
        assert(before[0].1.len() < 65536 && before[0].0 != t);
        assert(b.subrange(offset, offset + first.len()) =~= whole.subrange(0, first.len() as int));
        assert(whole.subrange(0, first.len() as int) =~= first);
        lemma_position_step(b, offset, t, t0, v0);
        assert(none_of_type(rest, t)) by {
            assert forall|k: int| 0 <= k < rest.len() implies (#[trigger] rest[k]).1.len() < 65536
                && rest[k].0 != t by {
                assert(rest[k] == before[k + 1]);
                assert(before[k + 1].1.len() < 65536 && before[k + 1].0 != t);
            }
        }
        let o2 = offset + first.len();
        assert(b.subrange(o2, o2 + tlv_list(rest).len() + attribute_tlv(t, v).len()) =~= tlv_list(
            rest,
        ) + attribute_tlv(t, v)) by {
            let tail = tlv_list(rest) + attribute_tlv(t, v);
            assert(whole =~= first + tail);
            let n = offset + tlv_list(before).len() + attribute_tlv(t, v).len();
            assert forall|i: int| 0 <= i < tail.len() implies b[o2 + i] == tail[i] by {
                assert(b.subrange(offset, n)[first.len() + i] == b[o2 + i]);
                assert(whole[first.len() + i] == tail[i]);
            }
        }
        lemma_position_after(b, o2, rest, t, v);
    }
}

/// An attribute sought in a TURN message (a 20-byte header, attributes of
/// other types, then it) is found: its value is the bytes right after its
/// own 4-byte type and length, and they are the value it was written with.
pub proof fn lemma_attribute_found(
    header: Seq<u8>,
    before: Seq<(u16, Seq<u8>)>,
    t: u16,
    v: Seq<u8>,
    after: Seq<u8>,
)
    requires
        header.len() == 20,
        none_of_type(before, t),
        v.len() < 65536,
    ensures
        ({
            let b = header + tlv_list(before) + attribute_tlv(t, v) + after;
            let start: int = 20 + tlv_list(before).len() as int + 4;
            &&& attribute_position(b, 20, t) == Some((start, v.len() as int))
            &&& b.subrange(start, start + v.len() as int) == v
        }),
{
    let b = header + tlv_list(before) + attribute_tlv(t, v) + after;
    let n: int = tlv_list(before).len() as int + attribute_tlv(t, v).len() as int;
    assert(b.subrange(20, 20 + n) =~= tlv_list(before) + attribute_tlv(t, v));
    lemma_position_after(b, 20, before, t, v);
    let o: int = 20 + tlv_list(before).len() as int;
    assert(b.subrange(o, o + attribute_tlv(t, v).len() as int) =~= attribute_tlv(t, v));
    lemma_tlv_fields(b, o, t, v);
}

/// A response carrying the XOR-RELAYED-ADDRESS attribute (type 0x0016) of an
/// IPv4 address, after attributes of other types, yields that address: the
/// found value is 8 bytes long, and its port and octets, XOR-ed back with the
/// magic cookie, are those of the address (what `extract_xor_relayed_address`
/// returns).
pub proof fn lemma_relayed_address_found(
    header: Seq<u8>,
    before: Seq<(u16, Seq<u8>)>,
    a: SocketAddress,
    after: Seq<u8>,
)
    requires
        header.len() == 20,
        none_of_type(before, 0x0016),
        a.ip is V4,
    ensures
        TurnAttributeType::XorRelayedAddress.code() == 0x0016,
        ({
            let b = header + tlv_list(before) + attribute_tlv(0x0016, xor_address_value(a)) + after;
            attribute_position(b, 20, 0x0016) matches Some((start, len)) && len >= 8 && (
                Seq::new(4, |i: int| b[start + 4 + i] ^ magic_bytes()[i]),
                read16(b[start + 2], b[start + 3]) ^ MAGIC_COOKIE_HIGH,
            ) == a@
        }),
{
    let v = xor_address_value(a);
    assert(v.len() == 8) by {
        lemma_xor_address_roundtrip(a);
    }
    lemma_attribute_found(header, before, 0x0016, v, after);
    let b = header + tlv_list(before) + attribute_tlv(0x0016, v) + after;
    let start: int = 20 + tlv_list(before).len() as int + 4;
    lemma_value_decodes(b, start, a);
}

/// Bytes that hold the XOR-RELAYED-ADDRESS value of an IPv4 address at
/// `start` decode, XOR-ed back with the magic cookie, to that address.
proof fn lemma_value_decodes(b: Seq<u8>, start: int, a: SocketAddress)
    requires
        a.ip is V4,
        0 <= start,
        start + 8 <= b.len(),
        b.subrange(start, start + 8) == xor_address_value(a),
    ensures
        (
            Seq::new(4, |i: int| b[start + 4 + i] ^ magic_bytes()[i]),
            read16(b[start + 2], b[start + 3]) ^ MAGIC_COOKIE_HIGH,
        ) == a@,
{
    let v = xor_address_value(a);
    lemma_xor_address_roundtrip(a);
    assert forall|i: int| 0 <= i < 8 implies b[start + i] == v[i] by {
        assert(b.subrange(start, start + 8)[i] == b[start + i]);
    }
    assert(Seq::new(4, |i: int| b[start + 4 + i] ^ magic_bytes()[i]) =~= Seq::new(
        4,
        |i: int| v[4 + i] ^ magic_bytes()[i],
    ));
}

/// Encodes an address as an XOR-PEER-ADDRESS value.
pub fn encode_xor_address(addr: &SocketAddress) -> (bytes: Vec<u8>)
    ensures
        bytes@ == xor_address_value(*addr),
{
    let mut bytes: Vec<u8> = Vec::with_capacity(8);
    bytes.push(0x00u8);
    bytes.push(0x01u8);
    let xor_port = addr.port ^ MAGIC_COOKIE_HIGH;
    crate::bytes::push_u16(&mut bytes, xor_port);
    assert((MAGIC_COOKIE >> 24u32) as u8 == 0x21u8 && (MAGIC_COOKIE >> 16u32) as u8 == 0x12u8 && (
    MAGIC_COOKIE >> 8u32) as u8 == 0xA4u8 && MAGIC_COOKIE as u8 == 0x42u8) by (bit_vector);
    match addr.ip {
        IpAddress::V4(o) => {
            bytes.push(o[0] ^ 0x21u8);
            bytes.push(o[1] ^ 0x12u8);
            bytes.push(o[2] ^ 0xA4u8);
            bytes.push(o[3] ^ 0x42u8);
        },
        IpAddress::V6(_) => {},
    }
    assert(bytes@ =~= xor_address_value(*addr));
    bytes
}

/// Decodes an XOR-ed IPv4 address value: port from bytes 2..4, octets from
/// bytes 4..8; the family byte is not read.
pub fn decode_xor_address(bytes: &[u8]) -> (r: Result<SocketAddress, TurnError>)
    ensures
        bytes@.len() < 8 ==> (r matches Err(TurnError::AttributeError(m)) && m@
            == "XOR address too short"@),
        bytes@.len() >= 8 ==> (r matches Ok(a) && a.ip is V4 && a@ == (
            Seq::new(4, |i: int| bytes@[4 + i] ^ magic_bytes()[i]),
            read16(bytes@[2], bytes@[3]) ^ MAGIC_COOKIE_HIGH,
        )),
{
    if bytes.len() < 8 {
        return Err(TurnError::AttributeError(string_from_str("XOR address too short")));
    }
    let xor_port = crate::bytes::u16_from_be(bytes[2], bytes[3]);
    let port = xor_port ^ MAGIC_COOKIE_HIGH;
    assert((MAGIC_COOKIE >> 24u32) as u8 == 0x21u8 && (MAGIC_COOKIE >> 16u32) as u8 == 0x12u8 && (
    MAGIC_COOKIE >> 8u32) as u8 == 0xA4u8 && MAGIC_COOKIE as u8 == 0x42u8) by (bit_vector);
    let octets = [bytes[4] ^ 0x21u8, bytes[5] ^ 0x12u8, bytes[6] ^ 0xA4u8, bytes[7] ^ 0x42u8];
    assert(octets@ =~= Seq::new(4, |i: int| bytes@[4 + i] ^ magic_bytes()[i]));
    Ok(SocketAddress { ip: IpAddress::V4(octets), port })
}

/// Decoding the encoding of an IPv4 address gives the address back.
pub proof fn lemma_xor_address_roundtrip(addr: SocketAddress)
    requires
        addr.ip is V4,
    ensures
        ({
            let v = xor_address_value(addr);
            &&& v.len() == 8
            &&& Seq::new(4, |i: int| v[4 + i] ^ magic_bytes()[i]) == addr.ip@
            &&& read16(v[2], v[3]) ^ MAGIC_COOKIE_HIGH == addr.port
        }),
{
    let v = xor_address_value(addr);
    let o = addr.ip->V4_0;
    crate::bytes::lemma_read16_be16(addr.port ^ MAGIC_COOKIE_HIGH);
    let p = addr.port;
    assert((p ^ 0x2112u16) ^ 0x2112u16 == p) by (bit_vector);
    assert forall|i: int| 0 <= i < 4 implies (o@[i] ^ magic_bytes()[i]) ^ magic_bytes()[i]
        == o@[i] by {
        let a = o@[i];
        let b = magic_bytes()[i];
        assert((a ^ b) ^ b == a) by (bit_vector);
    }
    assert(Seq::new(4, |i: int| v[4 + i] ^ magic_bytes()[i]) =~= addr.ip@);
}

/// Finds the value of the first attribute of type `attr_type` in a TURN message.
pub fn find_attribute<'a>(bytes: &'a [u8], attr_type: u16) -> (r: Result<&'a [u8], TurnError>)
    ensures
        bytes@.len() < 20 ==> r matches Err(TurnError::InvalidResponse),
        bytes@.len() >= 20 ==> (match attribute_position(bytes@, 20, attr_type) {
            Some((start, len)) => r matches Ok(v) && v@ == bytes@.subrange(start, start + len),
            None => r matches Err(TurnError::AttributeError(m)) && m@ == "Attribute 0x"@ + hex4(
                attr_type,
            ) + " not found"@,
        }),
{
    if bytes.len() < 20 {
        return Err(TurnError::InvalidResponse);
    }
    let mut offset: usize = 20;
    while offset <= bytes.len() && bytes.len() - offset >= 4
        invariant
            20 <= offset,
            bytes@.len() >= 20,
            attribute_position(bytes@, offset as int, attr_type) == attribute_position(
                bytes@,
                20,
                attr_type,
            ),
        decreases bytes@.len() + 4 - offset,
    {
        let current_type = crate::bytes::u16_from_be(bytes[offset], bytes[offset + 1]);
        let attr_len = crate::bytes::u16_from_be(bytes[offset + 2], bytes[offset + 3]) as usize;
        offset = offset + 4;
        if attr_len > bytes.len() - offset {
            return Err(not_found_error(attr_type));
        }
        if current_type == attr_type {
            return Ok(slice_subrange(bytes, offset, offset + attr_len));
        }
        let pad = (4 - (attr_len % 4)) % 4;
        if pad > bytes.len() - (offset + attr_len) {
            return Err(not_found_error(attr_type));
        }
        offset = offset + attr_len + pad;
    }
    Err(not_found_error(attr_type))
}

/// The error reporting that no attribute of type `attr_type` was found.
fn not_found_error(attr_type: u16) -> (e: TurnError)
    ensures
        e matches TurnError::AttributeError(m) && m@ == "Attribute 0x"@ + hex4(attr_type)
            + " not found"@,
{
    let mut msg = string_from_str("Attribute 0x");
    let digits = hex4_chars(attr_type);
    push_chars(&mut msg, digits.as_slice());
    msg.append(" not found");
    TurnError::AttributeError(msg)
}

/// The relay address carried in the XOR-RELAYED-ADDRESS attribute of a response.
pub fn extract_xor_relayed_address(bytes: &[u8]) -> (r: Result<SocketAddress, TurnError>)
    ensures
        bytes@.len() >= 20 ==> (attribute_position(
            bytes@,
            20,
            TurnAttributeType::XorRelayedAddress.code(),
        ) matches Some((start, len)) && len >= 8 <==> r is Ok),
        r matches Ok(a) ==> (attribute_position(
            bytes@,
            20,
            TurnAttributeType::XorRelayedAddress.code(),
        ) matches Some((start, len)) && a.ip is V4 && a@ == (
            Seq::new(4, |i: int| bytes@[start + 4 + i] ^ magic_bytes()[i]),
            read16(bytes@[start + 2], bytes@[start + 3]) ^ MAGIC_COOKIE_HIGH,
        )),
{
    let value = match find_attribute(bytes, TurnAttributeType::XorRelayedAddress.to_u16()) {
        Ok(v) => v,
        Err(e) => {
            return Err(e);
        },
    };
    let r = decode_xor_address(value);
    proof {
        lemma_attribute_position_in_bounds(bytes@, 20, TurnAttributeType::XorRelayedAddress.code());
        if let Some((start, len)) = attribute_position(
            bytes@,
            20,
            TurnAttributeType::XorRelayedAddress.code(),
        ) {
            if len >= 8 {
                assert(value@ == bytes@.subrange(start, start + len));
                assert(value@[2] == bytes@[start + 2] && value@[3] == bytes@[start + 3]);
                assert(Seq::new(4, |i: int| value@[4 + i] ^ magic_bytes()[i]) =~= Seq::new(
                    4,
                    |i: int| bytes@[start + 4 + i] ^ magic_bytes()[i],
                ));
            }
        }
    }
    r
}

/// Classifies a response to a request: `InvalidResponse` when its type is not
/// a TURN message type; the failure that matches `error_type` when the response
/// is that error response; success otherwise.
pub fn verify_success_response(
    response: &[u8],
    error_type: TurnMessageType,
    error_msg: &str,
) -> (r: Result<(), TurnError>)
    ensures
        ({
            let t = if response@.len() < 2 {
                None
            } else {
                TurnMessageType::of_code(read16(response@[0], response@[1]))
            };
            match t {
                None => r matches Err(TurnError::InvalidResponse),
                Some(t) => if t.spec_is_error_response() && t == error_type {
                    match error_type {
                        TurnMessageType::AllocateError => r matches Err(
                            TurnError::AllocationFailed(m),
                        ) && m@ == error_msg@,
                        TurnMessageType::RefreshError => r matches Err(TurnError::RefreshFailed(m))
                            && m@ == error_msg@,
                        TurnMessageType::CreatePermissionError => r matches Err(
                            TurnError::PermissionFailed(m),
                        ) && m@ == error_msg@,
                        _ => r matches Err(TurnError::ChannelBindFailed(m)) && m@ == error_msg@,
                    }
                } else {
                    r is Ok
                },
            }
        }),
{
    let response_type = match crate::turn::message::parse_turn_message_type(response) {
        Some(t) => t,
        None => {
            return Err(TurnError::InvalidResponse);
        },
    };
    if response_type.is_error_response() && response_type == error_type {
        return Err(
            match error_type {
                TurnMessageType::AllocateError => TurnError::AllocationFailed(
                    string_from_str(error_msg),
                ),
                TurnMessageType::RefreshError => TurnError::RefreshFailed(string_from_str(error_msg)),
                TurnMessageType::CreatePermissionError => TurnError::PermissionFailed(
                    string_from_str(error_msg),
                ),
                TurnMessageType::ChannelBindError => TurnError::ChannelBindFailed(
                    string_from_str(error_msg),
                ),
                _ => TurnError::InvalidResponse,
            },
        );
    }
    Ok(())
}

/// Checks that a channel number lies in 0x4000..=0x7FFF.
pub fn validate_channel_number(channel: u16) -> (r: Result<(), TurnError>)
    ensures
        0x4000 <= channel <= 0x7FFF ==> r is Ok,
        !(0x4000 <= channel <= 0x7FFF) ==> (r matches Err(TurnError::ChannelBindFailed(m)) && m@
            == "Invalid channel number (must be 0x4000-0x7FFF)"@),
{
    if !(0x4000 <= channel && channel <= 0x7FFF) {
        return Err(
            TurnError::ChannelBindFailed(
                string_from_str("Invalid channel number (must be 0x4000-0x7FFF)"),
            ),
        );
    }
    Ok(())
}

/// Whether an allocation refreshed `elapsed_secs` seconds ago with the given
/// lifetime is within 60 seconds of expiry; never before any allocation.
pub fn needs_refresh(elapsed_secs: Option<u64>, lifetime: u32) -> (r: bool)
    ensures
        r == (match elapsed_secs {
            Some(e) => e >= (if lifetime >= 60 {
                lifetime - 60
            } else {
                0
            }),
            None => false,
        }),
{
    match elapsed_secs {
        Some(elapsed) => elapsed >= (lifetime as u64).saturating_sub(60),
        None => false,
    }
}

/// The bytes of a request of type `msg_type` carrying the USERNAME attribute.
pub open spec fn request_with_username(
    msg_type: TurnMessageType,
    transaction_id: Seq<u8>,
    username: Seq<u8>,
) -> Seq<u8> {
    with_turn_attribute(turn_header(msg_type.code(), transaction_id), ATTR_USERNAME, username)
}

/// Builds a request header followed by the USERNAME attribute.
pub fn build_request(msg_type: TurnMessageType, transaction_id: [u8; 12], username: &str) -> (msg:
    Vec<u8>)
    requires
        username.spec_bytes().len() <= usize::MAX - 64,
    ensures
        msg@ == request_with_username(msg_type, transaction_id@, username.spec_bytes()),
        msg@.len() == 24 + username.spec_bytes().len() + padding(username.spec_bytes().len()),
{
    let mut msg = build_turn_message(msg_type, transaction_id);
    add_turn_attribute(&mut msg, ATTR_USERNAME, username.as_bytes());
    msg
}

/// The Allocate request: USERNAME, REQUESTED-TRANSPORT (UDP) and LIFETIME.
pub open spec fn allocate_request(transaction_id: Seq<u8>, username: Seq<u8>, lifetime: u32) -> Seq<
    u8,
> {
    with_turn_attribute(
        with_turn_attribute(
            request_with_username(TurnMessageType::AllocateRequest, transaction_id, username),
            TurnAttributeType::RequestedTransport.code(),
            seq![TransportProtocol::Udp.number(), 0u8, 0u8, 0u8],
        ),
        TurnAttributeType::Lifetime.code(),
        be32(lifetime),
    )
}

/// A 16-bit value below 256 is written as a zero byte and itself.
proof fn lemma_be16_small(v: u16)
    requires
        v < 256,
    ensures
        be16(v) == seq![0u8, v as u8],
        v as u8 == v,
{
    assert((v >> 8u16) as u8 == 0u8 && (v as u8) as u16 == v) by (bit_vector)
        requires
            v < 256,
    ;
}

/// Appending an attribute keeps every byte of the message but the body
/// length (bytes 2 and 3), and puts the attribute's TLV after them.
proof fn lemma_appended_attribute(m: Seq<u8>, t: u16, v: Seq<u8>)
    requires
        m.len() >= 20,
    ensures
        with_turn_attribute(m, t, v).len() == m.len() + attribute_tlv(t, v).len(),
        with_turn_attribute(m, t, v).subrange(0, 2) == m.subrange(0, 2),
        with_turn_attribute(m, t, v).subrange(4, m.len() as int) == m.subrange(4, m.len() as int),
        with_turn_attribute(m, t, v).subrange(
            m.len() as int,
            m.len() + attribute_tlv(t, v).len() as int,
        ) == attribute_tlv(t, v),
{
    let w = with_turn_attribute(m, t, v);
    let appended = m + attribute_tlv(t, v);
    assert(w.subrange(0, 2) =~= m.subrange(0, 2));
    assert(w.subrange(4, m.len() as int) =~= m.subrange(4, m.len() as int));
    assert(w.subrange(m.len() as int, m.len() + attribute_tlv(t, v).len() as int) =~= attribute_tlv(t, v));
}

/// The Allocate request for a user name of at most 65535 bytes: type
/// 0x0003; after the 20-byte header the USERNAME attribute (0x0006) with the
/// name; then REQUESTED-TRANSPORT (0x0019), 4 bytes, asking for UDP (IANA
/// protocol 17 and three reserved zero bytes); then LIFETIME (0x000D), the
/// lifetime in 4 big-endian bytes; nothing after.
pub proof fn lemma_allocate_request_layout(transaction_id: Seq<u8>, username: Seq<u8>, lifetime: u32)
    requires
        transaction_id.len() == 12,
        username.len() < 65536,
    ensures
        ({
            let m = allocate_request(transaction_id, username, lifetime);
            let p: int = 24 + username.len() as int + padding(username.len()) as int;
            &&& m.len() == p + 16
            &&& m.subrange(0, 2) == seq![0x00u8, 0x03u8]
            &&& m.subrange(20, 24 + username.len() as int) == seq![0x00u8, 0x06u8] + be16(
                username.len() as u16,
            ) + username
            &&& m.subrange(p, p + 8) == seq![0x00u8, 0x19u8, 0x00u8, 0x04u8, 17u8, 0u8, 0u8, 0u8]
            &&& m.subrange(p + 8, p + 16) == seq![0x00u8, 0x0Du8, 0x00u8, 0x04u8] + be32(lifetime)
        }),
{
    let h = turn_header(TurnMessageType::AllocateRequest.code(), transaction_id);
    assert(h.len() == 20);
    let u_tlv = attribute_tlv(ATTR_USERNAME, username);
    let m1 = request_with_username(TurnMessageType::AllocateRequest, transaction_id, username);
    lemma_appended_attribute(h, ATTR_USERNAME, username);
    let tv = seq![TransportProtocol::Udp.number(), 0u8, 0u8, 0u8];
    let m2 = with_turn_attribute(m1, TurnAttributeType::RequestedTransport.code(), tv);
    lemma_appended_attribute(m1, TurnAttributeType::RequestedTransport.code(), tv);
    let lv = be32(lifetime);
    let m = with_turn_attribute(m2, TurnAttributeType::Lifetime.code(), lv);
    lemma_appended_attribute(m2, TurnAttributeType::Lifetime.code(), lv);
    let p: int = 24 + username.len() as int + padding(username.len()) as int;
    assert(u_tlv.len() == 4 + username.len() + padding(username.len()));
    assert(m1.len() == p);
    let t_tlv = attribute_tlv(TurnAttributeType::RequestedTransport.code(), tv);
    assert(t_tlv =~= seq![0x00u8, 0x19u8, 0x00u8, 0x04u8, 17u8, 0u8, 0u8, 0u8]) by {
        assert(padding(4) == 0);
        lemma_be16_small(0x0019);
        lemma_be16_small(4);
    }
    assert(m2.len() == p + 8);
    let l_tlv = attribute_tlv(TurnAttributeType::Lifetime.code(), lv);
    assert(l_tlv =~= seq![0x00u8, 0x0Du8, 0x00u8, 0x04u8] + lv) by {
        assert(padding(4) == 0);
        lemma_be16_small(0x000D);
        lemma_be16_small(4);
    }
    // The header's first two bytes survive every append.
    assert(h.subrange(0, 2) =~= seq![0x00u8, 0x03u8]) by {
        lemma_be16_small(0x0003);
    }
    // Each later append keeps what came before, past the length field.
    assert(m.subrange(p, p + 8) =~= m2.subrange(p, p + 8)) by {
        assert(m.subrange(4, p + 8) == m2.subrange(4, p + 8));
        assert forall|i: int| 0 <= i < 8 implies #[trigger] m[p + i] == m2[p + i] by {
            assert(m.subrange(4, p + 8)[p + i - 4] == m[p + i]);
            assert(m2.subrange(4, p + 8)[p + i - 4] == m2[p + i]);
        }
    }
    assert(m.subrange(20, 24 + username.len() as int) =~= m1.subrange(20, 24 + username.len() as int))
        by {
        assert forall|i: int| 0 <= i < 4 + username.len() implies #[trigger] m[20 + i] == m1[20 + i] by {
            assert(m.subrange(4, p + 8)[16 + i] == m[20 + i]);
            assert(m2.subrange(4, p + 8)[16 + i] == m2[20 + i]);
            assert(m2.subrange(4, p)[16 + i] == m2[20 + i]);
            assert(m1.subrange(4, p)[16 + i] == m1[20 + i]);
        }
    }
    assert(m1.subrange(20, 24 + username.len() as int) =~= seq![0x00u8, 0x06u8] + be16(
        username.len() as u16,
    ) + username) by {
        lemma_be16_small(0x0006);
        assert forall|i: int| 0 <= i < 4 + username.len() implies #[trigger] m1[20 + i] == u_tlv[i] by {
            assert(m1.subrange(20, p)[i] == m1[20 + i]);
        }
    }
}

/// Builds an Allocate request asking for a UDP relay with the given lifetime.
pub fn build_allocate_request(transaction_id: [u8; 12], username: &str, lifetime: u32) -> (msg: Vec<
    u8,
>)
    requires
        username.spec_bytes().len() <= usize::MAX - 64,
    ensures
        msg@ == allocate_request(transaction_id@, username.spec_bytes(), lifetime),
{
    let mut msg = build_request(TurnMessageType::AllocateRequest, transaction_id, username);
    let transport = TransportProtocol::Udp.to_u8();
    let transport_value = [transport, 0u8, 0u8, 0u8];
    add_turn_attribute(
        &mut msg,
        TurnAttributeType::RequestedTransport.to_u16(),
        transport_value.as_slice(),
    );
    assert(transport_value@ =~= seq![TransportProtocol::Udp.number(), 0u8, 0u8, 0u8]);
    let lifetime_value = lifetime_bytes(lifetime);
    add_turn_attribute(&mut msg, TurnAttributeType::Lifetime.to_u16(), lifetime_value.as_slice());
    msg
}

/// The big-endian bytes of a lifetime.
fn lifetime_bytes(lifetime: u32) -> (r: Vec<u8>)
    ensures
        r@ == be32(lifetime),
{
    let mut r: Vec<u8> = Vec::new();
    crate::bytes::push_u32(&mut r, lifetime);
    assert(r@ =~= be32(lifetime));
    r
}

/// Builds a Refresh request with the given lifetime (0 deallocates).
pub fn build_refresh_request(transaction_id: [u8; 12], username: &str, lifetime: u32) -> (msg: Vec<
    u8,
>)
    requires
        username.spec_bytes().len() <= usize::MAX - 64,
    ensures
        msg@ == with_turn_attribute(
            request_with_username(TurnMessageType::RefreshRequest, transaction_id@, username.spec_bytes()),
            TurnAttributeType::Lifetime.code(),
            be32(lifetime),
        ),
{
    let mut msg = build_request(TurnMessageType::RefreshRequest, transaction_id, username);
    let lifetime_value = lifetime_bytes(lifetime);
    add_turn_attribute(&mut msg, TurnAttributeType::Lifetime.to_u16(), lifetime_value.as_slice());
    msg
}

/// Builds a CreatePermission request for a peer address.
pub fn build_create_permission_request(
    transaction_id: [u8; 12],
    username: &str,
    peer_addr: &SocketAddress,
) -> (msg: Vec<u8>)
    requires
        username.spec_bytes().len() <= usize::MAX - 64,
    ensures
        msg@ == with_turn_attribute(
            request_with_username(
                TurnMessageType::CreatePermissionRequest,
                transaction_id@,
                username.spec_bytes(),
            ),
            TurnAttributeType::XorPeerAddress.code(),
            xor_address_value(*peer_addr),
        ),
{
    let mut msg = build_request(TurnMessageType::CreatePermissionRequest, transaction_id, username);
    let peer = encode_xor_address(peer_addr);
    add_turn_attribute(&mut msg, TurnAttributeType::XorPeerAddress.to_u16(), peer.as_slice());
    msg
}

/// Builds a ChannelBind request: CHANNEL-NUMBER (the channel and two reserved
/// zero bytes) followed by XOR-PEER-ADDRESS.
pub fn build_channel_bind_request(
    transaction_id: [u8; 12],
    username: &str,
    peer_addr: &SocketAddress,
    channel: u16,
) -> (msg: Vec<u8>)
    requires
        username.spec_bytes().len() <= usize::MAX - 64,
    ensures
        msg@ == with_turn_attribute(
            with_turn_attribute(
                request_with_username(
                    TurnMessageType::ChannelBindRequest,
                    transaction_id@,
                    username.spec_bytes(),
                ),
                TurnAttributeType::ChannelNumber.code(),
                be16(channel) + seq![0u8, 0u8],
            ),
            TurnAttributeType::XorPeerAddress.code(),
            xor_address_value(*peer_addr),
        ),
{
    let mut msg = build_request(TurnMessageType::ChannelBindRequest, transaction_id, username);
    let channel_bytes = u16_to_be(channel);
    let channel_value = [channel_bytes[0], channel_bytes[1], 0u8, 0u8];
    assert(channel_value@ =~= be16(channel) + seq![0u8, 0u8]);
    add_turn_attribute(
        &mut msg,
        TurnAttributeType::ChannelNumber.to_u16(),
        channel_value.as_slice(),
    );
    let peer = encode_xor_address(peer_addr);
    add_turn_attribute(&mut msg, TurnAttributeType::XorPeerAddress.to_u16(), peer.as_slice());
    msg
}

/// Builds a Send indication carrying `data` to a peer (no USERNAME).
pub fn build_send_indication(transaction_id: [u8; 12], data: &[u8], peer_addr: &SocketAddress) -> (msg:
    Vec<u8>)
    requires
        data@.len() <= usize::MAX - 64,
    ensures
        msg@ == with_turn_attribute(
            with_turn_attribute(
                turn_header(TurnMessageType::SendIndication.code(), transaction_id@),
                TurnAttributeType::XorPeerAddress.code(),
                xor_address_value(*peer_addr),
            ),
            TurnAttributeType::Data.code(),
            data@,
        ),
{
    let mut msg = build_turn_message(TurnMessageType::SendIndication, transaction_id);
    let peer = encode_xor_address(peer_addr);
    add_turn_attribute(&mut msg, TurnAttributeType::XorPeerAddress.to_u16(), peer.as_slice());
    add_turn_attribute(&mut msg, TurnAttributeType::Data.to_u16(), data);
    msg
}

} // verus!
