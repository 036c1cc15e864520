//! Building and inspecting raw TURN messages (STUN framing, TURN types).
use crate::bytes::{be16, be32, lemma_read16_be16, push_all, push_u16, push_u32, push_zeros, read16};
use crate::clock::{transaction_id_from_nanos, unix_time_nanos};
use crate::stun::message::{attribute_tlv, padding};
use crate::stun::message_header::MAGIC_COOKIE;
use crate::turn::turn_message_type::TurnMessageType;
use vstd::prelude::*;

verus! {

/// The 20-byte header of a TURN message with an empty body.
pub open spec fn turn_header(type_code: u16, transaction_id: Seq<u8>) -> Seq<u8> {
    be16(type_code) + be16(0) + be32(MAGIC_COOKIE) + transaction_id
}

/// `message` with its body-length field (bytes 2..4) set to `length`.
pub open spec fn with_body_length(message: Seq<u8>, length: u16) -> Seq<u8> {
    message.update(2, be16(length)[0]).update(3, be16(length)[1])
}

/// `message` with one attribute appended and the body length updated to
/// cover everything after the 20-byte header (truncated to 16 bits).
pub open spec fn with_turn_attribute(message: Seq<u8>, attr_type: u16, value: Seq<u8>) -> Seq<u8> {
    let appended = message + attribute_tlv(attr_type, value);
    with_body_length(appended, (appended.len() - 20) as u16)
}

/// TURN message structure.
#[derive(Debug, Clone)]
pub struct TurnMessage {
    /// The type of TURN message
    pub message_type: TurnMessageType,
    /// 96-bit transaction identifier
    pub transaction_id: [u8; 12],
    /// Raw message bytes (including header and attributes)
    pub raw_bytes: Vec<u8>,
}

impl TurnMessage {
    /// Creates a new TURN message with the specified type and transaction ID.
    pub fn new(message_type: TurnMessageType, transaction_id: [u8; 12]) -> (m: Self)
        ensures
            m.message_type == message_type,
            m.transaction_id == transaction_id,
            m.raw_bytes@ == turn_header(message_type.code(), transaction_id@),
    {
        let raw_bytes = build_turn_message(message_type, transaction_id);
        Self { message_type, transaction_id, raw_bytes }
    }

    /// Returns a reference to the raw message bytes.
    pub fn as_bytes(&self) -> (b: &[u8])
        ensures
            b@ == self.raw_bytes@,
    {
        self.raw_bytes.as_slice()
    }

    /// Adds an attribute to this TURN message.
    pub fn add_attribute(&mut self, attr_type: u16, value: &[u8])
        requires
            old(self).raw_bytes@.len() + 4 + value@.len() + padding(value@.len()) >= 20,
            old(self).raw_bytes@.len() + value@.len() + 8 <= usize::MAX,
        ensures
            final(self).raw_bytes@ == with_turn_attribute(old(self).raw_bytes@, attr_type, value@),
            final(self).message_type == old(self).message_type,
            final(self).transaction_id == old(self).transaction_id,
    {
        add_turn_attribute(&mut self.raw_bytes, attr_type, value);
    }
}

/// A transaction identifier made of the low 96 bits of the current Unix time
/// in nanoseconds.
pub fn generate_transaction_id() -> (id: [u8; 12]) {
    let timestamp = unix_time_nanos();
    transaction_id_from_nanos(timestamp)
}

/// Builds the 20-byte header of a TURN message with an empty body.
pub fn build_turn_message(message_type: TurnMessageType, transaction_id: [u8; 12]) -> (bytes: Vec<
    u8,
>)
    ensures
        bytes@ == turn_header(message_type.code(), transaction_id@),
        bytes@.len() == 20,
{
    let mut bytes: Vec<u8> = Vec::with_capacity(20);
    push_u16(&mut bytes, message_type.to_u16());
    push_u16(&mut bytes, 0u16);
    push_u32(&mut bytes, MAGIC_COOKIE);
    push_all(&mut bytes, transaction_id.as_slice());
    bytes
}

/// Appends an attribute in TLV form, padded to 4 bytes, and rewrites the
/// body-length field to the length after the 20-byte header.
pub fn add_turn_attribute(message: &mut Vec<u8>, attr_type: u16, value: &[u8])
    requires
        old(message)@.len() + 4 + value@.len() + padding(value@.len()) >= 20,
        old(message)@.len() + value@.len() + 8 <= usize::MAX,
    ensures
        final(message)@ == with_turn_attribute(old(message)@, attr_type, value@),
{
    let padding = (4 - (value.len() % 4)) % 4;
    let ghost before = message@;
    push_u16(message, attr_type);
    let length = value.len() as u16;
    push_u16(message, length);
    push_all(message, value);
    push_zeros(message, padding);
    assert(message@ =~= before + attribute_tlv(attr_type, value@));
    let attr_len = (message.len() - 20) as u16;
    message.set(2, (attr_len >> 8u16) as u8);
    message.set(3, attr_len as u8);
}

/// Parses the TURN message type from the first two bytes of a message.
pub fn parse_turn_message_type(bytes: &[u8]) -> (r: Option<TurnMessageType>)
    ensures
        r == (if bytes@.len() < 2 {
            None
        } else {
            TurnMessageType::of_code(read16(bytes@[0], bytes@[1]))
        }),
{
    if bytes.len() < 2 {
        return None;
    }
    let type_value = crate::bytes::u16_from_be(bytes[0], bytes[1]);
    TurnMessageType::from_u16(type_value)
}

/// Extracts the transaction ID (bytes 8..20) from a TURN message.
pub fn extract_transaction_id(bytes: &[u8]) -> (r: Option<[u8; 12]>)
    ensures
        bytes@.len() < 20 ==> r is None,
        bytes@.len() >= 20 ==> r is Some && r->Some_0@ == bytes@.subrange(8, 20),
{
    if bytes.len() < 20 {
        return None;
    }
    let id = [
        bytes[8],
        bytes[9],
        bytes[10],
        bytes[11],
        bytes[12],
        bytes[13],
        bytes[14],
        bytes[15],
        bytes[16],
        bytes[17],
        bytes[18],
        bytes[19],
    ];
    assert(id@ =~= bytes@.subrange(8, 20));
    Some(id)
}

/// Adding an attribute to a message built by `build_turn_message` keeps the
/// type and transaction ID that the header reads back, and sets the body
/// length to exactly the attribute's padded size.
pub proof fn lemma_attribute_keeps_header(
    message_type: TurnMessageType,
    transaction_id: Seq<u8>,
    attr_type: u16,
    value: Seq<u8>,
)
    requires
        transaction_id.len() == 12,
        value.len() + 8 <= 65535,
    ensures
        ({
            let m = with_turn_attribute(
                turn_header(message_type.code(), transaction_id),
                attr_type,
                value,
            );
            &&& TurnMessageType::of_code(read16(m[0], m[1])) == Some(message_type)
            &&& m.subrange(8, 20) == transaction_id
            &&& read16(m[2], m[3]) as nat == 4 + value.len() + padding(value.len())
        }),
{
    let h = turn_header(message_type.code(), transaction_id);
    let appended = h + attribute_tlv(attr_type, value);
    let m = with_turn_attribute(h, attr_type, value);
    let n = (appended.len() - 20) as u16;
    lemma_read16_be16(message_type.code());
    lemma_read16_be16(n);
    TurnMessageType::lemma_code_roundtrip(message_type, 0);
    assert(appended.len() - 20 == 4 + value.len() + padding(value.len()));
    assert(m[0] == h[0] && m[1] == h[1]);
    assert(m[2] == be16(n)[0] && m[3] == be16(n)[1]);
    assert(m.subrange(8, 20) =~= transaction_id);
}

} // verus!
