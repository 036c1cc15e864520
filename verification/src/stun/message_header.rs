//! The fixed 20-byte STUN message header (RFC 5389 section 6).
use crate::bytes::{
    be16, be32, lemma_read16_be16, lemma_read32_be32, push_all, push_u16, push_u32, read16, read32,
    u16_from_be, u32_from_be,
};
use crate::stun::errors::StunError;
use crate::stun::message_type::MessageType;
use vstd::prelude::*;

verus! {

/// Magic cookie value defined in RFC 5389.
pub const MAGIC_COOKIE: u32 = 0x2112A442;

/// STUN message header according to RFC 5389: type (2 bytes), body length
/// (2 bytes), magic cookie (4 bytes) and transaction ID (12 bytes).
#[derive(Debug, Clone, PartialEq, Eq)]
pub struct MessageHeader {
    /// The type of the message
    pub message_type: MessageType,
    /// Length of the message body (excluding the header)
    pub message_length: u16,
    /// Unique transaction identifier
    pub transaction_id: [u8; 12],
}

/// The 20 header bytes for the given type code, body length and transaction ID.
pub open spec fn header_bytes(type_code: u16, length: u16, transaction_id: Seq<u8>) -> Seq<u8> {
    be16(type_code) + be16(length) + be32(MAGIC_COOKIE) + transaction_id
}

/// The error that decoding `bytes` as a header reports, or `None` when the
/// header is well formed; the checks come in this order.
pub open spec fn header_error(bytes: Seq<u8>) -> Option<StunError> {
    if bytes.len() < 20 {
        Some(StunError::MessageTooShort)
    } else if MessageType::of_code(read16(bytes[0], bytes[1])) is None {
        Some(StunError::InvalidMessageType(read16(bytes[0], bytes[1])))
    } else if read32(bytes[4], bytes[5], bytes[6], bytes[7]) != MAGIC_COOKIE {
        Some(StunError::InvalidMagicCookie)
    } else {
        None
    }
}

/// `h` carries the type, body length and transaction ID written in the
/// first 20 bytes of `bytes`.
pub open spec fn header_read_from(h: MessageHeader, bytes: Seq<u8>) -> bool {
    &&& bytes.len() >= 20
    &&& MessageType::of_code(read16(bytes[0], bytes[1])) == Some(h.message_type)
    &&& h.message_length == read16(bytes[2], bytes[3])
    &&& h.transaction_id@ == bytes.subrange(8, 20)
}

/// What decoding `bytes` as a header yields.
pub open spec fn header_decodes_to(bytes: Seq<u8>, r: Result<MessageHeader, StunError>) -> bool {
    match header_error(bytes) {
        Some(e) => r == Err::<MessageHeader, StunError>(e),
        None => r is Ok && header_read_from(r->Ok_0, bytes),
    }
}

impl MessageHeader {
    /// Size of the STUN message header in bytes.
    pub const SIZE: usize = 20;

    /// The encoded header.
    pub open spec fn encoding(self) -> Seq<u8> {
        header_bytes(self.message_type.code(), self.message_length, self.transaction_id@)
    }

    /// Creates a header with a zero body length.
    pub fn new(message_type: MessageType, transaction_id: [u8; 12]) -> (h: Self)
        ensures
            h.message_type == message_type,
            h.message_length == 0,
            h.transaction_id == transaction_id,
    {
        Self { message_type, message_length: 0, transaction_id }
    }

    /// Encodes the header to its 20 bytes.
    pub fn encode(&self) -> (bytes: Vec<u8>)
        ensures
            bytes@ == self.encoding(),
            bytes@.len() == 20,
    {
        let mut bytes: Vec<u8> = Vec::with_capacity(Self::SIZE);
        push_u16(&mut bytes, self.message_type.to_u16());
        push_u16(&mut bytes, self.message_length);
        push_u32(&mut bytes, MAGIC_COOKIE);
        push_all(&mut bytes, self.transaction_id.as_slice());
        bytes
    }

    /// Decodes a header from the first 20 bytes of `bytes`.
    pub fn decode(bytes: &[u8]) -> (r: Result<Self, StunError>)
        ensures
            header_decodes_to(bytes@, r),
    {
        if bytes.len() < Self::SIZE {
            return Err(StunError::MessageTooShort);
        }
        let msg_type_value = u16_from_be(bytes[0], bytes[1]);
        let message_type = MessageType::from_u16(msg_type_value)?;
        let message_length = u16_from_be(bytes[2], bytes[3]);
        let magic = u32_from_be(bytes[4], bytes[5], bytes[6], bytes[7]);
        if magic != MAGIC_COOKIE {
            return Err(StunError::InvalidMagicCookie);
        }
        let transaction_id = [
            bytes[8],
            bytes[9],
            bytes[10],
            bytes[11],
            bytes[12],
            bytes[13],
            bytes[14],
            bytes[15],
            bytes[16],
            bytes[17],
            bytes[18],
            bytes[19],
        ];
        assert(transaction_id@ =~= bytes@.subrange(8, 20));
        Ok(Self { message_type, message_length, transaction_id })
    }

    /// Updates the message length field.
    pub fn set_message_length(&mut self, length: u16)
        ensures
            final(self).message_length == length,
            final(self).message_type == old(self).message_type,
            final(self).transaction_id == old(self).transaction_id,
    {
        self.message_length = length;
    }

    /// Decoding an encoded header gives back its type, length and transaction ID.
    pub proof fn lemma_decode_encode(h: MessageHeader)
        ensures
            header_decodes_to(h.encoding(), Ok(h)),
    {
        let e = h.encoding();
        lemma_read16_be16(h.message_type.code());
        lemma_read16_be16(h.message_length);
        lemma_read32_be32(MAGIC_COOKIE);
        MessageType::lemma_code_roundtrip(h.message_type, 0);
        assert(e.subrange(8, 20) =~= h.transaction_id@);
    }
}

} // verus!
