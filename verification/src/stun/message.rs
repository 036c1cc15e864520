//! A complete STUN message: the header followed by TLV-encoded attributes.
use crate::bytes::{be16, lemma_read16_be16, push_all, push_u16, push_zeros, zeros};
use crate::stun::attribute_type::AttributeType;
use crate::stun::errors::StunError;
use crate::stun::message_header::{header_error, header_read_from, MessageHeader};
use crate::stun::message_type::MessageType;
use vstd::prelude::*;

verus! {

/// The number of zero bytes that pad a value of `len` bytes to a 4-byte boundary.
pub open spec fn padding(len: nat) -> nat {
    ((4 - (len % 4) as int) % 4) as nat
}

/// One attribute in type-length-value form: the type, the unpadded value
/// length (truncated to 16 bits), the value, and zero padding to 4 bytes.
pub open spec fn attribute_tlv(type_code: u16, value: Seq<u8>) -> Seq<u8> {
    be16(type_code) + be16(value.len() as u16) + value + zeros(padding(value.len()))
}

/// Attributes in type-length-value form, one after the other.
pub open spec fn tlv_list(attrs: Seq<(u16, Seq<u8>)>) -> Seq<u8>
    decreases attrs.len(),
{
    if attrs.len() == 0 {
        Seq::empty()
    } else {
        attribute_tlv(attrs[0].0, attrs[0].1) + tlv_list(attrs.drop_first())
    }
}

/// Where an attribute of at most 65535 bytes stands in a byte string at
/// `offset`, its type is read from its first two bytes, its value length from
/// the next two, its value follows, and the next attribute starts right after
/// its padding.
pub proof fn lemma_tlv_fields(b: Seq<u8>, offset: int, t: u16, v: Seq<u8>)
    requires
        0 <= offset,
        v.len() < 65536,
        offset + attribute_tlv(t, v).len() <= b.len(),
        b.subrange(offset, offset + attribute_tlv(t, v).len()) == attribute_tlv(t, v),
    ensures
        attribute_tlv(t, v).len() == 4 + v.len() + padding(v.len()),
        crate::bytes::read16(b[offset], b[offset + 1]) == t,
        crate::bytes::read16(b[offset + 2], b[offset + 3]) == v.len(),
        b.subrange(offset + 4, offset + 4 + v.len()) == v,
{
    let tlv = attribute_tlv(t, v);
    assert(tlv.len() == 4 + v.len() + padding(v.len()));
    assert(b[offset] == tlv[0] && b[offset + 1] == tlv[1]);
    assert(b[offset + 2] == tlv[2] && b[offset + 3] == tlv[3]);
    assert(tlv[0] == be16(t)[0] && tlv[1] == be16(t)[1]);
    assert(tlv[2] == be16(v.len() as u16)[0] && tlv[3] == be16(v.len() as u16)[1]);
    lemma_read16_be16(t);
    lemma_read16_be16(v.len() as u16);
    assert forall|i: int| 0 <= i < v.len() implies b.subrange(offset + 4, offset + 4 + v.len())[i]
        == v[i] by {
        assert(b[offset + 4 + i] == tlv[4 + i]);
    }
    assert(b.subrange(offset + 4, offset + 4 + v.len()) =~= v);
}

/// The attributes after the first one start right after it.
pub proof fn lemma_tlv_list_split(attrs: Seq<(u16, Seq<u8>)>)
    requires
        attrs.len() > 0,
    ensures
        tlv_list(attrs) == attribute_tlv(attrs[0].0, attrs[0].1) + tlv_list(attrs.drop_first()),
{
}

/// What decoding `bytes` as a message yields: the header's error if it has
/// one; `MessageTooShort` when the body announced by the header is not all
/// there; otherwise the header and the announced body.
pub open spec fn message_decodes_to(bytes: Seq<u8>, r: Result<Message, StunError>) -> bool {
    match header_error(bytes) {
        Some(e) => r == Err::<Message, StunError>(e),
        None => {
            let total = 20 + crate::bytes::read16(bytes[2], bytes[3]);
            if bytes.len() < total {
                r == Err::<Message, StunError>(StunError::MessageTooShort)
            } else {
                &&& r is Ok
                &&& header_read_from(r->Ok_0.header, bytes)
                &&& r->Ok_0.attributes@ == bytes.subrange(20, total)
            }
        },
    }
}

/// A complete STUN message according to RFC 5389.
#[derive(Debug, Clone)]
pub struct Message {
    /// The message header
    pub header: MessageHeader,
    /// Encoded attributes (type-length-value format)
    pub attributes: Vec<u8>,
}

impl Message {
    /// The encoded message: header, then attributes.
    pub open spec fn encoding(self) -> Seq<u8> {
        self.header.encoding() + self.attributes@
    }

    /// Creates a new message with no attributes.
    pub fn new(message_type: MessageType, transaction_id: [u8; 12]) -> (m: Self)
        ensures
            m.header.message_type == message_type,
            m.header.message_length == 0,
            m.header.transaction_id == transaction_id,
            m.attributes@.len() == 0,
    {
        Self { header: MessageHeader::new(message_type, transaction_id), attributes: Vec::new() }
    }

    /// Appends an attribute, padded to a 4-byte boundary, and sets the header's
    /// body length to the new attributes length (truncated to 16 bits).
    pub fn add_attribute(&mut self, attr_type: AttributeType, value: &[u8])
        requires
            old(self).attributes@.len() + value@.len() + 8 <= usize::MAX,
        ensures
            final(self).attributes@ == old(self).attributes@ + attribute_tlv(
                attr_type.code(),
                value@,
            ),
            final(self).header.message_length == final(self).attributes@.len() as u16,
            final(self).header.message_type == old(self).header.message_type,
            final(self).header.transaction_id == old(self).header.transaction_id,
    {
        let padding = (4 - (value.len() % 4)) % 4;
        let ghost before = self.attributes@;
        push_u16(&mut self.attributes, attr_type.to_u16());
        let length = value.len() as u16;
        push_u16(&mut self.attributes, length);
        push_all(&mut self.attributes, value);
        push_zeros(&mut self.attributes, padding);
        assert(self.attributes@ =~= before + attribute_tlv(attr_type.code(), value@));
        let new_length = self.attributes.len() as u16;
        self.header.set_message_length(new_length);
    }

    /// Encodes the complete message.
    pub fn encode(&self) -> (bytes: Vec<u8>)
        ensures
            bytes@ == self.encoding(),
    {
        let mut bytes = self.header.encode();
        push_all(&mut bytes, self.attributes.as_slice());
        bytes
    }

    /// Decodes a message: the header, then the body it announces.
    pub fn decode(bytes: &[u8]) -> (r: Result<Self, StunError>)
        ensures
            message_decodes_to(bytes@, r),
    {
        let header = MessageHeader::decode(bytes)?;
        let total_len = MessageHeader::SIZE + header.message_length as usize;
        if bytes.len() < total_len {
            return Err(StunError::MessageTooShort);
        }
        let attributes = crate::bytes::copy_range(bytes, MessageHeader::SIZE, total_len);
        Ok(Self { header, attributes })
    }

    /// Gets the message type.
    pub fn message_type(&self) -> (t: MessageType)
        ensures
            t == self.header.message_type,
    {
        self.header.message_type
    }

    /// Gets the transaction ID.
    pub fn transaction_id(&self) -> (id: [u8; 12])
        ensures
            id == self.header.transaction_id,
    {
        self.header.transaction_id
    }

    /// Gets the attributes as a byte slice.
    pub fn attributes_bytes(&self) -> (b: &[u8])
        ensures
            b@ == self.attributes@,
    {
        self.attributes.as_slice()
    }

    /// A message whose header announces exactly its attributes decodes from
    /// its own encoding to the same header and attributes.
    pub proof fn lemma_decode_encode(m: Message)
        requires
            m.header.message_length as nat == m.attributes@.len(),
        ensures
            message_decodes_to(
                m.encoding(),
                Ok(m),
            ),
    {
        let e = m.encoding();
        let he = m.header.encoding();
        MessageHeader::lemma_decode_encode(m.header);
        assert forall|i: int| 0 <= i < 20 implies e[i] == he[i] by {}
        assert(e.subrange(8, 20) =~= he.subrange(8, 20));
        assert(header_error(e) == header_error(he));
        lemma_read16_be16(m.header.message_length);
        assert(e.subrange(20, e.len() as int) =~= m.attributes@);
    }
}

} // verus!
