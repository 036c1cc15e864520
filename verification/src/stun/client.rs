//! The checks a STUN client applies to a Binding response, and the search for
//! the reflexive address among its attributes.
use crate::address::{address_option_view, SocketAddress};
use crate::bytes::{read16, same_bytes};
use crate::stun::attribute_type::AttributeType;
use crate::stun::message::{
    attribute_tlv, lemma_tlv_fields, lemma_tlv_list_split, message_decodes_to, padding, tlv_list,
    Message,
};
use crate::stun::message_header::header_error;
use crate::stun::message_type::MessageType;
use crate::stun::xor_mapped_address::{decode, xor_mapped_address};
use vstd::prelude::*;

verus! {

/// Why a Binding response yields no reflexive address.
#[derive(Debug, Clone, Copy, PartialEq, Eq, Structural)]
pub enum BindingResponseError {
    /// The bytes are not a STUN message.
    Undecodable,
    /// The message is not a Binding success response.
    NotBindingResponse,
    /// The response answers another transaction.
    TransactionIdMismatch,
    /// No XOR-MAPPED-ADDRESS attribute decodes to an address.
    NoReflexiveAddress,
}

/// The first XOR-MAPPED-ADDRESS attribute at or after `offset` whose value
/// decodes to an address. Attributes are walked in TLV form, each value padded
/// to 4 bytes; the walk stops at an attribute whose value runs past the end.
pub open spec fn reflexive_in_attributes(attrs: Seq<u8>, offset: int, transaction_id: Seq<u8>) -> Option<
    (Seq<u8>, u16),
>
    decreases attrs.len() - offset,
{
    if offset < 0 || offset + 4 > attrs.len() {
        None
    } else {
        let attr_type = read16(attrs[offset], attrs[offset + 1]);
        let attr_len = read16(attrs[offset + 2], attrs[offset + 3]) as int;
        let start = offset + 4;
        if start + attr_len > attrs.len() {
            None
        } else if attr_type == AttributeType::XorMappedAddress.code() && xor_mapped_address(
            attrs.subrange(start, start + attr_len),
            transaction_id,
        ) is Some {
            xor_mapped_address(attrs.subrange(start, start + attr_len), transaction_id)
        } else if start + attr_len + padding(attr_len as nat) > attrs.len() {
            None
        } else {
            reflexive_in_attributes(
                attrs,
                start + attr_len + padding(attr_len as nat),
                transaction_id,
            )
        }
    }
}

/// No attribute of the list is an XOR-MAPPED-ADDRESS whose value decodes
/// for `transaction_id`, and each value fits a 16-bit length.
pub open spec fn no_reflexive_among(attrs: Seq<(u16, Seq<u8>)>, transaction_id: Seq<u8>) -> bool {
    forall|k: int|
        0 <= k < attrs.len() ==> (#[trigger] attrs[k]).1.len() < 65536 && !(attrs[k].0 == 0x0020
            && xor_mapped_address(attrs[k].1, transaction_id) is Some)
}

/// The walk at an attribute in TLV form: the value it decodes is the one
/// after the attribute's 4-byte header; if it does not yield an address, the
/// walk goes on right after the attribute.
proof fn lemma_reflexive_step(b: Seq<u8>, offset: int, tid: Seq<u8>, t: u16, v: Seq<u8>)
    requires
        0 <= offset,
        v.len() < 65536,
        offset + attribute_tlv(t, v).len() <= b.len(),
        b.subrange(offset, offset + attribute_tlv(t, v).len()) == attribute_tlv(t, v),
    ensures
        reflexive_in_attributes(b, offset, tid) == (if t == 0x0020 && xor_mapped_address(v, tid) is Some {
            xor_mapped_address(v, tid)
        } else {
            reflexive_in_attributes(b, offset + attribute_tlv(t, v).len(), tid)
        }),
{
    lemma_tlv_fields(b, offset, t, v);
}

/// Past attributes that yield no address, the walk yields the address that
/// the XOR-MAPPED-ADDRESS value `v` decodes to.
proof fn lemma_reflexive_after(
    b: Seq<u8>,
    offset: int,
    tid: Seq<u8>,
    before: Seq<(u16, Seq<u8>)>,
    v: Seq<u8>,
)
    requires
        0 <= offset,
        no_reflexive_among(before, tid),
        v.len() < 65536,
        xor_mapped_address(v, tid) is Some,
        offset + tlv_list(before).len() + attribute_tlv(0x0020, v).len() <= b.len(),
        b.subrange(offset, offset + tlv_list(before).len() + attribute_tlv(0x0020, v).len())
            == tlv_list(before) + attribute_tlv(0x0020, v),
    ensures
        reflexive_in_attributes(b, offset, tid) == xor_mapped_address(v, tid),
    decreases before.len(),
{
    let whole = tlv_list(before) + attribute_tlv(0x0020, v);
    if before.len() == 0 {
        assert(tlv_list(before) =~= Seq::<u8>::empty());
        assert(b.subrange(offset, offset + attribute_tlv(0x0020, v).len()) =~= attribute_tlv(
            0x0020,
            v,
        ));
        lemma_reflexive_step(b, offset, tid, 0x0020, v);
    } else {
        let (t0, v0) = before[0];
        let first = attribute_tlv(t0, v0);
        let rest = before.drop_first();
        lemma_tlv_list_split(before);
        assert(before[0].1.len() < 65536);
        assert(b.subrange(offset, offset + first.len()) =~= whole.subrange(0, first.len() as int));
        assert(whole.subrange(0, first.len() as int) =~= first);
        lemma_reflexive_step(b, offset, tid, t0, v0);
        assert(no_reflexive_among(rest, tid)) by {
            assert forall|k: int| 0 <= k < rest.len() implies (#[trigger] rest[k]).1.len() < 65536
                && !(rest[k].0 == 0x0020 && xor_mapped_address(rest[k].1, tid) is Some) by {
                assert(rest[k] == before[k + 1]);
            }
        }
        let o2 = offset + first.len();
        assert(b.subrange(o2, o2 + tlv_list(rest).len() + attribute_tlv(0x0020, v).len())
            =~= tlv_list(rest) + attribute_tlv(0x0020, v)) by {
            let tail = tlv_list(rest) + attribute_tlv(0x0020, v);
            assert(whole =~= first + tail);
            let n = offset + tlv_list(before).len() + attribute_tlv(0x0020, v).len();
            assert forall|i: int| 0 <= i < tail.len() implies b[o2 + i] == tail[i] by {
                assert(b.subrange(offset, n)[first.len() + i] == b[o2 + i]);
                assert(whole[first.len() + i] == tail[i]);
            }
        }
        lemma_reflexive_after(b, o2, tid, rest, v);
    }
}

/// Attributes that carry, after others that yield no address, an
/// XOR-MAPPED-ADDRESS attribute (type 0x0020) whose value decodes to an
/// address yield that address: the value decoded is the one that follows the
/// attribute's 4-byte type and length, whatever comes after it.
pub proof fn lemma_reflexive_found(
    before: Seq<(u16, Seq<u8>)>,
    v: Seq<u8>,
    after: Seq<u8>,
    transaction_id: Seq<u8>,
)
    requires
        no_reflexive_among(before, transaction_id),
        v.len() < 65536,
        xor_mapped_address(v, transaction_id) is Some,
    ensures
        AttributeType::XorMappedAddress.code() == 0x0020,
        reflexive_in_attributes(
            tlv_list(before) + attribute_tlv(0x0020, v) + after,
            0,
            transaction_id,
        ) == xor_mapped_address(v, transaction_id),
{
    let b = tlv_list(before) + attribute_tlv(0x0020, v) + after;
    let n: int = tlv_list(before).len() as int + attribute_tlv(0x0020, v).len() as int;
    assert(b.subrange(0, n) =~= tlv_list(before) + attribute_tlv(0x0020, v));
    lemma_reflexive_after(b, 0, transaction_id, before, v);
}

/// Extracts the reflexive address from a Binding response's attributes.
pub fn extract_reflexive_address(response: &Message) -> (r: Option<SocketAddress>)
    ensures
        address_option_view(r) == reflexive_in_attributes(
            response.attributes@,
            0,
            response.header.transaction_id@,
        ),
{
    let attrs = response.attributes_bytes();
    let attrs_len = attrs.len();
    let transaction_id = response.transaction_id();
    let mut offset: usize = 0;
    while offset <= attrs_len && attrs_len - offset >= 4
        invariant
            attrs@ == response.attributes@,
            attrs_len == attrs@.len(),
            transaction_id == response.header.transaction_id,
            reflexive_in_attributes(attrs@, offset as int, transaction_id@)
                == reflexive_in_attributes(attrs@, 0, transaction_id@),
        decreases attrs_len + 4 - offset,
    {
        let attr_type = crate::bytes::u16_from_be(attrs[offset], attrs[offset + 1]);
        let attr_length = crate::bytes::u16_from_be(attrs[offset + 2], attrs[offset + 3]) as usize;
        offset = offset + 4;
        if attr_length > attrs_len - offset {
            assert(reflexive_in_attributes(attrs@, (offset - 4) as int, transaction_id@) is None);
            return None;
        }
        if attr_type == AttributeType::XorMappedAddress.to_u16() {
            let attr_value = crate::bytes::copy_range(attrs, offset, offset + attr_length);
            let found = decode(attr_value.as_slice(), &transaction_id);
            if found.is_some() {
                return found;
            }
        }
        let padding_len = (4 - (attr_length % 4)) % 4;
        if padding_len > attrs_len - (offset + attr_length) {
            assert(reflexive_in_attributes(
                attrs@,
                (offset + attr_length + padding_len) as int,
                transaction_id@,
            ) is None);
            return None;
        }
        offset = offset + attr_length + padding_len;
    }
    None
}

/// The reflexive address that a Binding response carries for the request
/// with transaction ID `request_id`: the response must decode, be a Binding
/// success response, answer the same transaction, and hold an
/// XOR-MAPPED-ADDRESS attribute that decodes.
pub fn binding_response_address(request_id: &[u8; 12], response_bytes: &[u8]) -> (r: Result<
    SocketAddress,
    BindingResponseError,
>)
    ensures
        ({
            let b = response_bytes@;
            if header_error(b) is Some || b.len() < 20 + read16(b[2], b[3]) {
                r == Err::<SocketAddress, BindingResponseError>(
                    BindingResponseError::Undecodable,
                )
            } else if MessageType::of_code(read16(b[0], b[1])) != Some(MessageType::Response) {
                r == Err::<SocketAddress, BindingResponseError>(
                    BindingResponseError::NotBindingResponse,
                )
            } else if b.subrange(8, 20) != request_id@ {
                r == Err::<SocketAddress, BindingResponseError>(
                    BindingResponseError::TransactionIdMismatch,
                )
            } else {
                match reflexive_in_attributes(
                    b.subrange(20, 20 + read16(b[2], b[3])),
                    0,
                    request_id@,
                ) {
                    None => r == Err::<SocketAddress, BindingResponseError>(
                        BindingResponseError::NoReflexiveAddress,
                    ),
                    Some(v) => r is Ok && r->Ok_0@ == v,
                }
            }
        }),
{
    let response = match Message::decode(response_bytes) {
        Ok(m) => m,
        Err(_) => {
            return Err(BindingResponseError::Undecodable);
        },
    };
    if response.message_type() != MessageType::Response {
        return Err(BindingResponseError::NotBindingResponse);
    }
    let response_id = response.transaction_id();
    if !same_bytes(response_id.as_slice(), request_id.as_slice()) {
        return Err(BindingResponseError::TransactionIdMismatch);
    }
    match extract_reflexive_address(&response) {
        Some(addr) => Ok(addr),
        None => Err(BindingResponseError::NoReflexiveAddress),
    }
}


/// What to do after one try of the reflexive-address discovery over a list
/// of servers and their addresses.
pub enum Discovery<E> {
    /// Go on with the next address (or server), with this as the last error
    /// met.
    Continue(Option<E>),
    /// The reflexive address is found: the discovery ends with it.
    Found(SocketAddress),
}

/// Why the discovery found no reflexive address once every server was tried.
pub enum DiscoveryError<E> {
    /// The last error met.
    Last(E),
    /// No try was made (no server, or none resolved to an address): "All STUN
    /// servers failed".
    AllFailed,
}

/// One step of the discovery. `outcome` is that of one try, or `None` for a
/// server name that resolved to no address (no try). A try that gave the
/// reflexive address ends the discovery with it; a failed try (a name that
/// did not resolve, a client that could not be set up, a query that failed)
/// goes on with its error as the last one; no try goes on with `last_error`
/// unchanged.
pub fn discovery_step<E>(
    last_error: Option<E>,
    outcome: Option<Result<SocketAddress, E>>,
) -> (d: Discovery<E>)
    ensures
        match outcome {
            Some(Ok(a)) => d == Discovery::<E>::Found(a),
            Some(Err(e)) => d == Discovery::<E>::Continue(Some(e)),
            None => d == Discovery::<E>::Continue(last_error),
        },
{
    match outcome {
        Some(Ok(a)) => Discovery::Found(a),
        Some(Err(e)) => Discovery::Continue(Some(e)),
        None => Discovery::Continue(last_error),
    }
}

/// How the discovery fails once every server was tried: with the last
/// error met, or, when no try was made, with "All STUN servers failed".
pub fn discovery_failure<E>(last_error: Option<E>) -> (r: DiscoveryError<E>)
    ensures
        match last_error {
            Some(e) => r == DiscoveryError::<E>::Last(e),
            None => r is AllFailed,
        },
{
    match last_error {
        Some(e) => DiscoveryError::Last(e),
        None => DiscoveryError::AllFailed,
    }
}

/// The text of the failure when no try was made.
pub fn all_servers_failed_text() -> (s: String)
    ensures
        s@ == "All STUN servers failed"@,
{
    crate::text::string_from_str("All STUN servers failed")
}

} // verus!
