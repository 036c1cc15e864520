//! File transfer message protocol: a type byte followed by big-endian
//! fields and length-prefixed UTF-8 strings.
use crate::bytes::{
    be16, be64, copy_range, lemma_read16_be16, lemma_read64_be64, push_all, push_u16, push_u64,
    read16, read64_at, u16_from_be, u64_from_be_at,
};
use crate::text::{string_from_str, string_from_utf8};
use vstd::prelude::*;
use vstd::string::*;
use vstd::utf8::{
    decode_utf8, encode_utf8, encode_utf8_decode_utf8, encode_utf8_valid_utf8, valid_utf8,
};

verus! {

/// Type byte of an offer.
pub const TYPE_OFFER: u8 = 0x01;
/// Type byte of an acceptance.
pub const TYPE_ACCEPT: u8 = 0x02;
/// Type byte of a rejection.
pub const TYPE_REJECT: u8 = 0x03;
/// Type byte of a data chunk.
pub const TYPE_DATA: u8 = 0x04;
/// Type byte of a completion notice.
pub const TYPE_COMPLETE: u8 = 0x05;
/// Type byte of a cancellation.
pub const TYPE_CANCEL: u8 = 0x06;

/// File transfer message types
#[derive(Debug, Clone)]
pub enum FileTransferMessage {
    /// Offer to send a file
    Offer { id: u64, filename: String, size: u64, mime_type: String },
    /// Accept file transfer
    Accept { id: u64 },
    /// Reject file transfer
    Reject { id: u64, reason: String },
    /// File data chunk
    Data { id: u64, offset: u64, data: Vec<u8> },
    /// Transfer completed
    Complete { id: u64, checksum: u64 },
    /// Cancel ongoing transfer
    Cancel { id: u64, reason: String },
}

/// A message with its strings taken as characters and its data as bytes.
pub enum MessageModel {
    Offer { id: u64, filename: Seq<char>, size: u64, mime_type: Seq<char> },
    Accept { id: u64 },
    Reject { id: u64, reason: Seq<char> },
    Data { id: u64, offset: u64, data: Seq<u8> },
    Complete { id: u64, checksum: u64 },
    Cancel { id: u64, reason: Seq<char> },
}

impl View for FileTransferMessage {
    type V = MessageModel;

    open spec fn view(&self) -> MessageModel {
        match self {
            FileTransferMessage::Offer { id, filename, size, mime_type } => MessageModel::Offer {
                id: *id,
                filename: filename@,
                size: *size,
                mime_type: mime_type@,
            },
            FileTransferMessage::Accept { id } => MessageModel::Accept { id: *id },
            FileTransferMessage::Reject { id, reason } => MessageModel::Reject {
                id: *id,
                reason: reason@,
            },
            FileTransferMessage::Data { id, offset, data } => MessageModel::Data {
                id: *id,
                offset: *offset,
                data: data@,
            },
            FileTransferMessage::Complete { id, checksum } => MessageModel::Complete {
                id: *id,
                checksum: *checksum,
            },
            FileTransferMessage::Cancel { id, reason } => MessageModel::Cancel {
                id: *id,
                reason: reason@,
            },
        }
    }
}

/// Why a byte string is not a file transfer message.
#[derive(Debug, Clone, Copy, PartialEq, Eq, Structural)]
pub enum MessageError {
    /// No bytes at all
    Empty,
    /// The type byte names no message
    UnknownType,
    /// An offer shorter than its fixed part
    OfferTooShort,
    /// An offer whose file name runs past the end
    Truncated,
    /// An offer whose file name is not UTF-8
    InvalidUtf8,
    /// A message shorter than its fixed part
    TooShort,
}

impl MessageError {
    /// The human-readable text of the error.
    pub open spec fn message_text(&self) -> Seq<char> {
        match self {
            MessageError::Empty => "Empty message"@,
            MessageError::UnknownType => "Unknown type"@,
            MessageError::OfferTooShort => "Offer too short"@,
            MessageError::Truncated => "Truncated"@,
            MessageError::InvalidUtf8 => "Invalid UTF-8"@,
            MessageError::TooShort => "Too short"@,
        }
    }

    /// Renders the error as text.
    pub fn to_string(&self) -> (s: String)
        ensures
            s@ == self.message_text(),
    {
        match self {
            MessageError::Empty => string_from_str("Empty message"),
            MessageError::UnknownType => string_from_str("Unknown type"),
            MessageError::OfferTooShort => string_from_str("Offer too short"),
            MessageError::Truncated => string_from_str("Truncated"),
            MessageError::InvalidUtf8 => string_from_str("Invalid UTF-8"),
            MessageError::TooShort => string_from_str("Too short"),
        }
    }
}

/// The UTF-8 bytes of `s`, preceded by their count as a big-endian 16-bit
/// number (the count wraps modulo 65536, as the sender writes it).
pub open spec fn prefixed_text(s: Seq<char>) -> Seq<u8> {
    be16(encode_utf8(s).len() as u16) + encode_utf8(s)
}

/// The bytes that a message is sent as.
pub open spec fn message_bytes(m: MessageModel) -> Seq<u8> {
    match m {
        MessageModel::Offer { id, filename, size, mime_type } => seq![TYPE_OFFER] + be64(id) + be64(
            size,
        ) + prefixed_text(filename) + prefixed_text(mime_type),
        MessageModel::Accept { id } => seq![TYPE_ACCEPT] + be64(id),
        MessageModel::Reject { id, reason } => seq![TYPE_REJECT] + be64(id) + prefixed_text(reason),
        MessageModel::Data { id, offset, data } => seq![TYPE_DATA] + be64(id) + be64(offset) + data,
        MessageModel::Complete { id, checksum } => seq![TYPE_COMPLETE] + be64(id) + be64(checksum),
        MessageModel::Cancel { id, reason } => seq![TYPE_CANCEL] + be64(id) + prefixed_text(reason),
    }
}

/// The big-endian 16-bit number at `data[at..at + 2]`.
pub open spec fn read16_at(data: Seq<u8>, at: int) -> u16 {
    read16(data[at], data[at + 1])
}

/// The text in `data[from..from + len]`, or the empty text where those bytes
/// run past the end or are not UTF-8.
pub open spec fn lenient_text(data: Seq<u8>, from: int, len: int) -> Seq<char> {
    if from + len <= data.len() && valid_utf8(data.subrange(from, from + len)) {
        decode_utf8(data.subrange(from, from + len))
    } else {
        Seq::empty()
    }
}

/// What an offer's bytes decode to.
pub open spec fn parse_offer_spec(data: Seq<u8>) -> Result<MessageModel, MessageError> {
    if data.len() < 21 {
        Err(MessageError::OfferTooShort)
    } else {
        let name_len = read16_at(data, 17) as int;
        if data.len() < 21 + name_len {
            Err(MessageError::Truncated)
        } else if !valid_utf8(data.subrange(19, 19 + name_len)) {
            Err(MessageError::InvalidUtf8)
        } else {
            let mime_at = 19 + name_len;
            Ok(
                MessageModel::Offer {
                    id: read64_at(data, 1),
                    filename: decode_utf8(data.subrange(19, 19 + name_len)),
                    size: read64_at(data, 9),
                    mime_type: lenient_text(
                        data,
                        mime_at + 2,
                        read16_at(data, mime_at) as int,
                    ),
                },
            )
        }
    }
}

/// What a message's bytes decode to.
pub open spec fn parse_spec(data: Seq<u8>) -> Result<MessageModel, MessageError> {
    if data.len() == 0 {
        Err(MessageError::Empty)
    } else if data[0] == TYPE_OFFER {
        parse_offer_spec(data)
    } else if data[0] == TYPE_ACCEPT {
        if data.len() < 9 {
            Err(MessageError::TooShort)
        } else {
            Ok(MessageModel::Accept { id: read64_at(data, 1) })
        }
    } else if data[0] == TYPE_REJECT || data[0] == TYPE_CANCEL {
        if data.len() < 11 {
            Err(MessageError::TooShort)
        } else {
            let reason = lenient_text(data, 11, read16_at(data, 9) as int);
            if data[0] == TYPE_REJECT {
                Ok(MessageModel::Reject { id: read64_at(data, 1), reason })
            } else {
                Ok(MessageModel::Cancel { id: read64_at(data, 1), reason })
            }
        }
    } else if data[0] == TYPE_DATA {
        if data.len() < 17 {
            Err(MessageError::TooShort)
        } else {
            Ok(
                MessageModel::Data {
                    id: read64_at(data, 1),
                    offset: read64_at(data, 9),
                    data: data.subrange(17, data.len() as int),
                },
            )
        }
    } else if data[0] == TYPE_COMPLETE {
        if data.len() < 17 {
            Err(MessageError::TooShort)
        } else {
            Ok(MessageModel::Complete { id: read64_at(data, 1), checksum: read64_at(data, 9) })
        }
    } else {
        Err(MessageError::UnknownType)
    }
}

/// Whether every text of the message fits its 16-bit length prefix.
pub open spec fn texts_fit(m: MessageModel) -> bool {
    match m {
        MessageModel::Offer { filename, mime_type, .. } => encode_utf8(filename).len() < 65536
            && encode_utf8(mime_type).len() < 65536,
        MessageModel::Reject { reason, .. } => encode_utf8(reason).len() < 65536,
        MessageModel::Cancel { reason, .. } => encode_utf8(reason).len() < 65536,
        _ => true,
    }
}

proof fn lemma_read64_within(data: Seq<u8>, at: int, v: u64)
    requires
        0 <= at,
        at + 8 <= data.len(),
        data.subrange(at, at + 8) == be64(v),
    ensures
        read64_at(data, at) == v,
{
    lemma_read64_be64(v);
    let w = data.subrange(at, at + 8);
    assert(data[at] == w[0] && data[at + 1] == w[1] && data[at + 2] == w[2] && data[at + 3]
        == w[3] && data[at + 4] == w[4] && data[at + 5] == w[5] && data[at + 6] == w[6] && data[at
        + 7] == w[7]);
}

proof fn lemma_read16_within(data: Seq<u8>, at: int, v: u16)
    requires
        0 <= at,
        at + 2 <= data.len(),
        data.subrange(at, at + 2) == be16(v),
    ensures
        read16_at(data, at) == v,
{
    lemma_read16_be16(v);
    let w = data.subrange(at, at + 2);
    assert(data[at] == w[0] && data[at + 1] == w[1]);
}

proof fn lemma_prefixed_text_within(data: Seq<u8>, at: int, s: Seq<char>)
    requires
        0 <= at,
        at + prefixed_text(s).len() <= data.len(),
        data.subrange(at, at + prefixed_text(s).len()) == prefixed_text(s),
        encode_utf8(s).len() < 65536,
    ensures
        read16_at(data, at) as int == encode_utf8(s).len(),
        data.subrange(at + 2, at + 2 + encode_utf8(s).len()) == encode_utf8(s),
        lenient_text(data, at + 2, encode_utf8(s).len() as int) == s,
        valid_utf8(encode_utf8(s)),
        decode_utf8(encode_utf8(s)) == s,
{
    let n = encode_utf8(s).len();
    let p = prefixed_text(s);
    assert(data.subrange(at, at + 2) =~= p.subrange(0, 2));
    assert(p.subrange(0, 2) =~= be16(n as u16));
    lemma_read16_within(data, at, n as u16);
    assert(data.subrange(at + 2, at + 2 + n) =~= p.subrange(2, 2 + n as int));
    assert(p.subrange(2, 2 + n as int) =~= encode_utf8(s));
    encode_utf8_valid_utf8(s);
    encode_utf8_decode_utf8(s);
}

#[verifier::rlimit(40)]
proof fn lemma_parse_offer_bytes(m: MessageModel)
    requires
        texts_fit(m),
        m is Offer,
    ensures
        parse_spec(message_bytes(m)) == Ok::<MessageModel, MessageError>(m),
{
    let data = message_bytes(m);
    let (id, filename, size, mime_type) = match m {
        MessageModel::Offer { id, filename, size, mime_type } => (id, filename, size, mime_type),
        _ => (0u64, Seq::empty(), 0u64, Seq::empty()),
    };
    let head = seq![TYPE_OFFER] + be64(id) + be64(size);
    let pf = prefixed_text(filename);
    let pm = prefixed_text(mime_type);
    let n = encode_utf8(filename).len() as int;
    let k = encode_utf8(mime_type).len() as int;
    assert(data =~= head + pf + pm);
    assert(data.len() == 21 + n + k);
    assert(data.subrange(1, 9) =~= be64(id));
    assert(data.subrange(9, 17) =~= be64(size));
    lemma_read64_within(data, 1, id);
    lemma_read64_within(data, 9, size);
    assert(data.subrange(17, 17 + pf.len() as int) =~= pf);
    lemma_prefixed_text_within(data, 17, filename);
    let mime_at = 19 + n;
    assert(data.subrange(mime_at, mime_at + pm.len() as int) =~= pm);
    lemma_prefixed_text_within(data, mime_at, mime_type);
    assert(read16_at(data, 17) as int == n);
    assert(valid_utf8(data.subrange(19, 19 + n)));
    assert(decode_utf8(data.subrange(19, 19 + n)) == filename);
    assert(read16_at(data, mime_at) as int == k);
    assert(lenient_text(data, mime_at + 2, k) == mime_type);
    assert(parse_offer_spec(data) == Ok::<MessageModel, MessageError>(m));
}

proof fn lemma_parse_reason_bytes(m: MessageModel)
    requires
        texts_fit(m),
        m is Reject || m is Cancel,
    ensures
        parse_spec(message_bytes(m)) == Ok::<MessageModel, MessageError>(m),
{
    let data = message_bytes(m);
    let (id, reason) = match m {
        MessageModel::Reject { id, reason } => (id, reason),
        MessageModel::Cancel { id, reason } => (id, reason),
        _ => (0u64, Seq::empty()),
    };
    let pr = prefixed_text(reason);
    assert(data.subrange(1, 9) =~= be64(id));
    lemma_read64_within(data, 1, id);
    assert(data.subrange(9, 9 + pr.len() as int) =~= pr);
    lemma_prefixed_text_within(data, 9, reason);
}

proof fn lemma_parse_fixed_bytes(m: MessageModel)
    requires
        m is Accept || m is Data || m is Complete,
    ensures
        parse_spec(message_bytes(m)) == Ok::<MessageModel, MessageError>(m),
{
    let data = message_bytes(m);
    match m {
        MessageModel::Accept { id } => {
            assert(data.subrange(1, 9) =~= be64(id));
            lemma_read64_within(data, 1, id);
        },
        MessageModel::Data { id, offset, data: payload } => {
            assert(data.subrange(1, 9) =~= be64(id));
            assert(data.subrange(9, 17) =~= be64(offset));
            lemma_read64_within(data, 1, id);
            lemma_read64_within(data, 9, offset);
            assert(data.subrange(17, data.len() as int) =~= payload);
        },
        MessageModel::Complete { id, checksum } => {
            assert(data.subrange(1, 9) =~= be64(id));
            assert(data.subrange(9, 17) =~= be64(checksum));
            lemma_read64_within(data, 1, id);
            lemma_read64_within(data, 9, checksum);
        },
        _ => {},
    }
}

/// Every message whose texts fit their length prefixes decodes back from its
/// bytes to itself.
pub proof fn lemma_parse_message_bytes(m: MessageModel)
    requires
        texts_fit(m),
    ensures
        parse_spec(message_bytes(m)) == Ok::<MessageModel, MessageError>(m),
{
    if m is Offer {
        lemma_parse_offer_bytes(m);
    } else if m is Reject || m is Cancel {
        lemma_parse_reason_bytes(m);
    } else {
        lemma_parse_fixed_bytes(m);
    }
}

/// Appends a string's UTF-8 bytes after their 16-bit count.
fn push_prefixed_text(out: &mut Vec<u8>, s: &String)
    ensures
        final(out)@ == old(out)@ + prefixed_text(s@),
{
    let b = s.as_str().as_bytes();
    let n = b.len();
    #[verifier::truncate]
    let len16 = n as u16;
    push_u16(out, len16);
    push_all(out, b);
    assert(final(out)@ =~= old(out)@ + prefixed_text(s@));
}

/// The text in `data[from..from + len]`, or an empty string where those bytes
/// run past the end or are not UTF-8.
fn lenient_string(data: &[u8], from: usize, len: usize) -> (s: String)
    requires
        from <= data@.len(),
        len <= 65535,
    ensures
        s@ == lenient_text(data@, from as int, len as int),
{
    if len <= data.len() - from {
        match string_from_utf8(copy_range(data, from, from + len)) {
            Some(s) => s,
            None => String::new(),
        }
    } else {
        String::new()
    }
}

impl FileTransferMessage {
    fn serialize_offer(id: u64, filename: &String, size: u64, mime_type: &String) -> (buf: Vec<u8>)
        ensures
            buf@ == message_bytes(
                MessageModel::Offer { id, filename: filename@, size, mime_type: mime_type@ },
            ),
    {
        let mut buf: Vec<u8> = Vec::new();
        buf.push(TYPE_OFFER);
        push_u64(&mut buf, id);
        push_u64(&mut buf, size);
        push_prefixed_text(&mut buf, filename);
        push_prefixed_text(&mut buf, mime_type);
        buf
    }

    fn serialize_accept(id: u64) -> (buf: Vec<u8>)
        ensures
            buf@ == message_bytes(MessageModel::Accept { id }),
    {
        let mut buf: Vec<u8> = Vec::new();
        buf.push(TYPE_ACCEPT);
        push_u64(&mut buf, id);
        buf
    }

    fn serialize_reject(id: u64, reason: &String) -> (buf: Vec<u8>)
        ensures
            buf@ == message_bytes(MessageModel::Reject { id, reason: reason@ }),
    {
        let mut buf: Vec<u8> = Vec::new();
        buf.push(TYPE_REJECT);
        push_u64(&mut buf, id);
        push_prefixed_text(&mut buf, reason);
        buf
    }

    fn serialize_data(id: u64, offset: u64, data: &[u8]) -> (buf: Vec<u8>)
        ensures
            buf@ == message_bytes(MessageModel::Data { id, offset, data: data@ }),
    {
        let mut buf: Vec<u8> = Vec::new();
        buf.push(TYPE_DATA);
        push_u64(&mut buf, id);
        push_u64(&mut buf, offset);
        push_all(&mut buf, data);
        buf
    }

    fn serialize_complete(id: u64, checksum: u64) -> (buf: Vec<u8>)
        ensures
            buf@ == message_bytes(MessageModel::Complete { id, checksum }),
    {
        let mut buf: Vec<u8> = Vec::new();
        buf.push(TYPE_COMPLETE);
        push_u64(&mut buf, id);
        push_u64(&mut buf, checksum);
        buf
    }

    fn serialize_cancel(id: u64, reason: &String) -> (buf: Vec<u8>)
        ensures
            buf@ == message_bytes(MessageModel::Cancel { id, reason: reason@ }),
    {
        let mut buf: Vec<u8> = Vec::new();
        buf.push(TYPE_CANCEL);
        push_u64(&mut buf, id);
        push_prefixed_text(&mut buf, reason);
        buf
    }

    /// Serialize to bytes
    pub fn to_bytes(&self) -> (buf: Vec<u8>)
        ensures
            buf@ == message_bytes(self@),
    {
        match self {
            FileTransferMessage::Offer { id, filename, size, mime_type } => Self::serialize_offer(
                *id,
                filename,
                *size,
                mime_type,
            ),
            FileTransferMessage::Accept { id } => Self::serialize_accept(*id),
            FileTransferMessage::Reject { id, reason } => Self::serialize_reject(*id, reason),
            FileTransferMessage::Data { id, offset, data } => Self::serialize_data(
                *id,
                *offset,
                data.as_slice(),
            ),
            FileTransferMessage::Complete { id, checksum } => Self::serialize_complete(
                *id,
                *checksum,
            ),
            FileTransferMessage::Cancel { id, reason } => Self::serialize_cancel(*id, reason),
        }
    }

    /// Parse from bytes
    pub fn from_bytes(data: &[u8]) -> (r: Result<Self, MessageError>)
        ensures
            match r {
                Ok(m) => parse_spec(data@) == Ok::<MessageModel, MessageError>(m@),
                Err(e) => parse_spec(data@) == Err::<MessageModel, MessageError>(e),
            },
    {
        if data.len() == 0 {
            return Err(MessageError::Empty);
        }
        let kind = data[0];
        if kind == TYPE_OFFER {
            Self::parse_offer(data)
        } else if kind == TYPE_ACCEPT {
            Self::parse_accept(data)
        } else if kind == TYPE_REJECT {
            Self::parse_reject(data)
        } else if kind == TYPE_DATA {
            Self::parse_data(data)
        } else if kind == TYPE_COMPLETE {
            Self::parse_complete(data)
        } else if kind == TYPE_CANCEL {
            Self::parse_cancel(data)
        } else {
            Err(MessageError::UnknownType)
        }
    }

    fn parse_offer(data: &[u8]) -> (r: Result<Self, MessageError>)
        requires
            data@.len() > 0,
            data@[0] == TYPE_OFFER,
        ensures
            match r {
                Ok(m) => parse_spec(data@) == Ok::<MessageModel, MessageError>(m@),
                Err(e) => parse_spec(data@) == Err::<MessageModel, MessageError>(e),
            },
    {
        if data.len() < 21 {
            return Err(MessageError::OfferTooShort);
        }
        let id = u64_from_be_at(data, 1);
        let size = u64_from_be_at(data, 9);
        let name_len = u16_from_be(data[17], data[18]) as usize;
        if data.len() < 21 + name_len {
            return Err(MessageError::Truncated);
        }
        let filename = match string_from_utf8(copy_range(data, 19, 19 + name_len)) {
            Some(s) => s,
            None => {
                return Err(MessageError::InvalidUtf8);
            },
        };
        let mime_at = 19 + name_len;
        let mime_len = u16_from_be(data[mime_at], data[mime_at + 1]) as usize;
        let mime_type = lenient_string(data, mime_at + 2, mime_len);
        Ok(FileTransferMessage::Offer { id, filename, size, mime_type })
    }

    fn parse_accept(data: &[u8]) -> (r: Result<Self, MessageError>)
        requires
            data@.len() > 0,
            data@[0] == TYPE_ACCEPT,
        ensures
            match r {
                Ok(m) => parse_spec(data@) == Ok::<MessageModel, MessageError>(m@),
                Err(e) => parse_spec(data@) == Err::<MessageModel, MessageError>(e),
            },
    {
        if data.len() < 9 {
            return Err(MessageError::TooShort);
        }
        let id = u64_from_be_at(data, 1);
        Ok(FileTransferMessage::Accept { id })
    }

    fn parse_reject(data: &[u8]) -> (r: Result<Self, MessageError>)
        requires
            data@.len() > 0,
            data@[0] == TYPE_REJECT,
        ensures
            match r {
                Ok(m) => parse_spec(data@) == Ok::<MessageModel, MessageError>(m@),
                Err(e) => parse_spec(data@) == Err::<MessageModel, MessageError>(e),
            },
    {
        if data.len() < 11 {
            return Err(MessageError::TooShort);
        }
        let id = u64_from_be_at(data, 1);
        let reason_len = u16_from_be(data[9], data[10]) as usize;
        let reason = lenient_string(data, 11, reason_len);
        Ok(FileTransferMessage::Reject { id, reason })
    }

    fn parse_data(data: &[u8]) -> (r: Result<Self, MessageError>)
        requires
            data@.len() > 0,
            data@[0] == TYPE_DATA,
        ensures
            match r {
                Ok(m) => parse_spec(data@) == Ok::<MessageModel, MessageError>(m@),
                Err(e) => parse_spec(data@) == Err::<MessageModel, MessageError>(e),
            },
    {
        if data.len() < 17 {
            return Err(MessageError::TooShort);
        }
        let id = u64_from_be_at(data, 1);
        let offset = u64_from_be_at(data, 9);
        let payload = copy_range(data, 17, data.len());
        Ok(FileTransferMessage::Data { id, offset, data: payload })
    }

    fn parse_complete(data: &[u8]) -> (r: Result<Self, MessageError>)
        requires
            data@.len() > 0,
            data@[0] == TYPE_COMPLETE,
        ensures
            match r {
                Ok(m) => parse_spec(data@) == Ok::<MessageModel, MessageError>(m@),
                Err(e) => parse_spec(data@) == Err::<MessageModel, MessageError>(e),
            },
    {
        if data.len() < 17 {
            return Err(MessageError::TooShort);
        }
        let id = u64_from_be_at(data, 1);
        let checksum = u64_from_be_at(data, 9);
        Ok(FileTransferMessage::Complete { id, checksum })
    }

    fn parse_cancel(data: &[u8]) -> (r: Result<Self, MessageError>)
        requires
            data@.len() > 0,
            data@[0] == TYPE_CANCEL,
        ensures
            match r {
                Ok(m) => parse_spec(data@) == Ok::<MessageModel, MessageError>(m@),
                Err(e) => parse_spec(data@) == Err::<MessageModel, MessageError>(e),
            },
    {
        if data.len() < 11 {
            return Err(MessageError::TooShort);
        }
        let id = u64_from_be_at(data, 1);
        let reason_len = u16_from_be(data[9], data[10]) as usize;
        let reason = lenient_string(data, 11, reason_len);
        Ok(FileTransferMessage::Cancel { id, reason })
    }
}


/// Where each field of a message stands on the wire: byte 0 is the type (1
/// offer, 2 accept, 3 reject, 4 data, 5 complete, 6 cancel); bytes 1..9 the
/// transfer id, big-endian; then, by kind, the size, offset or checksum in
/// bytes 9..17, or a text's 16-bit byte count in bytes 9..11 and its UTF-8
/// bytes after it; a data chunk's bytes from byte 17 on; an offer's file
/// name count in bytes 17..19, its name, then the MIME type's count and
/// text.
pub proof fn lemma_message_layout(m: MessageModel)
    ensures
        ({
            let b = message_bytes(m);
            match m {
                MessageModel::Offer { id, filename, size, mime_type } => {
                    let n = encode_utf8(filename).len() as int;
                    &&& b[0] == 1u8
                    &&& b.subrange(1, 9) == be64(id)
                    &&& b.subrange(9, 17) == be64(size)
                    &&& b.subrange(17, 19) == be16(n as u16)
                    &&& b.subrange(19, 19 + n) == encode_utf8(filename)
                    &&& b.subrange(19 + n, 21 + n) == be16(encode_utf8(mime_type).len() as u16)
                    &&& b.skip(21 + n) == encode_utf8(mime_type)
                },
                MessageModel::Accept { id } => {
                    &&& b.len() == 9
                    &&& b[0] == 2u8
                    &&& b.subrange(1, 9) == be64(id)
                },
                MessageModel::Reject { id, reason } => {
                    &&& b[0] == 3u8
                    &&& b.subrange(1, 9) == be64(id)
                    &&& b.subrange(9, 11) == be16(encode_utf8(reason).len() as u16)
                    &&& b.skip(11) == encode_utf8(reason)
                },
                MessageModel::Data { id, offset, data } => {
                    &&& b[0] == 4u8
                    &&& b.subrange(1, 9) == be64(id)
                    &&& b.subrange(9, 17) == be64(offset)
                    &&& b.skip(17) == data
                },
                MessageModel::Complete { id, checksum } => {
                    &&& b.len() == 17
                    &&& b[0] == 5u8
                    &&& b.subrange(1, 9) == be64(id)
                    &&& b.subrange(9, 17) == be64(checksum)
                },
                MessageModel::Cancel { id, reason } => {
                    &&& b[0] == 6u8
                    &&& b.subrange(1, 9) == be64(id)
                    &&& b.subrange(9, 11) == be16(encode_utf8(reason).len() as u16)
                    &&& b.skip(11) == encode_utf8(reason)
                },
            }
        }),
{
    let b = message_bytes(m);
    match m {
        MessageModel::Offer { id, filename, size, mime_type } => {
            let n = encode_utf8(filename).len() as int;
            assert(b.subrange(1, 9) =~= be64(id));
            assert(b.subrange(9, 17) =~= be64(size));
            assert(b.subrange(17, 19) =~= be16(n as u16));
            assert(b.subrange(19, 19 + n) =~= encode_utf8(filename));
            assert(b.subrange(19 + n, 21 + n) =~= be16(encode_utf8(mime_type).len() as u16));
            assert(b.skip(21 + n) =~= encode_utf8(mime_type));
        },
        MessageModel::Accept { id } => {
            assert(b.subrange(1, 9) =~= be64(id));
        },
        MessageModel::Reject { id, reason } => {
            assert(b.subrange(1, 9) =~= be64(id));
            assert(b.subrange(9, 11) =~= be16(encode_utf8(reason).len() as u16));
            assert(b.skip(11) =~= encode_utf8(reason));
        },
        MessageModel::Data { id, offset, data } => {
            assert(b.subrange(1, 9) =~= be64(id));
            assert(b.subrange(9, 17) =~= be64(offset));
            assert(b.skip(17) =~= data);
        },
        MessageModel::Complete { id, checksum } => {
            assert(b.subrange(1, 9) =~= be64(id));
            assert(b.subrange(9, 17) =~= be64(checksum));
        },
        MessageModel::Cancel { id, reason } => {
            assert(b.subrange(1, 9) =~= be64(id));
            assert(b.subrange(9, 11) =~= be16(encode_utf8(reason).len() as u16));
            assert(b.skip(11) =~= encode_utf8(reason));
        },
    }
}

} // verus!
