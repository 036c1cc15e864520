//! STUN (RFC 5389): message types, header and message codecs, the message
//! builder, XOR-MAPPED-ADDRESS decoding and the Binding-response checks.
pub mod attribute_type;
pub mod client;
pub mod errors;
pub mod message;
pub mod message_builder;
pub mod message_header;
pub mod message_type;
pub mod xor_mapped_address;

pub use attribute_type::AttributeType;
pub use errors::StunError;
pub use message::Message;
pub use message_builder::MessageBuilder;
pub use message_header::{MessageHeader, MAGIC_COOKIE};
pub use message_type::MessageType;
