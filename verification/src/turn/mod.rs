//! TURN (RFC 5766): message and attribute types, message building, and the
//! request construction and response checks of the relay client.
pub mod client;
pub mod errors;
pub mod message;
pub mod turn_attribute_type;
pub mod turn_message_type;

pub use errors::TurnError;
pub use message::TurnMessage;
pub use turn_attribute_type::{TransportProtocol, TurnAttributeType};
pub use turn_message_type::TurnMessageType;
