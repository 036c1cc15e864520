//! Session Description Protocol (RFC 4566): parsing, validating and
//! rendering the fields of a session description.
pub mod attribute;
pub mod connection;
pub mod errors;
pub mod media_description;
pub mod model;
pub mod origin;
pub mod round_trip;
pub mod sdp_type;
pub mod session_description;
pub mod session_description_builder;
pub mod text;
pub mod timing;

pub use attribute::Attribute;
pub use connection::Connection;
pub use errors::SdpError;
pub use media_description::MediaDescription;
pub use origin::Origin;
pub use sdp_type::SdpType;
pub use session_description::SessionDescription;
pub use session_description_builder::SessionDescriptionBuilder;
pub use timing::Timing;
