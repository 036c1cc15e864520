//! Peer-to-peer session logic that runs over a data channel.
pub mod control_message;
pub mod file_channel;
pub mod file_transfer;
pub mod h264;

pub use control_message::ControlMessage;
pub use file_transfer::FileTransferEvent;
