//! File transfer over a data channel: the wire messages, the per-transfer
//! state of sender and receiver, and the events reported to the application.
pub mod event;
pub mod incoming;
pub mod message;
pub mod outgoing;
pub mod state;

pub use event::FileTransferEvent;
pub use incoming::IncomingTransfer;
pub use message::FileTransferMessage;
pub use outgoing::OutgoingTransfer;
pub use state::FileTransferState;
