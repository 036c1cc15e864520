//! The data channel that carries file transfers.
pub mod channel;

pub use channel::FileChannel;
