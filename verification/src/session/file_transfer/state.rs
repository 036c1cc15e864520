//! The life cycle of one file transfer.
use vstd::prelude::*;

verus! {

/// File transfer state.
#[derive(Debug, Clone, Copy, PartialEq, Eq, Structural)]
pub enum FileTransferState {
    /// Waiting for acceptance
    Pending,
    /// Transfer in progress
    Transferring,
    /// Transfer completed
    Completed,
    /// Transfer cancelled or rejected
    Cancelled,
}

} // verus!
