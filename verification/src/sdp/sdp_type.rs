//! SDP message type enumeration: whether an SDP message is an offer or an
//! answer.
use vstd::prelude::*;

verus! {

/// Represents the type of SDP message
#[derive(Debug, Clone, Copy, PartialEq, Eq, Structural)]
pub enum SdpType {
    /// Represents an SDP offer from the initiator
    Offer,
    /// Represents an SDP answer from the receiver
    Answer,
}

} // verus!
